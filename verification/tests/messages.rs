use payments::decimal::{append_decimal, to_decimal};
use payments::message::{exit_status, render_hints, render_status, Reply};
use payments::registry::{AccountRegistry, RegistryError};
use payments::rules::Outcome;

#[test]
fn decimal_of_small_and_large_numbers() {
    assert_eq!(to_decimal(0), "0");
    assert_eq!(to_decimal(7), "7");
    assert_eq!(to_decimal(9), "9");
    assert_eq!(to_decimal(10), "10");
    assert_eq!(to_decimal(100), "100");
    assert_eq!(to_decimal(1234567890), "1234567890");
    assert_eq!(to_decimal(4294967295), "4294967295");
}

#[test]
fn decimal_agrees_with_the_standard_rendering() {
    let mut n: u32 = 1;
    for _ in 0..600 {
        assert_eq!(to_decimal(n), format!("{}", n));
        n = n.wrapping_mul(2654435761).wrapping_add(12345);
    }
    for n in 0..1100u32 {
        assert_eq!(to_decimal(n), format!("{}", n));
    }
}

#[test]
fn decimal_is_appended_behind_what_is_there() {
    let mut text = String::from("balance ");
    append_decimal(&mut text, 305);
    assert_eq!(text, "balance 305");
    append_decimal(&mut text, 0);
    assert_eq!(text, "balance 3050");
}

#[test]
fn init_replies() {
    let reply = Reply::to_init(Outcome::Initialized, "alice", 100);
    assert_eq!(
        reply,
        Reply {
            successful: true,
            reason: Outcome::Initialized,
            message: "Account alice initialized and balance set to 100".to_string(),
        }
    );
    let reply = Reply::to_init(Outcome::AlreadyExists, "alice", 100);
    assert_eq!(
        reply,
        Reply {
            successful: false,
            reason: Outcome::AlreadyExists,
            message: "Account alice already exists".to_string(),
        }
    );
}

#[test]
fn payment_replies() {
    let reply = Reply::to_payment(Outcome::Transferred, "alice", "bob", 30);
    assert!(reply.successful);
    assert_eq!(reply.message, "Amount 30 transferred from alice to bob");
    let reply = Reply::to_payment(Outcome::InsufficientFunds, "alice", "bob", 30);
    assert!(!reply.successful);
    assert_eq!(reply.message, "Account alice has insufficient funds");
    let reply = Reply::to_payment(Outcome::NeitherExists, "alice", "bob", 30);
    assert!(!reply.successful);
    assert_eq!(reply.message, "Neither from account alice nor to account bob exist");
    let reply = Reply::to_payment(Outcome::SenderMissing, "alice", "bob", 30);
    assert!(!reply.successful);
    assert_eq!(reply.message, "From account alice doesn't exist");
    let reply = Reply::to_payment(Outcome::ReceiverMissing, "alice", "bob", 30);
    assert!(!reply.successful);
    assert_eq!(reply.message, "To account bob doesn't exist");
}

#[test]
fn outcomes_that_count_as_success() {
    assert!(Outcome::Initialized.is_success());
    assert!(Outcome::Transferred.is_success());
    assert!(!Outcome::AlreadyExists.is_success());
    assert!(!Outcome::InsufficientFunds.is_success());
    assert!(!Outcome::NeitherExists.is_success());
    assert!(!Outcome::SenderMissing.is_success());
    assert!(!Outcome::ReceiverMissing.is_success());
}

#[test]
fn client_lines_and_exit_codes() {
    let served = Reply::to_payment(Outcome::Transferred, "a", "b", 1);
    assert_eq!(
        render_status(served.successful, &served.message),
        "SUCCESS: Amount 1 transferred from a to b"
    );
    assert_eq!(exit_status(served.successful), 0);
    let refused = Reply::to_init(Outcome::AlreadyExists, "a", 0);
    assert_eq!(
        render_status(refused.successful, &refused.message),
        "FAILURE: Account a already exists"
    );
    assert_eq!(exit_status(refused.successful), 1);
    assert_eq!(render_status(true, ""), "SUCCESS: ");
    assert_eq!(render_status(false, ""), "FAILURE: ");
}

#[test]
fn hints_are_listed_one_per_line() {
    assert_eq!(render_hints(&vec![]), "Hints from client ");
    assert_eq!(render_hints(&vec!["a".to_string()]), "Hints from client \n* a");
    assert_eq!(
        render_hints(&vec!["slow down".to_string(), "".to_string(), "x\ny".to_string()]),
        "Hints from client \n* slow down\n* \n* x\ny"
    );
}

#[test]
fn registry_creates_each_address_once() {
    let mut registry = AccountRegistry::new();
    assert_eq!(registry.len(), 0);
    assert!(!registry.contains("a"));
    assert_eq!(registry.get("a"), None);
    assert_eq!(registry.create("a".to_string(), Some(5)), Ok(()));
    assert!(registry.contains("a"));
    assert_eq!(registry.get("a"), Some(5));
    assert_eq!(registry.create("a".to_string(), Some(9)), Err(RegistryError::AlreadyExists));
    assert_eq!(registry.get("a"), Some(5));
    assert_eq!(registry.create("b".to_string(), None), Ok(()));
    assert_eq!(registry.get("b"), Some(0));
    assert_eq!(registry.len(), 2);
}

#[test]
fn registry_sets_the_balance_of_one_account() {
    let mut registry = AccountRegistry::new();
    assert_eq!(registry.create("a".to_string(), Some(5)), Ok(()));
    assert_eq!(registry.create("b".to_string(), Some(6)), Ok(()));
    registry.set_balance("a".to_string(), 77);
    assert_eq!(registry.get("a"), Some(77));
    assert_eq!(registry.get("b"), Some(6));
    assert_eq!(registry.len(), 2);
}
