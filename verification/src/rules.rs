//! The ledger's rules, as mathematics.
//!
//! A ledger state is the map from each registered address to its balance.
//! The functions here say, for each operation, how it is decided and what
//! state it leaves. The executable service is specified against them.

use vstd::prelude::*;

verus! {

/// How an operation on the ledger ended.
#[derive(Debug, Clone, Copy, PartialEq, Eq, Structural)]
pub enum Outcome {
    /// A new account was registered.
    Initialized,
    /// The address to register was registered already.
    AlreadyExists,
    /// The amount moved from the sender to the receiver.
    Transferred,
    /// Both accounts exist, and the sender holds less than the amount.
    InsufficientFunds,
    /// Neither the sender nor the receiver is registered.
    NeitherExists,
    /// The receiver is registered, the sender is not.
    SenderMissing,
    /// The sender is registered, the receiver is not.
    ReceiverMissing,
}

impl Outcome {
    /// Whether the operation did what was asked.
    pub open spec fn succeeded(self) -> bool {
        self == Outcome::Initialized || self == Outcome::Transferred
    }

    /// Whether the operation did what was asked.
    #[verifier::when_used_as_spec(succeeded)]
    pub fn is_success(self) -> (yes: bool)
        ensures
            yes == self.succeeded(),
    {
        match self {
            Outcome::Initialized => true,
            Outcome::Transferred => true,
            _ => false,
        }
    }
}

/// The balance that an account opens with: the amount given, zero if none is.
pub open spec fn opening_balance(init_amount: Option<u32>) -> nat {
    match init_amount {
        Some(amount) => amount as nat,
        None => 0,
    }
}

/// How a request to register `addr` ends.
pub open spec fn init_outcome(balances: Map<Seq<char>, nat>, addr: Seq<char>) -> Outcome {
    if balances.contains_key(addr) {
        Outcome::AlreadyExists
    } else {
        Outcome::Initialized
    }
}

/// The state after a request to register `addr` with `balance`.
pub open spec fn after_init(balances: Map<Seq<char>, nat>, addr: Seq<char>, balance: nat) -> Map<
    Seq<char>,
    nat,
> {
    if balances.contains_key(addr) {
        balances
    } else {
        balances.insert(addr, balance)
    }
}

/// How a request to move `amount` from `from` to `to` ends. Sender and
/// receiver are looked up independently of each other, and the funds are
/// checked also where they are the same account.
pub open spec fn transfer_outcome(
    balances: Map<Seq<char>, nat>,
    from: Seq<char>,
    to: Seq<char>,
    amount: nat,
) -> Outcome {
    if balances.contains_key(from) && balances.contains_key(to) {
        if balances[from] >= amount {
            Outcome::Transferred
        } else {
            Outcome::InsufficientFunds
        }
    } else if balances.contains_key(from) {
        Outcome::ReceiverMissing
    } else if balances.contains_key(to) {
        Outcome::SenderMissing
    } else {
        Outcome::NeitherExists
    }
}

/// The state with `amount` taken from `from`.
pub open spec fn debited(balances: Map<Seq<char>, nat>, from: Seq<char>, amount: nat) -> Map<
    Seq<char>,
    nat,
> {
    balances.insert(from, (balances[from] - amount) as nat)
}

/// The state with `amount` given to `to`.
pub open spec fn credited(balances: Map<Seq<char>, nat>, to: Seq<char>, amount: nat) -> Map<
    Seq<char>,
    nat,
> {
    balances.insert(to, balances[to] + amount)
}

/// The state after a request to move `amount` from `from` to `to`: the
/// debit and then the credit where the transfer goes through, the state
/// as it was where it does not. The credit is made on the debited state, so
/// a transfer from an account to itself leaves its balance as it was.
pub open spec fn after_transfer(
    balances: Map<Seq<char>, nat>,
    from: Seq<char>,
    to: Seq<char>,
    amount: nat,
) -> Map<Seq<char>, nat> {
    if transfer_outcome(balances, from, to, amount) == Outcome::Transferred {
        credited(debited(balances, from, amount), to, amount)
    } else {
        balances
    }
}

/// Whether the receiver's balance after the transfer fits the width that
/// balances are kept in. It does wherever the transfer is refused, and
/// wherever sender and receiver are the same account.
pub open spec fn credit_fits(
    balances: Map<Seq<char>, nat>,
    from: Seq<char>,
    to: Seq<char>,
    amount: nat,
) -> bool {
    transfer_outcome(balances, from, to, amount) == Outcome::Transferred && from != to
        ==> balances[to] + amount <= u32::MAX
}

/// The state after a request to move funds that is served only where the
/// receiver's new balance fits: the transfer where it does, the state as it
/// was where it does not.
pub open spec fn settled(
    balances: Map<Seq<char>, nat>,
    from: Seq<char>,
    to: Seq<char>,
    amount: nat,
) -> Map<Seq<char>, nat> {
    if credit_fits(balances, from, to, amount) {
        after_transfer(balances, from, to, amount)
    } else {
        balances
    }
}

/// Whether every balance fits the width that balances are kept in.
pub open spec fn bounded(balances: Map<Seq<char>, nat>) -> bool {
    forall|addr: Seq<char>| #[trigger] balances.contains_key(addr) ==> balances[addr] <= u32::MAX
}

/// The sum of all balances of a state with finitely many accounts.
pub open spec fn total(balances: Map<Seq<char>, nat>) -> nat
    decreases balances.dom().len(),
    when balances.dom().finite()
{
    if balances.dom().is_empty() {
        0
    } else {
        let addr = balances.dom().choose();
        balances[addr] + total(balances.remove(addr))
    }
}

/// The total is the balance of any one account plus the total of the rest.
pub proof fn lemma_total_split(balances: Map<Seq<char>, nat>, addr: Seq<char>)
    requires
        balances.dom().finite(),
        balances.contains_key(addr),
    ensures
        total(balances) == balances[addr] + total(balances.remove(addr)),
    decreases balances.dom().len(),
{
    let first = balances.dom().choose();
    if first != addr {
        lemma_total_split(balances.remove(first), addr);
        lemma_total_split(balances.remove(addr), first);
        assert(balances.remove(first).remove(addr) =~= balances.remove(addr).remove(first));
    }
}

/// Writing one balance changes the total by the difference to what that
/// account held before, nothing if it is new.
pub proof fn lemma_total_insert(balances: Map<Seq<char>, nat>, addr: Seq<char>, balance: nat)
    requires
        balances.dom().finite(),
    ensures
        balances.insert(addr, balance).dom().finite(),
        total(balances.insert(addr, balance)) == total(balances.remove(addr)) + balance,
        balances.contains_key(addr) ==> total(balances) == total(balances.remove(addr))
            + balances[addr],
        !balances.contains_key(addr) ==> total(balances) == total(balances.remove(addr)),
{
    let written = balances.insert(addr, balance);
    lemma_total_split(written, addr);
    assert(written.remove(addr) =~= balances.remove(addr));
    if balances.contains_key(addr) {
        lemma_total_split(balances, addr);
    } else {
        assert(balances.remove(addr) =~= balances);
    }
}

} // verus!
