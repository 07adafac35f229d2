//! The messages that cross the service's boundary, and the text of each
//! reply.

use crate::decimal::{append_decimal, decimal};
use crate::rules::Outcome;
use vstd::prelude::*;
use vstd::string::*;

verus! {

/// A request to register an account. An absent amount opens the account
/// with nothing; that is not the same request as one with amount zero,
/// though both leave the same balance.
#[derive(Debug, Clone, PartialEq, Eq)]
pub struct InitAccountRequest {
    pub addr: String,
    pub init_amount: Option<u32>,
}

/// A request to move funds from one account to another.
#[derive(Debug, Clone, PartialEq, Eq)]
pub struct PaymentRequest {
    pub from_addr: String,
    pub to_addr: String,
    pub amount: u32,
}

/// A list of advisory strings for the operator.
#[derive(Debug, Clone, PartialEq, Eq)]
pub struct HintsRequest {
    pub hints: Vec<String>,
}

/// The answer to a request that may change the ledger: whether it went
/// through, why or why not, and a sentence for a human reader.
#[derive(Debug, Clone, PartialEq, Eq)]
pub struct Reply {
    pub successful: bool,
    pub reason: Outcome,
    pub message: String,
}

/// The sentence that answers a request to register `addr`, which would have
/// opened with `balance`.
pub open spec fn init_message(outcome: Outcome, addr: Seq<char>, balance: nat) -> Seq<char> {
    if outcome == Outcome::Initialized {
        "Account "@ + addr + " initialized and balance set to "@ + decimal(balance)
    } else {
        "Account "@ + addr + " already exists"@
    }
}

/// The sentence that answers a request to move `amount` from `from` to `to`.
/// A refusal names each account that is missing, or the sender that is
/// short of funds.
pub open spec fn transfer_message(
    outcome: Outcome,
    from: Seq<char>,
    to: Seq<char>,
    amount: nat,
) -> Seq<char> {
    match outcome {
        Outcome::InsufficientFunds => "Account "@ + from + " has insufficient funds"@,
        Outcome::NeitherExists => "Neither from account "@ + from + " nor to account "@ + to
            + " exist"@,
        Outcome::SenderMissing => "From account "@ + from + " doesn't exist"@,
        Outcome::ReceiverMissing => "To account "@ + to + " doesn't exist"@,
        _ => "Amount "@ + decimal(amount) + " transferred from "@ + from + " to "@ + to,
    }
}

/// The line that shows a list of hints to the operator: a heading, then
/// each hint on a line of its own behind a bullet.
pub open spec fn hints_line(hints: Seq<Seq<char>>) -> Seq<char>
    decreases hints.len(),
{
    if hints.len() == 0 {
        "Hints from client "@
    } else {
        hints_line(hints.drop_last()) + "\n* "@ + hints.last()
    }
}

/// What a client prints for a reply: the verdict, then the reply's sentence.
pub open spec fn status_line(successful: bool, message: Seq<char>) -> Seq<char> {
    if successful {
        "SUCCESS: "@ + message
    } else {
        "FAILURE: "@ + message
    }
}

/// The view of each string of a list, in order.
pub open spec fn texts(strings: Seq<String>) -> Seq<Seq<char>> {
    Seq::new(strings.len(), |i: int| strings[i]@)
}

impl Reply {
    /// The reply to a request to register `addr` that ended in `outcome`.
    pub fn to_init(outcome: Outcome, addr: &str, balance: u32) -> (reply: Reply)
        ensures
            reply.successful == outcome.succeeded(),
            reply.reason == outcome,
            reply.message@ == init_message(outcome, addr@, balance as nat),
    {
        let mut message = String::from_str("Account ");
        message.append(addr);
        match outcome {
            Outcome::Initialized => {
                message.append(" initialized and balance set to ");
                append_decimal(&mut message, balance);
            },
            _ => {
                message.append(" already exists");
            },
        }
        Reply { successful: outcome.is_success(), reason: outcome, message }
    }

    /// The reply to a request to move `amount` from `from` to `to` that
    /// ended in `outcome`.
    pub fn to_payment(outcome: Outcome, from: &str, to: &str, amount: u32) -> (reply: Reply)
        ensures
            reply.successful == outcome.succeeded(),
            reply.reason == outcome,
            reply.message@ == transfer_message(outcome, from@, to@, amount as nat),
    {
        let mut message = String::new();
        match outcome {
            Outcome::InsufficientFunds => {
                message.append("Account ");
                message.append(from);
                message.append(" has insufficient funds");
            },
            Outcome::NeitherExists => {
                message.append("Neither from account ");
                message.append(from);
                message.append(" nor to account ");
                message.append(to);
                message.append(" exist");
            },
            Outcome::SenderMissing => {
                message.append("From account ");
                message.append(from);
                message.append(" doesn't exist");
            },
            Outcome::ReceiverMissing => {
                message.append("To account ");
                message.append(to);
                message.append(" doesn't exist");
            },
            _ => {
                message.append("Amount ");
                append_decimal(&mut message, amount);
                message.append(" transferred from ");
                message.append(from);
                message.append(" to ");
                message.append(to);
            },
        }
        assert(message@ =~= transfer_message(outcome, from@, to@, amount as nat));
        Reply { successful: outcome.is_success(), reason: outcome, message }
    }
}

/// The line that a client prints for a reply with this verdict and sentence.
pub fn render_status(successful: bool, message: &str) -> (line: String)
    ensures
        line@ == status_line(successful, message@),
{
    let mut line = if successful {
        String::from_str("SUCCESS: ")
    } else {
        String::from_str("FAILURE: ")
    };
    line.append(message);
    line
}

/// The status that a client exits with after a reply: zero where the
/// request went through, one where it was refused.
pub fn exit_status(successful: bool) -> (code: i32)
    ensures
        code == if successful { 0i32 } else { 1i32 },
{
    if successful {
        0
    } else {
        1
    }
}

/// Renders a list of hints for the operator.
pub fn render_hints(hints: &Vec<String>) -> (line: String)
    ensures
        line@ == hints_line(texts(hints@)),
{
    let mut line = String::from_str("Hints from client ");
    let mut i: usize = 0;
    assert(texts(hints@).take(0) =~= Seq::<Seq<char>>::empty());
    while i < hints.len()
        invariant
            i <= hints.len(),
            line@ == hints_line(texts(hints@).take(i as int)),
        decreases hints.len() - i,
    {
        line.append("\n* ");
        line.append(hints[i].as_str());
        proof {
            let shown = texts(hints@).take(i + 1);
            assert(shown.drop_last() =~= texts(hints@).take(i as int));
            assert(shown.last() == hints@[i as int]@);
        }
        i += 1;
    }
    assert(texts(hints@).take(i as int) =~= texts(hints@));
    line
}

} // verus!
