//! What holds of the ledger's rules on every state and every request.

use crate::message::{init_message, transfer_message};
use crate::rules::{after_init, after_transfer, bounded, credit_fits, init_outcome};
use crate::rules::{lemma_total_insert, settled, total, transfer_outcome, Outcome};
use vstd::prelude::*;

verus! {

/// Registering an address that is not registered yet goes through and opens
/// the account with the balance given. Registering the same address again,
/// with whatever balance, is refused with the words "already exists", and
/// leaves the ledger, and so the balance of the first registration, as it
/// was.
pub proof fn law_account_is_created_once(
    balances: Map<Seq<char>, nat>,
    addr: Seq<char>,
    first: nat,
    second: nat,
)
    requires
        !balances.contains_key(addr),
    ensures
        init_outcome(balances, addr) == Outcome::Initialized,
        after_init(balances, addr, first).contains_key(addr),
        after_init(balances, addr, first)[addr] == first,
        init_outcome(after_init(balances, addr, first), addr) == Outcome::AlreadyExists,
        init_message(Outcome::AlreadyExists, addr, second) == "Account "@ + addr
            + " already exists"@,
        after_init(after_init(balances, addr, first), addr, second) == after_init(
            balances,
            addr,
            first,
        ),
{
}

/// Registering an account touches no other account.
pub proof fn law_init_leaves_others(
    balances: Map<Seq<char>, nat>,
    addr: Seq<char>,
    balance: nat,
    other: Seq<char>,
)
    requires
        other != addr,
    ensures
        after_init(balances, addr, balance).contains_key(other) == balances.contains_key(other),
        balances.contains_key(other) ==> after_init(balances, addr, balance)[other]
            == balances[other],
{
}

/// A transfer between two different registered accounts, of no more than
/// the sender holds, goes through: the sender has the amount less, the
/// receiver has it more, what the two hold together is what they held
/// before, and no other account is touched.
pub proof fn law_transfer_moves_funds(
    balances: Map<Seq<char>, nat>,
    from: Seq<char>,
    to: Seq<char>,
    amount: nat,
)
    requires
        balances.contains_key(from),
        balances.contains_key(to),
        from != to,
        balances[from] >= amount,
    ensures
        transfer_outcome(balances, from, to, amount) == Outcome::Transferred,
        after_transfer(balances, from, to, amount).dom() == balances.dom(),
        after_transfer(balances, from, to, amount)[from] == balances[from] - amount,
        after_transfer(balances, from, to, amount)[to] == balances[to] + amount,
        after_transfer(balances, from, to, amount)[from] + after_transfer(
            balances,
            from,
            to,
            amount,
        )[to] == balances[from] + balances[to],
        forall|other: Seq<char>|
            other != from && other != to && balances.contains_key(other) ==> #[trigger]
            after_transfer(balances, from, to, amount)[other] == balances[other],
{
    assert(after_transfer(balances, from, to, amount).dom() =~= balances.dom());
}

/// A transfer from a registered account to itself is held to the funds
/// check like any other, and where it goes through the ledger is as it was.
pub proof fn law_self_transfer_changes_nothing(
    balances: Map<Seq<char>, nat>,
    addr: Seq<char>,
    amount: nat,
)
    requires
        balances.contains_key(addr),
    ensures
        transfer_outcome(balances, addr, addr, amount) == if balances[addr] >= amount {
            Outcome::Transferred
        } else {
            Outcome::InsufficientFunds
        },
        after_transfer(balances, addr, addr, amount) == balances,
        credit_fits(balances, addr, addr, amount),
{
    assert(after_transfer(balances, addr, addr, amount) =~= balances);
}

/// A transfer of nothing between registered accounts always goes through
/// and changes no balance.
pub proof fn law_zero_transfer_changes_nothing(
    balances: Map<Seq<char>, nat>,
    from: Seq<char>,
    to: Seq<char>,
)
    requires
        balances.contains_key(from),
        balances.contains_key(to),
    ensures
        transfer_outcome(balances, from, to, 0) == Outcome::Transferred,
        after_transfer(balances, from, to, 0) == balances,
{
    assert(after_transfer(balances, from, to, 0) =~= balances);
}

/// A transfer of more than the sender holds is refused for insufficient
/// funds, in a sentence that names the sender, and the ledger stays as it
/// was.
pub proof fn law_insufficient_funds_change_nothing(
    balances: Map<Seq<char>, nat>,
    from: Seq<char>,
    to: Seq<char>,
    amount: nat,
)
    requires
        balances.contains_key(from),
        balances.contains_key(to),
        balances[from] < amount,
    ensures
        transfer_outcome(balances, from, to, amount) == Outcome::InsufficientFunds,
        transfer_message(Outcome::InsufficientFunds, from, to, amount) == "Account "@ + from
            + " has insufficient funds"@,
        after_transfer(balances, from, to, amount) == balances,
{
}

/// A transfer with an unregistered end is refused, whatever the amount, and
/// the ledger stays as it was. The refusal names both accounts where
/// neither is registered, and otherwise the one that is missing.
pub proof fn law_missing_account_changes_nothing(
    balances: Map<Seq<char>, nat>,
    from: Seq<char>,
    to: Seq<char>,
    amount: nat,
)
    requires
        !balances.contains_key(from) || !balances.contains_key(to),
    ensures
        after_transfer(balances, from, to, amount) == balances,
        !balances.contains_key(from) && !balances.contains_key(to) ==> {
            &&& transfer_outcome(balances, from, to, amount) == Outcome::NeitherExists
            &&& transfer_message(Outcome::NeitherExists, from, to, amount)
                == "Neither from account "@ + from + " nor to account "@ + to + " exist"@
        },
        balances.contains_key(from) && !balances.contains_key(to) ==> {
            &&& transfer_outcome(balances, from, to, amount) == Outcome::ReceiverMissing
            &&& transfer_message(Outcome::ReceiverMissing, from, to, amount) == "To account "@
                + to + " doesn't exist"@
        },
        !balances.contains_key(from) && balances.contains_key(to) ==> {
            &&& transfer_outcome(balances, from, to, amount) == Outcome::SenderMissing
            &&& transfer_message(Outcome::SenderMissing, from, to, amount) == "From account "@
                + from + " doesn't exist"@
        },
{
}

/// A request changes the ledger only where it goes through.
pub proof fn law_refusal_changes_nothing(
    balances: Map<Seq<char>, nat>,
    from: Seq<char>,
    to: Seq<char>,
    amount: nat,
)
    ensures
        !init_outcome(balances, from).succeeded() ==> after_init(balances, from, amount)
            == balances,
        !transfer_outcome(balances, from, to, amount).succeeded() ==> after_transfer(
            balances,
            from,
            to,
            amount,
        ) == balances,
{
}

/// No request to move funds, served or refused, registers or removes an
/// account or changes what all accounts hold together.
pub proof fn law_transfer_conserves_total(
    balances: Map<Seq<char>, nat>,
    from: Seq<char>,
    to: Seq<char>,
    amount: nat,
)
    requires
        balances.dom().finite(),
    ensures
        after_transfer(balances, from, to, amount).dom() == balances.dom(),
        total(after_transfer(balances, from, to, amount)) == total(balances),
{
    if transfer_outcome(balances, from, to, amount) == Outcome::Transferred {
        let taken = balances.insert(from, (balances[from] - amount) as nat);
        let given = taken.insert(to, taken[to] + amount);
        lemma_total_insert(balances, from, (balances[from] - amount) as nat);
        lemma_total_insert(taken, to, taken[to] + amount);
        assert(given == after_transfer(balances, from, to, amount));
        assert(given.dom() =~= balances.dom());
    }
}

/// Registering an account adds its opening balance to what all accounts
/// hold together; a refused registration adds nothing.
pub proof fn law_init_adds_opening_balance(
    balances: Map<Seq<char>, nat>,
    addr: Seq<char>,
    balance: nat,
)
    requires
        balances.dom().finite(),
    ensures
        after_init(balances, addr, balance).dom().finite(),
        total(after_init(balances, addr, balance)) == if balances.contains_key(addr) {
            total(balances)
        } else {
            total(balances) + balance
        },
{
    if !balances.contains_key(addr) {
        lemma_total_insert(balances, addr, balance);
    }
}

/// One request to move funds.
pub struct Payment {
    pub from: Seq<char>,
    pub to: Seq<char>,
    pub amount: nat,
}

/// The state after a run of requests to move funds, served one after
/// another in the order given, each only where the receiver's new balance
/// fits.
pub open spec fn after_payments(balances: Map<Seq<char>, nat>, payments: Seq<Payment>) -> Map<
    Seq<char>,
    nat,
>
    decreases payments.len(),
{
    if payments.len() == 0 {
        balances
    } else {
        let last = payments.last();
        settled(after_payments(balances, payments.drop_last()), last.from, last.to, last.amount)
    }
}

/// Whether each of `payments` is between `a` and `b`, in either direction.
pub open spec fn all_between(payments: Seq<Payment>, a: Seq<char>, b: Seq<char>) -> bool {
    forall|i: int|
        0 <= i < payments.len() ==> {
            &&& (#[trigger] payments[i]).from == a || payments[i].from == b
            &&& payments[i].to == a || payments[i].to == b
        }
}

/// However many requests to move funds are served, and in whatever order
/// they come to be served one after another, the ledger has the accounts
/// that it had, they hold together what they held, and every balance still
/// fits its width. A run cut short at any point is a run too, so this holds
/// of every state that the run passes through.
pub proof fn law_payments_conserve_total(balances: Map<Seq<char>, nat>, payments: Seq<Payment>)
    requires
        balances.dom().finite(),
    ensures
        after_payments(balances, payments).dom() == balances.dom(),
        total(after_payments(balances, payments)) == total(balances),
        bounded(balances) ==> bounded(after_payments(balances, payments)),
    decreases payments.len(),
{
    if payments.len() > 0 {
        let last = payments.last();
        let before = after_payments(balances, payments.drop_last());
        law_payments_conserve_total(balances, payments.drop_last());
        law_transfer_conserves_total(before, last.from, last.to, last.amount);
        if bounded(balances) {
            law_settled_stays_bounded(before, last.from, last.to, last.amount);
        }
    }
}

/// Serving a request to move funds only where the receiver's new balance
/// fits keeps every balance within its width.
pub proof fn law_settled_stays_bounded(
    balances: Map<Seq<char>, nat>,
    from: Seq<char>,
    to: Seq<char>,
    amount: nat,
)
    requires
        bounded(balances),
    ensures
        bounded(settled(balances, from, to, amount)),
{
    let after = settled(balances, from, to, amount);
    assert forall|addr: Seq<char>| #[trigger] after.contains_key(addr) implies after[addr]
        <= u32::MAX by {
        assert(balances.contains_key(addr));
    }
}

/// However many requests to move funds between two registered accounts are
/// served, in either direction and in whatever order, the two are still
/// registered and hold together what they held at the start. Balances are
/// natural numbers, so neither is ever below zero; a run cut short at any
/// point is a run too, so this holds of every state that the run passes
/// through.
pub proof fn law_payments_conserve_pair(
    balances: Map<Seq<char>, nat>,
    a: Seq<char>,
    b: Seq<char>,
    payments: Seq<Payment>,
)
    requires
        balances.contains_key(a),
        balances.contains_key(b),
        a != b,
        all_between(payments, a, b),
    ensures
        after_payments(balances, payments).contains_key(a),
        after_payments(balances, payments).contains_key(b),
        after_payments(balances, payments)[a] + after_payments(balances, payments)[b]
            == balances[a] + balances[b],
    decreases payments.len(),
{
    if payments.len() > 0 {
        let last = payments.last();
        let earlier = payments.drop_last();
        assert forall|i: int| 0 <= i < earlier.len() implies {
            &&& (#[trigger] earlier[i]).from == a || earlier[i].from == b
            &&& earlier[i].to == a || earlier[i].to == b
        } by {
            assert(earlier[i] == payments[i]);
        }
        law_payments_conserve_pair(balances, a, b, earlier);
        assert(last == payments[payments.len() - 1]);
    }
}

} // verus!
