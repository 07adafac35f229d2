//! The ledger service: the operations that callers reach, each one
//! indivisible.
//!
//! Every operation that may change the ledger takes the service by unique
//! reference. Whoever shares a service between callers must therefore hand
//! it out to one caller at a time, and each operation decides and acts on
//! one state: no other request comes between its checks and its writes.

use crate::message::{hints_line, init_message, render_hints, texts, transfer_message};
use crate::message::{HintsRequest, InitAccountRequest, PaymentRequest, Reply};
use crate::registry::AccountRegistry;
use crate::rules::{after_init, after_transfer, credit_fits, init_outcome, opening_balance};
use crate::rules::{bounded, settled, transfer_outcome, Outcome};
use vstd::prelude::*;

verus! {

/// The service that owns the ledger.
pub struct BitcoinService {
    balances: AccountRegistry,
}

impl View for BitcoinService {
    type V = Map<Seq<char>, nat>;

    /// The ledger: the balance of every registered address.
    closed spec fn view(&self) -> Map<Seq<char>, nat> {
        self.balances@
    }
}

impl Default for BitcoinService {
    /// A service with no account.
    fn default() -> (service: Self)
        ensures
            service@ == Map::<Seq<char>, nat>::empty(),
    {
        BitcoinService { balances: AccountRegistry::new() }
    }
}

impl BitcoinService {
    /// A service with no account.
    pub fn new() -> (service: Self)
        ensures
            service@ == Map::<Seq<char>, nat>::empty(),
    {
        BitcoinService { balances: AccountRegistry::new() }
    }

    /// The number of registered accounts.
    pub fn account_count(&self) -> (count: usize)
        ensures
            self@.dom().finite(),
            count == self@.dom().len(),
    {
        self.balances.len()
    }

    /// Every balance of the ledger fits the width that balances are kept in.
    pub proof fn lemma_bounded(&self)
        ensures
            bounded(self@),
    {
        self.balances.lemma_balances_bounded();
    }

    /// The balance of `address`, if it is registered.
    pub fn balance(&self, address: &str) -> (balance: Option<u32>)
        ensures
            balance is Some <==> self@.contains_key(address@),
            balance is Some ==> balance->0 == self@[address@],
    {
        self.balances.get(address)
    }

    /// Registers the account that `request` names, with the amount it gives
    /// or with nothing, unless the address is registered already; then the
    /// ledger stays as it is and the reply says so.
    pub fn init_account(&mut self, request: InitAccountRequest) -> (reply: Reply)
        ensures
            reply.reason == init_outcome(old(self)@, request.addr@),
            reply.successful == !old(self)@.contains_key(request.addr@),
            reply.message@ == init_message(
                reply.reason,
                request.addr@,
                opening_balance(request.init_amount),
            ),
            final(self)@ == after_init(
                old(self)@,
                request.addr@,
                opening_balance(request.init_amount),
            ),
    {
        let init_balance = match request.init_amount {
            Some(amount) => amount,
            None => 0,
        };
        let outcome = match self.balances.create(request.addr.clone(), request.init_amount) {
            Ok(()) => Outcome::Initialized,
            Err(_) => Outcome::AlreadyExists,
        };
        Reply::to_init(outcome, request.addr.as_str(), init_balance)
    }

    /// How a payment would end on the ledger as it stands.
    pub fn payment_outcome(&self, request: &PaymentRequest) -> (outcome: Outcome)
        ensures
            outcome == transfer_outcome(
                self@,
                request.from_addr@,
                request.to_addr@,
                request.amount as nat,
            ),
    {
        let from_balance = self.balances.get(request.from_addr.as_str());
        let contains_to = self.balances.contains(request.to_addr.as_str());
        match (from_balance, contains_to) {
            (Some(held), true) => {
                if held >= request.amount {
                    Outcome::Transferred
                } else {
                    Outcome::InsufficientFunds
                }
            },
            (Some(_), false) => Outcome::ReceiverMissing,
            (None, true) => Outcome::SenderMissing,
            (None, false) => Outcome::NeitherExists,
        }
    }

    /// Moves the amount from the sender to the receiver where both are
    /// registered and the sender holds at least the amount; debit and credit
    /// take effect together. Otherwise the ledger stays as it is, and the
    /// reply names what is missing or who is short.
    ///
    /// A balance is kept in 32 bits: the caller sees to it that the
    /// receiver's new balance fits, see [`BitcoinService::checked_send_payment`].
    pub fn send_payment(&mut self, request: PaymentRequest) -> (reply: Reply)
        requires
            credit_fits(
                old(self)@,
                request.from_addr@,
                request.to_addr@,
                request.amount as nat,
            ),
        ensures
            reply.reason == transfer_outcome(
                old(self)@,
                request.from_addr@,
                request.to_addr@,
                request.amount as nat,
            ),
            reply.successful == (reply.reason == Outcome::Transferred),
            reply.message@ == transfer_message(
                reply.reason,
                request.from_addr@,
                request.to_addr@,
                request.amount as nat,
            ),
            final(self)@ == after_transfer(
                old(self)@,
                request.from_addr@,
                request.to_addr@,
                request.amount as nat,
            ),
    {
        let outcome = self.payment_outcome(&request);
        let reply = Reply::to_payment(
            outcome,
            request.from_addr.as_str(),
            request.to_addr.as_str(),
            request.amount,
        );
        if outcome.is_success() {
            let amount = request.amount;
            let from_balance = self.balances.get(request.from_addr.as_str()).unwrap();
            let ghost from = request.from_addr@;
            let ghost to = request.to_addr@;
            self.balances.set_balance(request.from_addr, from_balance - amount);
            proof {
                self.balances.lemma_balances_bounded();
            }
            let to_balance = self.balances.get(request.to_addr.as_str()).unwrap();
            assert(to_balance + amount <= u32::MAX) by {
                if from == to {
                    assert(to_balance == from_balance - amount);
                }
            }
            self.balances.set_balance(request.to_addr, to_balance + amount);
        }
        reply
    }

    /// As [`BitcoinService::send_payment`], for every request: where the
    /// receiver's new balance would not fit, nothing is done and nothing is
    /// returned. Otherwise the reply is that of `send_payment`.
    pub fn checked_send_payment(&mut self, request: PaymentRequest) -> (reply: Option<Reply>)
        ensures
            reply is Some <==> credit_fits(
                old(self)@,
                request.from_addr@,
                request.to_addr@,
                request.amount as nat,
            ),
            final(self)@ == settled(
                old(self)@,
                request.from_addr@,
                request.to_addr@,
                request.amount as nat,
            ),
            reply is Some ==> {
                &&& reply->0.reason == transfer_outcome(
                    old(self)@,
                    request.from_addr@,
                    request.to_addr@,
                    request.amount as nat,
                )
                &&& reply->0.successful == (reply->0.reason == Outcome::Transferred)
                &&& reply->0.message@ == transfer_message(
                    reply->0.reason,
                    request.from_addr@,
                    request.to_addr@,
                    request.amount as nat,
                )
            },
    {
        if self.payment_outcome(&request).is_success() && request.from_addr != request.to_addr {
            let to_balance = self.balances.get(request.to_addr.as_str()).unwrap();
            if to_balance > u32::MAX - request.amount {
                return None;
            }
        }
        Some(self.send_payment(request))
    }

    /// Takes a list of hints and returns the line that shows them to the
    /// operator. Nothing is checked and nothing is kept: the ledger is not
    /// touched.
    pub fn send_hints(&self, request: HintsRequest) -> (line: String)
        ensures
            line@ == hints_line(texts(request.hints@)),
    {
        render_hints(&request.hints)
    }
}

} // verus!
