//! The account registry: one balance per address.
//!
//! A registry is read as the map from each registered address to its
//! balance. Every operation on it is stated over that map.

use crate::rules::opening_balance;
use vstd::hash_map::StringHashMap;
use vstd::prelude::*;

verus! {

/// Why an account could not be created.
#[derive(Debug, Clone, Copy, PartialEq, Eq, Structural)]
pub enum RegistryError {
    /// The address is already registered.
    AlreadyExists,
}

/// The authoritative mapping from address to balance.
///
/// An address is either absent or present with exactly one balance; no
/// account is ever removed.
pub struct AccountRegistry {
    accounts: StringHashMap<u32>,
}

impl View for AccountRegistry {
    type V = Map<Seq<char>, nat>;

    /// The balance of every registered address.
    closed spec fn view(&self) -> Map<Seq<char>, nat> {
        Map::new(
            |addr: Seq<char>| self.accounts@.contains_key(addr),
            |addr: Seq<char>| self.accounts@[addr] as nat,
        )
    }
}

impl AccountRegistry {
    #[verifier::type_invariant]
    spec fn finitely_many(&self) -> bool {
        self.accounts@.dom().finite()
    }

    /// A registry with no account.
    pub fn new() -> (registry: Self)
        ensures
            registry@ == Map::<Seq<char>, nat>::empty(),
    {
        let registry = AccountRegistry { accounts: StringHashMap::new() };
        assert(registry@ =~= Map::<Seq<char>, nat>::empty());
        registry
    }

    /// The number of registered accounts.
    pub fn len(&self) -> (count: usize)
        ensures
            self@.dom().finite(),
            count == self@.dom().len(),
    {
        proof {
            use_type_invariant(self);
            assert(self@.dom() =~= self.accounts@.dom());
        }
        self.accounts.len()
    }

    /// Whether `address` is registered.
    pub fn contains(&self, address: &str) -> (found: bool)
        ensures
            found == self@.contains_key(address@),
    {
        self.accounts.contains_key(address)
    }

    /// The balance of `address`, if it is registered.
    pub fn get(&self, address: &str) -> (balance: Option<u32>)
        ensures
            balance is Some <==> self@.contains_key(address@),
            balance is Some ==> balance->0 == self@[address@],
    {
        match self.accounts.get(address) {
            Some(b) => Some(*b),
            None => None,
        }
    }

    /// Registers `address` with `initial_balance`, or with nothing where none
    /// is given, unless it is registered already; then the registry stays as
    /// it is.
    pub fn create(&mut self, address: String, initial_balance: Option<u32>) -> (created: Result<
        (),
        RegistryError,
    >)
        ensures
            created is Ok <==> !old(self)@.contains_key(address@),
            created is Err ==> created->Err_0 == RegistryError::AlreadyExists,
            created is Ok ==> final(self)@ == old(self)@.insert(
                address@,
                opening_balance(initial_balance),
            ),
            created is Err ==> final(self)@ == old(self)@,
    {
        if self.accounts.contains_key(address.as_str()) {
            Err(RegistryError::AlreadyExists)
        } else {
            let balance = match initial_balance {
                Some(amount) => amount,
                None => 0,
            };
            self.store(address, balance);
            Ok(())
        }
    }

    /// Replaces the balance of a registered `address`.
    pub fn set_balance(&mut self, address: String, new_balance: u32)
        requires
            old(self)@.contains_key(address@),
        ensures
            final(self)@ == old(self)@.insert(address@, new_balance as nat),
    {
        self.store(address, new_balance);
    }

    /// Writes one entry, new or not. The table is taken out of the registry
    /// for the write and put back after it, so that the registry is whole at
    /// every step.
    fn store(&mut self, address: String, balance: u32)
        ensures
            final(self)@ == old(self)@.insert(address@, balance as nat),
    {
        proof {
            use_type_invariant(&*self);
        }
        let mut table = StringHashMap::new();
        std::mem::swap(&mut self.accounts, &mut table);
        table.insert(address, balance);
        std::mem::swap(&mut self.accounts, &mut table);
        assert(self@ =~= old(self)@.insert(address@, balance as nat));
    }

    /// Every balance fits the width that balances are kept in.
    pub proof fn lemma_balances_bounded(&self)
        ensures
            forall|addr: Seq<char>| #[trigger]
                self@.contains_key(addr) ==> self@[addr] <= u32::MAX,
    {
    }
}

} // verus!
