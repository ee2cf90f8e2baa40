//! Accounts and transaction records kept in hash maps.

use std::collections::hash_map::Entry;
use std::collections::HashMap;

use crate::model::account::{AccountView, ClientAccount};
use crate::model::transaction::TransactionRecord;
use crate::types::{ClientId, TransactionId};
use super::{AccountRepository, TransactionRepository};
use vstd::prelude::*;
use vstd::std_specs::iter::IteratorSpec;

verus! {

/// The accounts, by client.
pub struct InMemoryAccountRepo {
    accounts: HashMap<u16, ClientAccount>,
}

impl View for InMemoryAccountRepo {
    type V = Map<u16, AccountView>;

    closed spec fn view(&self) -> Map<u16, AccountView> {
        self.accounts@.map_values(|a: ClientAccount| a@)
    }
}

impl InMemoryAccountRepo {
    pub fn new() -> (r: InMemoryAccountRepo)
        ensures
            r@ == Map::<u16, AccountView>::empty(),
    {
        let r = InMemoryAccountRepo { accounts: HashMap::new() };
        assert(r@ =~= Map::<u16, AccountView>::empty());
        r
    }
}

impl AccountRepository for InMemoryAccountRepo {
    open spec fn account_map(&self) -> Map<u16, AccountView> {
        self@
    }

    fn get(&self, id: &ClientId) -> (r: Option<&ClientAccount>)
    {
        self.accounts.get(&id.0)
    }

    fn get_or_create(&mut self, id: ClientId) -> (r: &mut ClientAccount)
    {
        self.accounts.entry(id.0).or_insert(ClientAccount::new())
    }

    fn get_mut(&mut self, id: &ClientId) -> (r: Option<&mut ClientAccount>)
    {
        match self.accounts.entry(id.0) {
            Entry::Occupied(e) => Some(e.into_mut()),
            Entry::Vacant(_) => None,
        }
    }

    fn iter(&self) -> (r: Vec<(ClientId, ClientAccount)>)
    {
        let mut out: Vec<(ClientId, ClientAccount)> = Vec::new();
        let ghost pairs = vstd::std_specs::hash::spec_hash_map_iter(&self.accounts).remaining();
        for item in it: self.accounts.iter()
            invariant
                it.seq() == pairs,
                out@.len() == it.index(),
                forall|i: int| 0 <= i < it.index() ==> out@[i].0.0 == *pairs[i].0 && out@[i].1 == *pairs[i].1,
        {
            let (k, v) = item;
            out.push((ClientId(*k), *v));
        }
        proof {
            broadcast use vstd::std_specs::hash::axiom_spec_hash_map_iter;

            let m = self.accounts@;
            assert(self.account_map().dom() =~= m.dom());
            assert(pairs.len() == m.dom().len());
            assert forall|i: int| 0 <= i < out@.len() implies self.account_map().contains_key(
                #[trigger] out@[i].0.0,
            ) && self.account_map()[out@[i].0.0] == out@[i].1@ by {
                assert(m.contains_key(*pairs[i].0) && m[*pairs[i].0] == *pairs[i].1);
            }
            assert forall|i: int, j: int| 0 <= i < j < out@.len() implies out@[i].0 != out@[j].0 by {
                assert(m.contains_key(*pairs[i].0) && m[*pairs[i].0] == *pairs[i].1);
                assert(m.contains_key(*pairs[j].0) && m[*pairs[j].0] == *pairs[j].1);
                if out@[i].0 == out@[j].0 {
                    assert(pairs[i] == pairs[j]);
                }
            }
            assert forall|k: u16| self.account_map().contains_key(k) implies exists|i: int|
                0 <= i < out@.len() && #[trigger] out@[i].0.0 == k by {
                assert(m.contains_key(k));
                assert(pairs.contains((&k, &m[k])));
                let i = choose|i: int| 0 <= i < pairs.len() && pairs[i] == (&k, &m[k]);
                assert(out@[i].0.0 == k);
            }
        }
        out
    }
}

impl Default for InMemoryAccountRepo {
    fn default() -> (r: InMemoryAccountRepo)
        ensures
            r@ == Map::<u16, AccountView>::empty(),
    {
        InMemoryAccountRepo::new()
    }
}

/// The recorded deposits, by transaction.
pub struct InMemoryTransactionRepo {
    transactions: HashMap<u32, TransactionRecord>,
}

impl View for InMemoryTransactionRepo {
    type V = Map<u32, TransactionRecord>;

    closed spec fn view(&self) -> Map<u32, TransactionRecord> {
        self.transactions@
    }
}

impl InMemoryTransactionRepo {
    pub fn new() -> (r: InMemoryTransactionRepo)
        ensures
            r@ == Map::<u32, TransactionRecord>::empty(),
    {
        InMemoryTransactionRepo { transactions: HashMap::new() }
    }
}

impl TransactionRepository for InMemoryTransactionRepo {
    open spec fn record_map(&self) -> Map<u32, TransactionRecord> {
        self@
    }

    fn store(&mut self, id: TransactionId, record: TransactionRecord)
    {
        self.transactions.insert(id.0, record);
    }

    fn get(&self, id: &TransactionId) -> (r: Option<&TransactionRecord>)
    {
        self.transactions.get(&id.0)
    }

    fn get_mut(&mut self, id: &TransactionId) -> (r: Option<&mut TransactionRecord>)
    {
        match self.transactions.entry(id.0) {
            Entry::Occupied(e) => Some(e.into_mut()),
            Entry::Vacant(_) => None,
        }
    }

    fn contains(&self, id: &TransactionId) -> (r: bool)
    {
        self.transactions.contains_key(&id.0)
    }
}

impl Default for InMemoryTransactionRepo {
    fn default() -> (r: InMemoryTransactionRepo)
        ensures
            r@ == Map::<u32, TransactionRecord>::empty(),
    {
        InMemoryTransactionRepo::new()
    }
}

} // verus!
