//! Where accounts and transaction records are kept.

pub mod in_memory;

use crate::model::account::{AccountView, ClientAccount};
use crate::model::transaction::TransactionRecord;
use crate::types::{ClientId, TransactionId};
use vstd::prelude::*;

verus! {

/// A store of accounts, by client.
pub trait AccountRepository {
    /// The accounts held, by client.
    spec fn account_map(&self) -> Map<u16, AccountView>;

    /// The account of `id`, if there is one.
    fn get(&self, id: &ClientId) -> (r: Option<&ClientAccount>)
        ensures
            match r {
                Some(a) => self.account_map().contains_key(id.0) && self.account_map()[id.0] == a@,
                None => !self.account_map().contains_key(id.0),
            },
    ;

    /// The account of `id` to change in place, if there is one.
    fn get_mut(&mut self, id: &ClientId) -> (r: Option<&mut ClientAccount>)
        ensures
            match r {
                Some(a) => {
                    &&& old(self).account_map().contains_key(id.0)
                    &&& (*a)@ == old(self).account_map()[id.0]
                    &&& final(self).account_map() == old(self).account_map().insert(id.0, (*final(a))@)
                },
                None => !old(self).account_map().contains_key(id.0) && final(self).account_map()
                    == old(self).account_map(),
            },
    ;

    /// The account of `id`, created empty if there is none.
    fn get_or_create(&mut self, id: ClientId) -> (r: &mut ClientAccount)
        ensures
            (*r)@ == (if old(self).account_map().contains_key(id.0) {
                old(self).account_map()[id.0]
            } else {
                AccountView::empty()
            }),
            final(self).account_map() == old(self).account_map().insert(id.0, (*final(r))@),
    ;

    /// Every account with its client, each client once, in no particular order.
    fn iter(&self) -> (r: Vec<(ClientId, ClientAccount)>)
        ensures
            r@.len() == self.account_map().dom().len(),
            forall|i: int|
                0 <= i < r@.len() ==> self.account_map().contains_key(#[trigger] r@[i].0.0)
                    && self.account_map()[r@[i].0.0] == r@[i].1@,
            forall|i: int, j: int| 0 <= i < j < r@.len() ==> r@[i].0 != r@[j].0,
            forall|k: u16|
                self.account_map().contains_key(k) ==> exists|i: int|
                    0 <= i < r@.len() && #[trigger] r@[i].0.0 == k,
    ;
}

/// A store of recorded deposits, by transaction.
pub trait TransactionRepository {
    /// The records held, by transaction.
    spec fn record_map(&self) -> Map<u32, TransactionRecord>;

    /// Records `record` under `id`, replacing any record there was.
    fn store(&mut self, id: TransactionId, record: TransactionRecord)
        ensures
            final(self).record_map() == old(self).record_map().insert(id.0, record),
    ;

    /// The record of `id`, if there is one.
    fn get(&self, id: &TransactionId) -> (r: Option<&TransactionRecord>)
        ensures
            match r {
                Some(t) => self.record_map().contains_key(id.0) && self.record_map()[id.0] == *t,
                None => !self.record_map().contains_key(id.0),
            },
    ;

    /// The record of `id` to change in place, if there is one.
    fn get_mut(&mut self, id: &TransactionId) -> (r: Option<&mut TransactionRecord>)
        ensures
            match r {
                Some(t) => {
                    &&& old(self).record_map().contains_key(id.0)
                    &&& *t == old(self).record_map()[id.0]
                    &&& final(self).record_map() == old(self).record_map().insert(id.0, *final(t))
                },
                None => !old(self).record_map().contains_key(id.0) && final(self).record_map()
                    == old(self).record_map(),
            },
    ;

    /// Whether a record of `id` is kept.
    fn contains(&self, id: &TransactionId) -> (r: bool)
        ensures
            r == self.record_map().contains_key(id.0),
    ;
}

} // verus!
