//! Identifiers of clients and of transactions.

use vstd::prelude::*;

verus! {

/// The identifier of a client (and of the client's account).
#[derive(Clone, Copy, Debug, PartialEq, Eq, Hash, Structural)]
pub struct ClientId(pub u16);

impl ClientId {
    pub fn new(id: u16) -> (r: ClientId)
        ensures
            r.0 == id,
    {
        ClientId(id)
    }
}

/// The identifier of a transaction.
#[derive(Clone, Copy, Debug, PartialEq, Eq, Hash, Structural)]
pub struct TransactionId(pub u32);

impl TransactionId {
    pub fn new(id: u32) -> (r: TransactionId)
        ensures
            r.0 == id,
    {
        TransactionId(id)
    }
}

} // verus!
