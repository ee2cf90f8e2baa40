//! What a successful transaction did.

use crate::amount::Amount;
use crate::model::transaction::TransactionType;
use crate::types::{ClientId, TransactionId};
use vstd::prelude::*;

verus! {

/// The effect of a transaction that went through.
#[derive(Clone, Copy, Debug)]
pub enum LedgerEvent {
    Deposited { client: ClientId, tx: TransactionId, amount: Amount },
    Withdrawn { client: ClientId, tx: TransactionId, amount: Amount },
    DisputeOpened { client: ClientId, tx: TransactionId, held_amount: Amount },
    DisputeResolved { client: ClientId, tx: TransactionId, released_amount: Amount },
    ChargedBack { client: ClientId, tx: TransactionId, reversed_amount: Amount },
}

impl LedgerEvent {
    /// The kind of transaction that had this effect.
    pub open spec fn kind(self) -> TransactionType {
        match self {
            LedgerEvent::Deposited { .. } => TransactionType::Deposit,
            LedgerEvent::Withdrawn { .. } => TransactionType::Withdrawal,
            LedgerEvent::DisputeOpened { .. } => TransactionType::Dispute,
            LedgerEvent::DisputeResolved { .. } => TransactionType::Resolve,
            LedgerEvent::ChargedBack { .. } => TransactionType::Chargeback,
        }
    }
}

} // verus!
