//! Checks a raw transaction before it is processed.

use crate::amount::Amount;
use crate::error::EngineError;
use crate::model::transaction::{RawTransaction, TransactionType, ValidatedTransaction};
use vstd::prelude::*;

verus! {

/// Checks raw transactions.
pub struct TransactionValidator;

/// What validating `raw` gives: deposits and withdrawals need a positive
/// amount; the other kinds drop whatever amount they came with.
pub open spec fn validation(raw: RawTransaction) -> Result<Option<Amount>, EngineError> {
    if raw.tx_type.carries_amount() {
        match raw.amount {
            None => Err(EngineError::MissingAmount { tx_id: raw.tx }),
            Some(a) => if a.value() <= 0 {
                Err(EngineError::InvalidAmount { tx_id: raw.tx })
            } else {
                Ok(Some(a))
            },
        }
    } else {
        Ok(None)
    }
}

/// The amount that validating `raw` lets through, if any, is a decimal.
pub open spec fn validated_amount_wf(raw: RawTransaction) -> bool {
    validation(raw) matches Ok(Some(a)) ==> a.wf()
}

impl TransactionValidator {
    pub fn new() -> (r: TransactionValidator) {
        TransactionValidator
    }

    /// Checks `raw`; the validated transaction keeps its kind, client and
    /// transaction id.
    pub fn validate(&self, raw: RawTransaction) -> (r: Result<ValidatedTransaction, EngineError>)
        ensures
            match validation(raw) {
                Ok(amount) => r matches Ok(v) && v.spec_tx_type() == raw.tx_type && v.spec_client()
                    == raw.client && v.spec_tx_id() == raw.tx && v.spec_amount() == amount,
                Err(e) => r == Err::<ValidatedTransaction, EngineError>(e),
            },
            validated_amount_wf(raw),
    {
        match raw.tx_type {
            TransactionType::Deposit | TransactionType::Withdrawal => {
                let amount = match raw.amount {
                    Some(a) => a,
                    None => {
                        return Err(EngineError::MissingAmount { tx_id: raw.tx });
                    },
                };
                if amount.le(&Amount::zero()) {
                    return Err(EngineError::InvalidAmount { tx_id: raw.tx });
                }
                Ok(ValidatedTransaction::new(raw.tx_type, raw.client, raw.tx, Some(amount)))
            },
            TransactionType::Dispute | TransactionType::Resolve | TransactionType::Chargeback => {
                Ok(ValidatedTransaction::new(raw.tx_type, raw.client, raw.tx, None))
            },
        }
    }
}

impl Default for TransactionValidator {
    fn default() -> (r: TransactionValidator) {
        TransactionValidator::new()
    }
}

} // verus!
