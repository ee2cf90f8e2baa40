//! Why a transaction, or a line of input, was rejected.

use crate::types::{ClientId, TransactionId};
use vstd::prelude::*;

verus! {

/// `std::io::Error`, carried through unread.
#[verifier::external_type_specification]
#[verifier::external_body]
pub struct ExIoError(std::io::Error);

/// `csv::Error`, carried through unread.
#[verifier::external_type_specification]
#[verifier::external_body]
pub struct ExCsvError(csv::Error);

/// What went wrong.
#[derive(Debug)]
pub enum EngineError {
    Io(std::io::Error),
    Csv(csv::Error),
    InsufficientFunds { client_id: ClientId, tx_id: TransactionId },
    AccountFrozen { client_id: ClientId, tx_id: TransactionId },
    TransactionNotFound { tx_id: TransactionId },
    TransactionNotDisputed { tx_id: TransactionId },
    TransactionAlreadyDisputed { tx_id: TransactionId },
    TransactionAlreadyChargedBack { tx_id: TransactionId },
    ClientMismatch { tx_id: TransactionId, expected: ClientId, actual: ClientId },
    DuplicateTransaction { tx_id: TransactionId },
    InvalidAmount { tx_id: TransactionId },
    MissingAmount { tx_id: TransactionId },
    Parse { line: usize, message: String },
}

} // verus!
