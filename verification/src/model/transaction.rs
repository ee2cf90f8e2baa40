//! Transactions as they arrive, as they are once validated, and as they are
//! recorded.

use crate::amount::Amount;
use crate::types::{ClientId, TransactionId};
use vstd::prelude::*;

verus! {

/// The kind of a transaction.
#[derive(Clone, Copy, Debug, PartialEq, Eq, Hash, Structural)]
pub enum TransactionType {
    Deposit,
    Withdrawal,
    Dispute,
    Resolve,
    Chargeback,
}

impl TransactionType {
    /// Deposits and withdrawals move an amount; the others refer to an
    /// earlier deposit and carry none.
    pub open spec fn carries_amount(self) -> bool {
        self is Deposit || self is Withdrawal
    }

    /// The name of the kind as it is written in the input.
    pub open spec fn label(self) -> Seq<char> {
        match self {
            TransactionType::Deposit => "deposit"@,
            TransactionType::Withdrawal => "withdrawal"@,
            TransactionType::Dispute => "dispute"@,
            TransactionType::Resolve => "resolve"@,
            TransactionType::Chargeback => "chargeback"@,
        }
    }

    /// The position of the kind in the order of declaration.
    pub open spec fn index(self) -> int {
        match self {
            TransactionType::Deposit => 0,
            TransactionType::Withdrawal => 1,
            TransactionType::Dispute => 2,
            TransactionType::Resolve => 3,
            TransactionType::Chargeback => 4,
        }
    }

    /// The position of the kind in the order of declaration.
    pub fn position(&self) -> (r: usize)
        ensures
            r == self.index(),
    {
        match self {
            TransactionType::Deposit => 0,
            TransactionType::Withdrawal => 1,
            TransactionType::Dispute => 2,
            TransactionType::Resolve => 3,
            TransactionType::Chargeback => 4,
        }
    }

    /// The name of the kind as it is written in the input.
    pub fn as_str(&self) -> (r: &'static str)
        ensures
            r@ == self.label(),
    {
        match self {
            TransactionType::Deposit => "deposit",
            TransactionType::Withdrawal => "withdrawal",
            TransactionType::Dispute => "dispute",
            TransactionType::Resolve => "resolve",
            TransactionType::Chargeback => "chargeback",
        }
    }
}

/// A transaction as read from the input, not yet checked.
#[derive(Debug)]
pub struct RawTransaction {
    pub tx_type: TransactionType,
    pub client: ClientId,
    pub tx: TransactionId,
    pub amount: Option<Amount>,
}

/// A transaction that passed validation: deposits and withdrawals carry a
/// positive amount, the other kinds carry none.
#[derive(Debug)]
pub struct ValidatedTransaction {
    tx_type: TransactionType,
    client: ClientId,
    tx: TransactionId,
    amount: Option<Amount>,
}

/// Whether a kind and an amount go together in a validated transaction.
pub open spec fn amount_fits_kind(tx_type: TransactionType, amount: Option<Amount>) -> bool {
    match amount {
        Some(a) => tx_type.carries_amount() && a.wf() && a.value() > 0,
        None => !tx_type.carries_amount(),
    }
}

impl ValidatedTransaction {
    #[verifier::type_invariant]
    spec fn consistent(self) -> bool {
        amount_fits_kind(self.tx_type, self.amount)
    }

    pub closed spec fn spec_tx_type(self) -> TransactionType {
        self.tx_type
    }

    pub closed spec fn spec_client(self) -> ClientId {
        self.client
    }

    pub closed spec fn spec_tx_id(self) -> TransactionId {
        self.tx
    }

    pub closed spec fn spec_amount(self) -> Option<Amount> {
        self.amount
    }

    pub(crate) fn new(
        tx_type: TransactionType,
        client: ClientId,
        tx: TransactionId,
        amount: Option<Amount>,
    ) -> (r: ValidatedTransaction)
        requires
            amount_fits_kind(tx_type, amount),
        ensures
            r.spec_tx_type() == tx_type,
            r.spec_client() == client,
            r.spec_tx_id() == tx,
            r.spec_amount() == amount,
    {
        ValidatedTransaction { tx_type, client, tx, amount }
    }

    pub fn tx_type(&self) -> (r: TransactionType)
        ensures
            r == self.spec_tx_type(),
            amount_fits_kind(r, self.spec_amount()),
    {
        proof {
            use_type_invariant(self);
        }
        self.tx_type
    }

    pub fn client(&self) -> (r: ClientId)
        ensures
            r == self.spec_client(),
    {
        self.client
    }

    pub fn tx_id(&self) -> (r: TransactionId)
        ensures
            r == self.spec_tx_id(),
    {
        self.tx
    }

    pub fn amount(&self) -> (r: Option<Amount>)
        ensures
            r == self.spec_amount(),
            amount_fits_kind(self.spec_tx_type(), r),
    {
        proof {
            use_type_invariant(self);
        }
        self.amount
    }
}

/// Where a recorded deposit stands in the dispute process.
#[derive(Clone, Copy, Debug, PartialEq, Eq, Structural)]
pub enum TransactionState {
    Active,
    Disputed,
    ChargedBack,
}

/// A deposit as the engine keeps it.
#[derive(Clone, Copy, Debug)]
pub struct TransactionRecord {
    pub client: ClientId,
    pub amount: Amount,
    pub state: TransactionState,
}

} // verus!
