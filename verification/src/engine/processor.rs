//! The payment engine: applies validated transactions to the accounts and to
//! the record of deposits.

use crate::aggregator::event::LedgerEvent;
use crate::aggregator::metrics::{Aggregator, AggregatorView};
use crate::amount::Amount;
use crate::error::EngineError;
use crate::io::sink::AccountOutput;
use crate::model::account::{AccountView, ClientAccount};
use crate::model::transaction::{
    RawTransaction, TransactionRecord, TransactionState, TransactionType, ValidatedTransaction,
};
use crate::repository::in_memory::{InMemoryAccountRepo, InMemoryTransactionRepo};
use crate::repository::{AccountRepository, TransactionRepository};
use crate::types::{ClientId, TransactionId};
use super::validator::{validated_amount_wf, validation, TransactionValidator};
use vstd::prelude::*;

verus! {

/// What the engine holds: the accounts by client, and the recorded deposits
/// by transaction.
pub struct EngineView {
    pub accounts: Map<u16, AccountView>,
    pub txs: Map<u32, TransactionRecord>,
}

impl EngineView {
    /// The account of `c`, or a new one where `c` has none yet.
    pub open spec fn account_or_new(self, c: u16) -> AccountView {
        if self.accounts.contains_key(c) {
            self.accounts[c]
        } else {
            AccountView::empty()
        }
    }

    /// Whether `c` has an account and it is frozen.
    pub open spec fn is_frozen(self, c: u16) -> bool {
        self.accounts.contains_key(c) && self.accounts[c].locked
    }

    /// The state with `a` as the account of `c`.
    pub open spec fn with_account(self, c: u16, a: AccountView) -> EngineView {
        EngineView { accounts: self.accounts.insert(c, a), ..self }
    }

    /// The state with `r` recorded under `id`.
    pub open spec fn with_record(self, id: u32, r: TransactionRecord) -> EngineView {
        EngineView { txs: self.txs.insert(id, r), ..self }
    }
}

/// A deposit: refused for a transaction id already recorded and for a frozen
/// account; otherwise credits the (possibly new) account and records it.
pub open spec fn deposit_outcome(s: EngineView, client: ClientId, tx: TransactionId, amount: Amount) -> (
    EngineView,
    Result<LedgerEvent, EngineError>,
) {
    if s.txs.contains_key(tx.0) {
        (s, Err(EngineError::DuplicateTransaction { tx_id: tx }))
    } else if s.is_frozen(client.0) {
        (s, Err(EngineError::AccountFrozen { client_id: client, tx_id: tx }))
    } else {
        (
            s.with_account(client.0, s.account_or_new(client.0).deposited(amount)).with_record(
                tx.0,
                TransactionRecord { client, amount, state: TransactionState::Active },
            ),
            Ok(LedgerEvent::Deposited { client, tx, amount }),
        )
    }
}

/// Whether the decimal arithmetic of a deposit stays within range (vacuous
/// where it is refused before any arithmetic).
pub open spec fn deposit_fits(s: EngineView, client: ClientId, tx: TransactionId, amount: Amount) -> bool {
    s.txs.contains_key(tx.0) || s.is_frozen(client.0) || s.account_or_new(client.0).can_deposit(amount)
}

/// A withdrawal: refused for a frozen account; otherwise the account is
/// created if missing, and the amount is taken if enough is available.
/// Withdrawals are not recorded.
pub open spec fn withdrawal_outcome(s: EngineView, client: ClientId, tx: TransactionId, amount: Amount) -> (
    EngineView,
    Result<LedgerEvent, EngineError>,
) {
    if s.is_frozen(client.0) {
        (s, Err(EngineError::AccountFrozen { client_id: client, tx_id: tx }))
    } else {
        let a = s.account_or_new(client.0);
        if a.available.value() < amount.value() {
            (s.with_account(client.0, a), Err(EngineError::InsufficientFunds { client_id: client, tx_id: tx }))
        } else {
            (s.with_account(client.0, a.withdrawn(amount)), Ok(LedgerEvent::Withdrawn { client, tx, amount }))
        }
    }
}

/// Whether the decimal arithmetic of a withdrawal stays within range (vacuous
/// where it is refused before any arithmetic).
pub open spec fn withdrawal_fits(s: EngineView, client: ClientId, tx: TransactionId, amount: Amount) -> bool {
    let a = s.account_or_new(client.0);
    s.is_frozen(client.0) || a.available.value() < amount.value() || a.can_withdraw(amount)
}

/// Why a claim on deposit `tx` by `client` fails before its state is looked
/// at: no such deposit, or a deposit of another client.
pub open spec fn claim_error(s: EngineView, client: ClientId, tx: TransactionId) -> Option<EngineError> {
    if !s.txs.contains_key(tx.0) {
        Some(EngineError::TransactionNotFound { tx_id: tx })
    } else if s.txs[tx.0].client != client {
        Some(EngineError::ClientMismatch { tx_id: tx, expected: s.txs[tx.0].client, actual: client })
    } else {
        None
    }
}

/// A dispute: the deposit must exist, belong to the client and be active;
/// its amount then moves from available to held and it becomes disputed.
pub open spec fn dispute_outcome(s: EngineView, client: ClientId, tx: TransactionId) -> (
    EngineView,
    Result<LedgerEvent, EngineError>,
) {
    match claim_error(s, client, tx) {
        Some(e) => (s, Err(e)),
        None => {
            let rec = s.txs[tx.0];
            match rec.state {
                TransactionState::Disputed => (s, Err(EngineError::TransactionAlreadyDisputed { tx_id: tx })),
                TransactionState::ChargedBack => (s, Err(EngineError::TransactionAlreadyChargedBack { tx_id: tx })),
                TransactionState::Active => (
                    s.with_account(client.0, s.account_or_new(client.0).holding(rec.amount)).with_record(
                        tx.0,
                        TransactionRecord { state: TransactionState::Disputed, ..rec },
                    ),
                    Ok(LedgerEvent::DisputeOpened { client, tx, held_amount: rec.amount }),
                ),
            }
        },
    }
}

/// Whether the decimal arithmetic of a dispute stays within range (vacuous
/// where it is refused before any arithmetic).
pub open spec fn dispute_fits(s: EngineView, client: ClientId, tx: TransactionId) -> bool {
    claim_error(s, client, tx) is Some || s.txs[tx.0].state != TransactionState::Active
        || s.account_or_new(client.0).can_hold(s.txs[tx.0].amount)
}

/// A resolution: the deposit must exist, belong to the client and be
/// disputed; its amount then moves back to available and it becomes active.
pub open spec fn resolve_outcome(s: EngineView, client: ClientId, tx: TransactionId) -> (
    EngineView,
    Result<LedgerEvent, EngineError>,
) {
    match claim_error(s, client, tx) {
        Some(e) => (s, Err(e)),
        None => {
            let rec = s.txs[tx.0];
            if rec.state != TransactionState::Disputed {
                (s, Err(EngineError::TransactionNotDisputed { tx_id: tx }))
            } else {
                (
                    s.with_account(client.0, s.account_or_new(client.0).released(rec.amount)).with_record(
                        tx.0,
                        TransactionRecord { state: TransactionState::Active, ..rec },
                    ),
                    Ok(LedgerEvent::DisputeResolved { client, tx, released_amount: rec.amount }),
                )
            }
        },
    }
}

/// Whether the decimal arithmetic of a resolution stays within range (vacuous
/// where it is refused before any arithmetic).
pub open spec fn resolve_fits(s: EngineView, client: ClientId, tx: TransactionId) -> bool {
    claim_error(s, client, tx) is Some || s.txs[tx.0].state != TransactionState::Disputed
        || s.account_or_new(client.0).can_release(s.txs[tx.0].amount)
}

/// A chargeback: the deposit must exist, belong to the client and be
/// disputed; its amount then leaves the held funds, the account is frozen and
/// the deposit is charged back for good.
pub open spec fn chargeback_outcome(s: EngineView, client: ClientId, tx: TransactionId) -> (
    EngineView,
    Result<LedgerEvent, EngineError>,
) {
    match claim_error(s, client, tx) {
        Some(e) => (s, Err(e)),
        None => {
            let rec = s.txs[tx.0];
            if rec.state != TransactionState::Disputed {
                (s, Err(EngineError::TransactionNotDisputed { tx_id: tx }))
            } else {
                (
                    s.with_account(client.0, s.account_or_new(client.0).charged_back(rec.amount)).with_record(
                        tx.0,
                        TransactionRecord { state: TransactionState::ChargedBack, ..rec },
                    ),
                    Ok(LedgerEvent::ChargedBack { client, tx, reversed_amount: rec.amount }),
                )
            }
        },
    }
}

/// Whether the decimal arithmetic of a chargeback stays within range (vacuous
/// where it is refused before any arithmetic).
pub open spec fn chargeback_fits(s: EngineView, client: ClientId, tx: TransactionId) -> bool {
    claim_error(s, client, tx) is Some || s.txs[tx.0].state != TransactionState::Disputed
        || s.account_or_new(client.0).can_charge_back(s.txs[tx.0].amount)
}

/// What processing a validated transaction of the given kind does.
pub open spec fn outcome(
    s: EngineView,
    kind: TransactionType,
    client: ClientId,
    tx: TransactionId,
    amount: Option<Amount>,
) -> (EngineView, Result<LedgerEvent, EngineError>) {
    match kind {
        TransactionType::Deposit => deposit_outcome(s, client, tx, amount.unwrap()),
        TransactionType::Withdrawal => withdrawal_outcome(s, client, tx, amount.unwrap()),
        TransactionType::Dispute => dispute_outcome(s, client, tx),
        TransactionType::Resolve => resolve_outcome(s, client, tx),
        TransactionType::Chargeback => chargeback_outcome(s, client, tx),
    }
}

/// Whether the decimal arithmetic that processing the transaction does
/// stays within what a decimal can hold.
pub open spec fn arithmetic_fits(
    s: EngineView,
    kind: TransactionType,
    client: ClientId,
    tx: TransactionId,
    amount: Option<Amount>,
) -> bool {
    match kind {
        TransactionType::Deposit => deposit_fits(s, client, tx, amount.unwrap()),
        TransactionType::Withdrawal => withdrawal_fits(s, client, tx, amount.unwrap()),
        TransactionType::Dispute => dispute_fits(s, client, tx),
        TransactionType::Resolve => resolve_fits(s, client, tx),
        TransactionType::Chargeback => chargeback_fits(s, client, tx),
    }
}

/// What handling one input item does to the engine and to the aggregator:
/// an unreadable item is counted as a parse error, an invalid transaction as
/// an error of its category, a processed one as its event or its error.
/// `None` where processing would overflow a decimal.
pub open spec fn record_step(s: EngineView, agg: AggregatorView, item: Result<RawTransaction, EngineError>) -> Option<
    (EngineView, AggregatorView),
> {
    match item {
        Err(e) => Some((s, agg.with_parse_error(e))),
        Ok(raw) => match validation(raw) {
            Err(e) => Some((s, agg.with_error(e))),
            Ok(amount) => if !arithmetic_fits(s, raw.tx_type, raw.client, raw.tx, amount) {
                None
            } else {
                let (s2, res) = outcome(s, raw.tx_type, raw.client, raw.tx, amount);
                Some(
                    (
                        s2,
                        match res {
                            Ok(ev) => agg.with_event(ev),
                            Err(e) => agg.with_error(e),
                        },
                    ),
                )
            },
        },
    }
}

/// Handling `items` in order; `None` where one of them would overflow.
pub open spec fn run(s: EngineView, agg: AggregatorView, items: Seq<Result<RawTransaction, EngineError>>) -> Option<
    (EngineView, AggregatorView),
>
    decreases items.len(),
{
    if items.len() == 0 {
        Some((s, agg))
    } else {
        match run(s, agg, items.drop_last()) {
            None => None,
            Some((s1, a1)) => record_step(s1, a1, items.last()),
        }
    }
}

/// Every amount that validation lets through with one of `items` is a decimal.
pub open spec fn validated_amounts_wf(items: Seq<Result<RawTransaction, EngineError>>) -> bool {
    forall|i: int| 0 <= i < items.len() ==> ((#[trigger] items[i]) matches Ok(raw) ==> validated_amount_wf(raw))
}

/// The number of decimal places of the balances in the output.
pub const OUTPUT_DECIMAL_PLACES: u32 = 4;

/// The total shown for the account `a`: its two balances, each rounded to
/// the output's places, added; `None` where that sum overflows a decimal.
pub open spec fn output_total(a: AccountView) -> Option<Amount> {
    a.available.spec_round_dp(OUTPUT_DECIMAL_PLACES).spec_checked_add(a.held.spec_round_dp(OUTPUT_DECIMAL_PLACES))
}

/// The output line for the account `a` of client `c`.
pub open spec fn output_of(c: u16, a: AccountView) -> AccountOutput {
    AccountOutput {
        client: ClientId(c),
        available: a.available.spec_round_dp(OUTPUT_DECIMAL_PLACES),
        held: a.held.spec_round_dp(OUTPUT_DECIMAL_PLACES),
        total: output_total(a).unwrap(),
        locked: a.locked,
    }
}

/// `outs` holds one line per account, each client once, in any order.
pub open spec fn outputs_of(accounts: Map<u16, AccountView>, outs: Seq<AccountOutput>) -> bool {
    &&& outs.len() == accounts.dom().len()
    &&& forall|i: int|
        0 <= i < outs.len() ==> accounts.contains_key(#[trigger] outs[i].client.0) && outs[i] == output_of(
            outs[i].client.0,
            accounts[outs[i].client.0],
        )
    &&& forall|i: int, j: int| 0 <= i < j < outs.len() ==> outs[i].client != outs[j].client
    &&& forall|c: u16| accounts.contains_key(c) ==> exists|i: int| 0 <= i < outs.len() && #[trigger] outs[i].client.0 == c
    &&& forall|i: int|
        0 <= i < outs.len() && (#[trigger] outs[i]).available.add_is_exact_case(outs[i].held) ==> outs[i].total.value()
            == outs[i].available.value() + outs[i].held.value()
}

/// Every account's shown total is a decimal (adding its rounded balances
/// does not overflow).
pub open spec fn totals_fit(accounts: Map<u16, AccountView>) -> bool {
    forall|c: u16| accounts.contains_key(c) ==> output_total(#[trigger] accounts[c]) is Some
}

/// Applies transactions to the accounts kept in `A`, recording deposits in `T`.
pub struct PaymentEngine<A = InMemoryAccountRepo, T = InMemoryTransactionRepo> {
    accounts: A,
    transactions: T,
    validator: TransactionValidator,
}

impl<A: AccountRepository, T: TransactionRepository> View for PaymentEngine<A, T> {
    type V = EngineView;

    closed spec fn view(&self) -> EngineView {
        EngineView { accounts: self.accounts.account_map(), txs: self.transactions.record_map() }
    }
}

impl PaymentEngine {
    /// A builder for an engine; repositories not given start empty in memory.
    pub fn builder() -> (r: PaymentEngineBuilder)
        ensures
            r@ == (Map::<u16, AccountView>::empty(), Map::<u32, TransactionRecord>::empty()),
    {
        PaymentEngineBuilder::new()
    }
}

impl<A: AccountRepository, T: TransactionRepository> PaymentEngine<A, T> {

    /// Handles one input item: validates it, processes it, and records the
    /// outcome in `aggregator`. Returns `false`, changing nothing, where
    /// processing would overflow a decimal.
    pub fn process_record(
        &mut self,
        line: usize,
        item: Result<RawTransaction, EngineError>,
        aggregator: &mut Aggregator,
    ) -> (r: bool)
        ensures
            final(aggregator)@.wf(),
            r == record_step(old(self)@, old(aggregator)@, item) is Some,
            r ==> record_step(old(self)@, old(aggregator)@, item) == Some((final(self)@, final(aggregator)@)),
            !r ==> final(self)@ == old(self)@ && final(aggregator)@ == old(aggregator)@,
            item matches Ok(raw) ==> validated_amount_wf(raw),
    {
        proof {
            use_type_invariant(&*aggregator);
        }
        match item {
            Ok(raw) => {
                match self.validator.validate(raw) {
                    Ok(validated) => {
                        if !self.fits_arithmetic(&validated) {
                            return false;
                        }
                        match self.process_transaction(&validated) {
                            Ok(event) => aggregator.record_event(event),
                            Err(e) => aggregator.record_error(e),
                        }
                    },
                    Err(e) => aggregator.record_error(e),
                }
            },
            Err(e) => aggregator.record_parse_error(line, e),
        }
        true
    }

    /// Handles `items` in order, recording each outcome in `aggregator`.
    /// Stops before the first item whose processing would overflow a
    /// decimal, and returns its position.
    pub fn process_all(
        &mut self,
        items: Vec<Result<RawTransaction, EngineError>>,
        aggregator: &mut Aggregator,
    ) -> (r: Result<(), usize>)
        ensures
            final(aggregator)@.wf(),
            r is Ok ==> run(old(self)@, old(aggregator)@, items@) == Some((final(self)@, final(aggregator)@)),
            r matches Err(k) ==> k < items@.len(),
            r matches Err(k) ==> run(old(self)@, old(aggregator)@, items@.take(k as int)) == Some(
                (final(self)@, final(aggregator)@),
            ),
            r matches Err(k) ==> record_step(final(self)@, final(aggregator)@, items@[k as int]) is None,
            r is Ok ==> validated_amounts_wf(items@),
    {
        proof {
            use_type_invariant(&*aggregator);
        }
        let ghost s0 = self@;
        let ghost a0 = aggregator@;
        let ghost all = items@;
        let n = items.len();
        let mut line: usize = 0;
        for item in it: items.into_iter()
            invariant
                it.seq() == all,
                all.len() == n,
                s0 == old(self)@,
                a0 == old(aggregator)@,
                all == items@,
                line == it.index(),
                aggregator@.wf(),
                run(s0, a0, all.take(line as int)) == Some((self@, aggregator@)),
                forall|k: int| 0 <= k < line ==> ((#[trigger] all[k]) matches Ok(raw) ==> validated_amount_wf(raw)),
        {
            proof {
                assert(all.take(line + 1).drop_last() =~= all.take(line as int));
                assert(all.take(line + 1).last() == all[line as int]);
            }
            if !self.process_record(line, item, aggregator) {
                return Err(line);
            }
            line = line + 1;
        }
        proof {
            assert(all.take(all.len() as int) =~= all);
        }
        Ok(())
    }

    /// Applies `tx` to the accounts.
    pub fn process_transaction(&mut self, tx: &ValidatedTransaction) -> (r: Result<LedgerEvent, EngineError>)
        requires
            arithmetic_fits(old(self)@, tx.spec_tx_type(), tx.spec_client(), tx.spec_tx_id(), tx.spec_amount()),
        ensures
            (final(self)@, r) == outcome(old(self)@, tx.spec_tx_type(), tx.spec_client(), tx.spec_tx_id(), tx.spec_amount()),
    {
        match tx.tx_type() {
            TransactionType::Deposit => self.process_deposit(tx),
            TransactionType::Withdrawal => self.process_withdrawal(tx),
            TransactionType::Dispute => self.process_dispute(tx),
            TransactionType::Resolve => self.process_resolve(tx),
            TransactionType::Chargeback => self.process_chargeback(tx),
        }
    }

    fn process_deposit(&mut self, tx: &ValidatedTransaction) -> (r: Result<LedgerEvent, EngineError>)
        requires
            tx.spec_tx_type() == TransactionType::Deposit,
            deposit_fits(old(self)@, tx.spec_client(), tx.spec_tx_id(), tx.spec_amount().unwrap()),
        ensures
            (final(self)@, r) == deposit_outcome(old(self)@, tx.spec_client(), tx.spec_tx_id(), tx.spec_amount().unwrap()),
    {
        let client_id = tx.client();
        let tx_id = tx.tx_id();
        let amount = tx.amount().unwrap();

        if self.transactions.contains(&tx_id) {
            return Err(EngineError::DuplicateTransaction { tx_id });
        }

        let frozen = match self.accounts.get(&client_id) {
            Some(a) => a.is_locked(),
            None => false,
        };
        if frozen {
            return Err(EngineError::AccountFrozen { client_id, tx_id });
        }

        let account = self.accounts.get_or_create(client_id);
        account.deposit(amount);

        self.transactions.store(
            tx_id,
            TransactionRecord { client: client_id, amount, state: TransactionState::Active },
        );

        Ok(LedgerEvent::Deposited { client: client_id, tx: tx_id, amount })
    }

    fn process_withdrawal(&mut self, tx: &ValidatedTransaction) -> (r: Result<LedgerEvent, EngineError>)
        requires
            tx.spec_tx_type() == TransactionType::Withdrawal,
            withdrawal_fits(old(self)@, tx.spec_client(), tx.spec_tx_id(), tx.spec_amount().unwrap()),
        ensures
            (final(self)@, r) == withdrawal_outcome(old(self)@, tx.spec_client(), tx.spec_tx_id(), tx.spec_amount().unwrap()),
    {
        let client_id = tx.client();
        let tx_id = tx.tx_id();
        let amount = tx.amount().unwrap();

        let frozen = match self.accounts.get(&client_id) {
            Some(a) => a.is_locked(),
            None => false,
        };
        if frozen {
            return Err(EngineError::AccountFrozen { client_id, tx_id });
        }

        let account = self.accounts.get_or_create(client_id);

        if account.available().lt(&amount) {
            return Err(EngineError::InsufficientFunds { client_id, tx_id });
        }

        account.withdraw(amount);

        Ok(LedgerEvent::Withdrawn { client: client_id, tx: tx_id, amount })
    }

    /// The client, amount and state of the recorded deposit `tx_id`.
    fn claimed_record(&self, tx_id: TransactionId) -> (r: Result<(ClientId, Amount, TransactionState), EngineError>)
        ensures
            match r {
                Ok((c, a, st)) => self@.txs.contains_key(tx_id.0) && self@.txs[tx_id.0] == TransactionRecord {
                    client: c,
                    amount: a,
                    state: st,
                },
                Err(e) => !self@.txs.contains_key(tx_id.0) && e == EngineError::TransactionNotFound { tx_id },
            },
    {
        match self.transactions.get(&tx_id) {
            Some(record) => Ok((record.client, record.amount, record.state)),
            None => Err(EngineError::TransactionNotFound { tx_id }),
        }
    }

    /// Sets the state of the recorded deposit `tx_id`.
    fn set_state(&mut self, tx_id: TransactionId, state: TransactionState)
        requires
            old(self)@.txs.contains_key(tx_id.0),
        ensures
            final(self)@ == old(self)@.with_record(tx_id.0, TransactionRecord { state, ..old(self)@.txs[tx_id.0] }),
    {
        match self.transactions.get_mut(&tx_id) {
            Some(record) => {
                record.state = state;
            },
            None => {},
        }
    }

    fn process_dispute(&mut self, tx: &ValidatedTransaction) -> (r: Result<LedgerEvent, EngineError>)
        requires
            tx.spec_tx_type() == TransactionType::Dispute,
            dispute_fits(old(self)@, tx.spec_client(), tx.spec_tx_id()),
        ensures
            (final(self)@, r) == dispute_outcome(old(self)@, tx.spec_client(), tx.spec_tx_id()),
    {
        let client_id = tx.client();
        let tx_id = tx.tx_id();

        let (record_client, record_amount, record_state) = match self.claimed_record(tx_id) {
            Ok(fields) => fields,
            Err(e) => {
                return Err(e);
            },
        };

        match Self::verify_client_ownership(tx_id, record_client, client_id) {
            Ok(()) => {},
            Err(e) => {
                return Err(e);
            },
        }

        match record_state {
            TransactionState::Active => {},
            TransactionState::Disputed => {
                return Err(EngineError::TransactionAlreadyDisputed { tx_id });
            },
            TransactionState::ChargedBack => {
                return Err(EngineError::TransactionAlreadyChargedBack { tx_id });
            },
        }

        let account = self.accounts.get_or_create(client_id);
        account.hold(record_amount);

        self.set_state(tx_id, TransactionState::Disputed);

        Ok(LedgerEvent::DisputeOpened { client: client_id, tx: tx_id, held_amount: record_amount })
    }

    fn process_resolve(&mut self, tx: &ValidatedTransaction) -> (r: Result<LedgerEvent, EngineError>)
        requires
            tx.spec_tx_type() == TransactionType::Resolve,
            resolve_fits(old(self)@, tx.spec_client(), tx.spec_tx_id()),
        ensures
            (final(self)@, r) == resolve_outcome(old(self)@, tx.spec_client(), tx.spec_tx_id()),
    {
        let client_id = tx.client();
        let tx_id = tx.tx_id();

        let (record_client, record_amount, record_state) = match self.claimed_record(tx_id) {
            Ok(fields) => fields,
            Err(e) => {
                return Err(e);
            },
        };

        match Self::verify_client_ownership(tx_id, record_client, client_id) {
            Ok(()) => {},
            Err(e) => {
                return Err(e);
            },
        }

        if record_state != TransactionState::Disputed {
            return Err(EngineError::TransactionNotDisputed { tx_id });
        }

        let account = self.accounts.get_or_create(client_id);
        account.release(record_amount);

        self.set_state(tx_id, TransactionState::Active);

        Ok(LedgerEvent::DisputeResolved { client: client_id, tx: tx_id, released_amount: record_amount })
    }

    fn process_chargeback(&mut self, tx: &ValidatedTransaction) -> (r: Result<LedgerEvent, EngineError>)
        requires
            tx.spec_tx_type() == TransactionType::Chargeback,
            chargeback_fits(old(self)@, tx.spec_client(), tx.spec_tx_id()),
        ensures
            (final(self)@, r) == chargeback_outcome(old(self)@, tx.spec_client(), tx.spec_tx_id()),
    {
        let client_id = tx.client();
        let tx_id = tx.tx_id();

        let (record_client, record_amount, record_state) = match self.claimed_record(tx_id) {
            Ok(fields) => fields,
            Err(e) => {
                return Err(e);
            },
        };

        match Self::verify_client_ownership(tx_id, record_client, client_id) {
            Ok(()) => {},
            Err(e) => {
                return Err(e);
            },
        }

        if record_state != TransactionState::Disputed {
            return Err(EngineError::TransactionNotDisputed { tx_id });
        }

        let account = self.accounts.get_or_create(client_id);
        account.chargeback(record_amount);

        self.set_state(tx_id, TransactionState::ChargedBack);

        Ok(LedgerEvent::ChargedBack { client: client_id, tx: tx_id, reversed_amount: record_amount })
    }

    /// One line per account, balances rounded to four places, in no
    /// particular order.
    pub fn account_outputs(&self) -> (r: Vec<AccountOutput>)
        requires
            totals_fit(self@.accounts),
        ensures
            outputs_of(self@.accounts, r@),
    {
        self.try_account_outputs().unwrap()
    }

    /// The lines of `account_outputs`; `None` where some account's total
    /// overflows a decimal.
    pub fn try_account_outputs(&self) -> (r: Option<Vec<AccountOutput>>)
        ensures
            r is Some <==> totals_fit(self@.accounts),
            r matches Some(v) ==> outputs_of(self@.accounts, v@),
    {
        let entries = self.accounts.iter();
        let ghost accounts = self@.accounts;
        let mut out: Vec<AccountOutput> = Vec::new();
        let n = entries.len();
        let mut i: usize = 0;
        while i < n
            invariant
                n == entries@.len(),
                i <= n,
                accounts == self@.accounts,
                out@.len() == i,
                entries@.len() == accounts.dom().len(),
                forall|k: int|
                    0 <= k < entries@.len() ==> accounts.contains_key(#[trigger] entries@[k].0.0)
                        && accounts[entries@[k].0.0] == entries@[k].1@,
                forall|k: int| 0 <= k < i ==> out@[k] == output_of(entries@[k].0.0, #[trigger] entries@[k].1@),
                forall|k: int| 0 <= k < i ==> output_total(#[trigger] entries@[k].1@) is Some,
                forall|k: int|
                    0 <= k < i && (#[trigger] out@[k]).available.add_is_exact_case(out@[k].held) ==> out@[k].total.value()
                        == out@[k].available.value() + out@[k].held.value(),
                forall|c: u16| accounts.contains_key(c) ==> exists|k: int| 0 <= k < entries@.len() && #[trigger] entries@[k].0.0 == c,
                forall|a: int, b: int| 0 <= a < b < entries@.len() ==> entries@[a].0 != entries@[b].0,
            decreases n - i,
        {
            let (client, account) = entries[i];
            let available = account.available().round_dp(OUTPUT_DECIMAL_PLACES);
            let held = account.held().round_dp(OUTPUT_DECIMAL_PLACES);
            let total = match available.checked_add(&held) {
                Some(t) => t,
                None => {
                    assert(accounts.contains_key(entries@[i as int].0.0));
                    return None;
                },
            };
            proof {
                if available.add_is_exact_case(held) {
                    available.lemma_add_exact(held);
                }
            }
            out.push(AccountOutput { client, available, held, total, locked: account.is_locked() });
            i = i + 1;
        }
        proof {
            assert forall|c: u16| accounts.contains_key(c) implies output_total(#[trigger] accounts[c]) is Some by {
                let k = choose|k: int| 0 <= k < entries@.len() && #[trigger] entries@[k].0.0 == c;
                assert(output_total(entries@[k].1@) is Some);
            }
            assert forall|k: int| 0 <= k < out@.len() implies accounts.contains_key(#[trigger] out@[k].client.0)
                && out@[k] == output_of(out@[k].client.0, accounts[out@[k].client.0]) by {
                assert(out@[k] == output_of(entries@[k].0.0, entries@[k].1@));
            }
            assert forall|c: u16| accounts.contains_key(c) implies exists|k: int|
                0 <= k < out@.len() && #[trigger] out@[k].client.0 == c by {
                let k = choose|k: int| 0 <= k < entries@.len() && #[trigger] entries@[k].0.0 == c;
                assert(out@[k] == output_of(entries@[k].0.0, entries@[k].1@));
                assert(out@[k].client.0 == c);
            }
            assert forall|a: int, b: int| 0 <= a < b < out@.len() implies out@[a].client != out@[b].client by {
                assert(out@[a] == output_of(entries@[a].0.0, entries@[a].1@));
                assert(out@[b] == output_of(entries@[b].0.0, entries@[b].1@));
            }
        }
        Some(out)
    }

    /// A copy of the account of `client`, or a new one where there is none.
    fn account_or_new(&self, client: ClientId) -> (r: ClientAccount)
        ensures
            r@ == self@.account_or_new(client.0),
    {
        match self.accounts.get(&client) {
            Some(a) => *a,
            None => ClientAccount::new(),
        }
    }

    /// Whether processing `tx` keeps the decimal arithmetic it does within
    /// what a decimal can hold.
    pub fn fits_arithmetic(&self, tx: &ValidatedTransaction) -> (r: bool)
        ensures
            r == arithmetic_fits(self@, tx.spec_tx_type(), tx.spec_client(), tx.spec_tx_id(), tx.spec_amount()),
    {
        let client_id = tx.client();
        let tx_id = tx.tx_id();
        let kind = tx.tx_type();
        match kind {
            TransactionType::Deposit => {
                let amount = tx.amount().unwrap();
                if self.transactions.contains(&tx_id) {
                    return true;
                }
                let account = self.account_or_new(client_id);
                if self.accounts.get(&client_id).is_some() && account.is_locked() {
                    return true;
                }
                account.available().checked_add(&amount).is_some()
            },
            TransactionType::Withdrawal => {
                let amount = tx.amount().unwrap();
                let account = self.account_or_new(client_id);
                if self.accounts.get(&client_id).is_some() && account.is_locked() {
                    return true;
                }
                if account.available().lt(&amount) {
                    return true;
                }
                account.available().checked_sub(&amount).is_some()
            },
            _ => {
                let (record_client, record_amount, record_state) = match self.claimed_record(tx_id) {
                    Ok(fields) => fields,
                    Err(_) => {
                        return true;
                    },
                };
                if record_client != client_id {
                    return true;
                }
                let account = self.account_or_new(client_id);
                match kind {
                    TransactionType::Dispute => {
                        if record_state != TransactionState::Active {
                            return true;
                        }
                        account.available().checked_sub(&record_amount).is_some()
                            && account.held().checked_add(&record_amount).is_some()
                    },
                    TransactionType::Resolve => {
                        if record_state != TransactionState::Disputed {
                            return true;
                        }
                        account.held().checked_sub(&record_amount).is_some()
                            && account.available().checked_add(&record_amount).is_some()
                    },
                    _ => {
                        if record_state != TransactionState::Disputed {
                            return true;
                        }
                        account.held().checked_sub(&record_amount).is_some()
                    },
                }
            },
        }
    }

    /// A claim on a deposit must come from the client that made it.
    fn verify_client_ownership(tx_id: TransactionId, expected: ClientId, actual: ClientId) -> (r: Result<(), EngineError>)
        ensures
            r == (if expected == actual {
                Ok::<(), EngineError>(())
            } else {
                Err(EngineError::ClientMismatch { tx_id, expected, actual })
            }),
    {
        if expected != actual {
            return Err(EngineError::ClientMismatch { tx_id, expected, actual });
        }
        Ok(())
    }
}

impl Default for PaymentEngine {
    fn default() -> (r: PaymentEngine)
        ensures
            r@.accounts == Map::<u16, AccountView>::empty(),
            r@.txs == Map::<u32, TransactionRecord>::empty(),
    {
        PaymentEngine::builder().build()
    }
}

/// Assembles a payment engine from its repositories; those not given are
/// empty ones kept in memory.
pub struct PaymentEngineBuilder<A = InMemoryAccountRepo, T = InMemoryTransactionRepo> {
    accounts: A,
    transactions: T,
}

impl<A: AccountRepository, T: TransactionRepository> View for PaymentEngineBuilder<A, T> {
    /// The accounts and the recorded deposits the engine will start with.
    type V = (Map<u16, AccountView>, Map<u32, TransactionRecord>);

    closed spec fn view(&self) -> (Map<u16, AccountView>, Map<u32, TransactionRecord>) {
        (self.accounts.account_map(), self.transactions.record_map())
    }
}

impl PaymentEngineBuilder {
    pub fn new() -> (r: PaymentEngineBuilder)
        ensures
            r@ == (Map::<u16, AccountView>::empty(), Map::<u32, TransactionRecord>::empty()),
    {
        PaymentEngineBuilder { accounts: InMemoryAccountRepo::new(), transactions: InMemoryTransactionRepo::new() }
    }
}

impl<A: AccountRepository, T: TransactionRepository> PaymentEngineBuilder<A, T> {
    /// The engine will keep its accounts in `repo`.
    pub fn with_account_repo<R: AccountRepository>(self, repo: R) -> (r: PaymentEngineBuilder<R, T>)
        ensures
            r@ == (repo.account_map(), self@.1),
    {
        PaymentEngineBuilder { accounts: repo, transactions: self.transactions }
    }

    /// The engine will record its deposits in `repo`.
    pub fn with_transaction_repo<R: TransactionRepository>(self, repo: R) -> (r: PaymentEngineBuilder<A, R>)
        ensures
            r@ == (self@.0, repo.record_map()),
    {
        PaymentEngineBuilder { accounts: self.accounts, transactions: repo }
    }

    pub fn build(self) -> (r: PaymentEngine<A, T>)
        ensures
            r@.accounts == self@.0,
            r@.txs == self@.1,
    {
        PaymentEngine { accounts: self.accounts, transactions: self.transactions, validator: TransactionValidator::new() }
    }
}

impl Default for PaymentEngineBuilder {
    fn default() -> (r: PaymentEngineBuilder)
        ensures
            r@ == (Map::<u16, AccountView>::empty(), Map::<u32, TransactionRecord>::empty()),
    {
        PaymentEngineBuilder::new()
    }
}

} // verus!
