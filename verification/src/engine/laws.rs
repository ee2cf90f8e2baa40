//! Properties of the engine that hold of every transaction, or of several
//! in a row.

use crate::aggregator::event::LedgerEvent;
use crate::aggregator::metrics::AggregatorView;
use crate::amount::Amount;
use crate::error::EngineError;
use crate::model::account::AccountView;
use crate::model::transaction::{RawTransaction, TransactionRecord, TransactionState, TransactionType};
use crate::types::{ClientId, TransactionId};
use super::processor::{
    totals_fit, chargeback_outcome, deposit_outcome, dispute_outcome, outcome, outputs_of, record_step,
    resolve_fits, resolve_outcome, run, validated_amounts_wf, withdrawal_outcome, EngineView,
};
use crate::io::sink::AccountOutput;
use super::validator::{validated_amount_wf, validation};
use vstd::prelude::*;

verus! {

/// Every balance of every account, and every recorded amount, is a decimal.
pub open spec fn amounts_wf(s: EngineView) -> bool {
    &&& forall|c: u16| s.accounts.contains_key(c) ==> (#[trigger] s.accounts[c]).wf()
    &&& forall|id: u32| s.txs.contains_key(id) ==> (#[trigger] s.txs[id]).amount.wf()
}

/// Every recorded deposit belongs to a client that has an account.
pub open spec fn records_have_accounts(s: EngineView) -> bool {
    forall|id: u32| s.txs.contains_key(id) ==> s.accounts.contains_key((#[trigger] s.txs[id]).client.0)
}

/// A refused transaction changes nothing, except that a withdrawal by a
/// client without an account leaves that client with an empty one.
pub proof fn lemma_refusal_changes_nothing(
    s: EngineView,
    kind: TransactionType,
    client: ClientId,
    tx: TransactionId,
    amount: Option<Amount>,
)
    requires
        outcome(s, kind, client, tx, amount).1 is Err,
    ensures
        ({
            let t = outcome(s, kind, client, tx, amount).0;
            if kind == TransactionType::Withdrawal && !s.accounts.contains_key(client.0) {
                t == s.with_account(client.0, AccountView::empty())
            } else {
                t == s
            }
        }),
{
    if kind == TransactionType::Withdrawal && s.accounts.contains_key(client.0) {
        assert(s.accounts.insert(client.0, s.accounts[client.0]) =~= s.accounts);
    }
}

/// A transaction touches no account but its client's.
pub proof fn lemma_other_accounts_untouched(
    s: EngineView,
    kind: TransactionType,
    client: ClientId,
    tx: TransactionId,
    amount: Option<Amount>,
    other: u16,
)
    requires
        other != client.0,
    ensures
        ({
            let t = outcome(s, kind, client, tx, amount).0;
            &&& t.accounts.contains_key(other) == s.accounts.contains_key(other)
            &&& s.accounts.contains_key(other) ==> t.accounts[other] == s.accounts[other]
        }),
{
}

/// No account is ever removed.
pub proof fn lemma_accounts_persist(
    s: EngineView,
    kind: TransactionType,
    client: ClientId,
    tx: TransactionId,
    amount: Option<Amount>,
    c: u16,
)
    requires
        s.accounts.contains_key(c),
    ensures
        outcome(s, kind, client, tx, amount).0.accounts.contains_key(c),
{
}

/// A frozen account stays frozen, and refuses deposits and withdrawals
/// (a deposit under an id already recorded is refused as a duplicate first).
pub proof fn lemma_frozen_stays_frozen(
    s: EngineView,
    kind: TransactionType,
    client: ClientId,
    tx: TransactionId,
    amount: Option<Amount>,
    c: u16,
)
    requires
        s.is_frozen(c),
    ensures
        outcome(s, kind, client, tx, amount).0.is_frozen(c),
        client.0 == c && (kind == TransactionType::Deposit || kind == TransactionType::Withdrawal) ==> {
            &&& outcome(s, kind, client, tx, amount).0 == s
            &&& outcome(s, kind, client, tx, amount).1 == if kind == TransactionType::Deposit
                && s.txs.contains_key(tx.0) {
                Err::<LedgerEvent, EngineError>(EngineError::DuplicateTransaction { tx_id: tx })
            } else {
                Err(EngineError::AccountFrozen { client_id: client, tx_id: tx })
            }
        },
{
}

/// A recorded deposit stays recorded with its client and amount, and a
/// deposit charged back stays charged back.
pub proof fn lemma_records_persist(
    s: EngineView,
    kind: TransactionType,
    client: ClientId,
    tx: TransactionId,
    amount: Option<Amount>,
    id: u32,
)
    requires
        s.txs.contains_key(id),
    ensures
        ({
            let t = outcome(s, kind, client, tx, amount).0;
            &&& t.txs.contains_key(id)
            &&& t.txs[id].client == s.txs[id].client
            &&& t.txs[id].amount == s.txs[id].amount
            &&& s.txs[id].state == TransactionState::ChargedBack ==> t.txs[id].state
                == TransactionState::ChargedBack
        }),
{
}

/// A deposit charged back is done with: no claim on it goes through again.
pub proof fn lemma_charged_back_is_final(s: EngineView, kind: TransactionType, client: ClientId, tx: TransactionId)
    requires
        s.txs.contains_key(tx.0),
        s.txs[tx.0].state == TransactionState::ChargedBack,
        kind != TransactionType::Deposit,
        kind != TransactionType::Withdrawal,
    ensures
        outcome(s, kind, client, tx, None).1 is Err,
        outcome(s, kind, client, tx, None).0 == s,
{
}

/// Only a successful deposit records a transaction, under a new id; a
/// deposit under an id already recorded is refused as a duplicate.
pub proof fn lemma_ids_are_unique(
    s: EngineView,
    kind: TransactionType,
    client: ClientId,
    tx: TransactionId,
    amount: Option<Amount>,
)
    ensures
        ({
            let (t, r) = outcome(s, kind, client, tx, amount);
            &&& kind == TransactionType::Deposit && s.txs.contains_key(tx.0) ==> r == Err::<
                LedgerEvent,
                EngineError,
            >(EngineError::DuplicateTransaction { tx_id: tx })
            &&& t.txs.dom() == if kind == TransactionType::Deposit && r is Ok {
                s.txs.dom().insert(tx.0)
            } else {
                s.txs.dom()
            }
            &&& kind == TransactionType::Deposit && r is Ok ==> !s.txs.contains_key(tx.0)
        }),
{
    let (t, r) = outcome(s, kind, client, tx, amount);
    if kind == TransactionType::Deposit && r is Ok {
        assert(t.txs.dom() =~= s.txs.dom().insert(tx.0));
    } else if r is Ok {
        assert(t.txs.dom() =~= s.txs.dom());
    }
}

/// Every recorded deposit keeps belonging to a client with an account; so
/// claims on recorded deposits never create accounts.
pub proof fn lemma_records_keep_accounts(
    s: EngineView,
    kind: TransactionType,
    client: ClientId,
    tx: TransactionId,
    amount: Option<Amount>,
)
    requires
        records_have_accounts(s),
    ensures
        records_have_accounts(outcome(s, kind, client, tx, amount).0),
        kind != TransactionType::Deposit && kind != TransactionType::Withdrawal ==> outcome(
            s,
            kind,
            client,
            tx,
            amount,
        ).0.accounts.dom() == s.accounts.dom(),
{
    let t = outcome(s, kind, client, tx, amount).0;
    if kind != TransactionType::Deposit && kind != TransactionType::Withdrawal {
        assert(t.accounts.dom() =~= s.accounts.dom());
    }
}

/// A withdrawal goes through only where the funds available cover it, and
/// then takes exactly its amount where the subtraction is exact.
pub proof fn lemma_withdrawal_needs_funds(s: EngineView, client: ClientId, tx: TransactionId, amount: Amount)
    requires
        withdrawal_outcome(s, client, tx, amount).1 is Ok,
        s.account_or_new(client.0).wf(),
        amount.wf(),
        s.account_or_new(client.0).available.sub_is_exact_case(amount),
    ensures
        s.account_or_new(client.0).available.value() >= amount.value(),
        withdrawal_outcome(s, client, tx, amount).0.accounts[client.0].available.value() == s.account_or_new(
            client.0,
        ).available.value() - amount.value(),
        withdrawal_outcome(s, client, tx, amount).0.accounts[client.0].available.value() >= 0,
{
    s.account_or_new(client.0).available.lemma_sub_exact(amount);
}

/// A deposit credits exactly its amount where the addition is exact.
pub proof fn lemma_deposit_credits(s: EngineView, client: ClientId, tx: TransactionId, amount: Amount)
    requires
        deposit_outcome(s, client, tx, amount).1 is Ok,
        s.account_or_new(client.0).wf(),
        amount.wf(),
        s.account_or_new(client.0).available.add_is_exact_case(amount),
    ensures
        deposit_outcome(s, client, tx, amount).0.accounts[client.0].available.value() == s.account_or_new(
            client.0,
        ).available.value() + amount.value(),
        deposit_outcome(s, client, tx, amount).0.accounts[client.0].held == s.account_or_new(client.0).held,
{
    s.account_or_new(client.0).available.lemma_add_exact(amount);
}

/// A dispute moves the deposit's amount from available to held, leaving the
/// total as it was, where the arithmetic is exact.
pub proof fn lemma_dispute_moves_funds(s: EngineView, client: ClientId, tx: TransactionId)
    requires
        dispute_outcome(s, client, tx).1 is Ok,
        s.account_or_new(client.0).wf(),
        s.txs[tx.0].amount.wf(),
        s.account_or_new(client.0).available.sub_is_exact_case(s.txs[tx.0].amount),
        s.account_or_new(client.0).held.add_is_exact_case(s.txs[tx.0].amount),
    ensures
        ({
            let before = s.account_or_new(client.0);
            let after = dispute_outcome(s, client, tx).0.accounts[client.0];
            let x = s.txs[tx.0].amount.value();
            &&& after.available.value() == before.available.value() - x
            &&& after.held.value() == before.held.value() + x
            &&& after.available.value() + after.held.value() == before.available.value() + before.held.value()
            &&& after.locked == before.locked
        }),
{
    let before = s.account_or_new(client.0);
    before.available.lemma_sub_exact(s.txs[tx.0].amount);
    before.held.lemma_add_exact(s.txs[tx.0].amount);
}

/// A chargeback takes the deposit's amount out of the held funds and
/// freezes the account, where the subtraction is exact.
pub proof fn lemma_chargeback_reverses(s: EngineView, client: ClientId, tx: TransactionId)
    requires
        chargeback_outcome(s, client, tx).1 is Ok,
        s.account_or_new(client.0).wf(),
        s.txs[tx.0].amount.wf(),
        s.account_or_new(client.0).held.sub_is_exact_case(s.txs[tx.0].amount),
    ensures
        ({
            let before = s.account_or_new(client.0);
            let after = chargeback_outcome(s, client, tx).0.accounts[client.0];
            &&& after.available == before.available
            &&& after.held.value() == before.held.value() - s.txs[tx.0].amount.value()
            &&& after.locked
            &&& chargeback_outcome(s, client, tx).0.txs[tx.0].state == TransactionState::ChargedBack
        }),
{
    s.account_or_new(client.0).held.lemma_sub_exact(s.txs[tx.0].amount);
}

/// Resolving a dispute right after opening it restores the account's
/// balances and the deposit's state, where the dispute's arithmetic is exact.
pub proof fn lemma_resolve_undoes_dispute(s: EngineView, client: ClientId, tx: TransactionId)
    requires
        dispute_outcome(s, client, tx).1 is Ok,
        s.account_or_new(client.0).wf(),
        s.txs[tx.0].amount.wf(),
        s.account_or_new(client.0).available.sub_is_exact_case(s.txs[tx.0].amount),
        s.account_or_new(client.0).held.add_is_exact_case(s.txs[tx.0].amount),
    ensures
        ({
            let s1 = dispute_outcome(s, client, tx).0;
            let (s2, r2) = resolve_outcome(s1, client, tx);
            let before = s.account_or_new(client.0);
            let after = s2.accounts[client.0];
            &&& resolve_fits(s1, client, tx)
            &&& r2 is Ok
            &&& s2.txs == s.txs
            &&& after.available.value() == before.available.value()
            &&& after.held.value() == before.held.value()
            &&& after.locked == before.locked
            &&& s2.accounts.dom() == s.accounts.dom().insert(client.0)
        }),
{
    let before = s.account_or_new(client.0);
    let x = s.txs[tx.0].amount;
    before.available.lemma_sub_then_add(x);
    before.held.lemma_add_then_sub(x);
    let s1 = dispute_outcome(s, client, tx).0;
    let s2 = resolve_outcome(s1, client, tx).0;
    assert(s2.txs =~= s.txs);
    assert(s2.accounts.dom() =~= s.accounts.dom().insert(client.0));
}

/// Every input item handled ends up as exactly one event or one error, after
/// those recorded before.
pub proof fn lemma_every_item_recorded(
    s: EngineView,
    agg: AggregatorView,
    items: Seq<Result<RawTransaction, EngineError>>,
)
    requires
        run(s, agg, items) is Some,
    ensures
        ({
            let a = run(s, agg, items).unwrap().1;
            &&& a.events.len() + a.errors.len() == agg.events.len() + agg.errors.len() + items.len()
            &&& agg.events.is_prefix_of(a.events)
            &&& agg.errors.is_prefix_of(a.errors)
        }),
    decreases items.len(),
{
    if items.len() > 0 {
        lemma_every_item_recorded(s, agg, items.drop_last());
        let (s1, a1) = run(s, agg, items.drop_last()).unwrap();
        let a = record_step(s1, a1, items.last()).unwrap().1;
        assert(a1.events.is_prefix_of(a.events));
        assert(a1.errors.is_prefix_of(a.errors));
    }
}

/// What deposit `r` counts toward a sum for client `c`: its amount where it
/// belongs to `c` and is disputed (`disputed_only`) or, otherwise, not
/// charged back; nothing else.
pub open spec fn record_part(r: TransactionRecord, c: u16, disputed_only: bool) -> int {
    if r.client.0 == c && (if disputed_only {
        r.state == TransactionState::Disputed
    } else {
        r.state != TransactionState::ChargedBack
    }) {
        r.amount.value()
    } else {
        0
    }
}

/// The parts for client `c` of the records of `txs` under `keys`, added up.
pub open spec fn record_sum(txs: Map<u32, TransactionRecord>, keys: Set<u32>, c: u16, disputed_only: bool) -> int
    decreases keys.len(),
    when keys.finite()
{
    if keys.len() == 0 {
        0
    } else {
        let k = keys.choose();
        record_part(txs[k], c, disputed_only) + record_sum(txs, keys.remove(k), c, disputed_only)
    }
}

/// The amounts of all deposits that client `c` has under dispute.
pub open spec fn disputed_total(txs: Map<u32, TransactionRecord>, c: u16) -> int {
    record_sum(txs, txs.dom(), c, true)
}

/// The amounts of all deposits of client `c` that were not charged back.
pub open spec fn kept_deposits(txs: Map<u32, TransactionRecord>, c: u16) -> int {
    record_sum(txs, txs.dom(), c, false)
}

/// Every account holds exactly the amounts of its client's disputed deposits.
pub open spec fn held_matches_disputes(s: EngineView) -> bool {
    forall|c: u16| s.accounts.contains_key(c) ==> (#[trigger] s.accounts[c]).held.value() == disputed_total(s.txs, c)
}

/// What holds of every state the engine reaches by exact arithmetic.
pub open spec fn ledger_invariant(s: EngineView) -> bool {
    &&& s.txs.dom().finite()
    &&& records_have_accounts(s)
    &&& amounts_wf(s)
    &&& held_matches_disputes(s)
}

/// The arithmetic of a transaction that goes through is exact.
pub open spec fn step_is_exact(
    s: EngineView,
    kind: TransactionType,
    client: ClientId,
    tx: TransactionId,
    amount: Option<Amount>,
) -> bool {
    let a = s.account_or_new(client.0);
    let x = s.txs[tx.0].amount;
    outcome(s, kind, client, tx, amount).1 is Ok ==> match kind {
        TransactionType::Deposit => a.available.add_is_exact_case(amount.unwrap()),
        TransactionType::Withdrawal => a.available.sub_is_exact_case(amount.unwrap()),
        TransactionType::Dispute => a.available.sub_is_exact_case(x) && a.held.add_is_exact_case(x),
        TransactionType::Resolve => a.held.sub_is_exact_case(x) && a.available.add_is_exact_case(x),
        TransactionType::Chargeback => a.held.sub_is_exact_case(x),
    }
}

/// Taking any one key out of the sum leaves its part aside.
proof fn lemma_record_sum_remove(txs: Map<u32, TransactionRecord>, keys: Set<u32>, c: u16, d: bool, k: u32)
    requires
        keys.finite(),
        keys.contains(k),
    ensures
        record_sum(txs, keys, c, d) == record_part(txs[k], c, d) + record_sum(txs, keys.remove(k), c, d),
    decreases keys.len(),
{
    let j = keys.choose();
    assert(keys.len() > 0) by {
        vstd::set_lib::lemma_set_empty_equivalency_len(keys);
    }
    if j != k {
        lemma_record_sum_remove(txs, keys.remove(j), c, d, k);
        lemma_record_sum_remove(txs, keys.remove(k), c, d, j);
        assert(keys.remove(j).remove(k) =~= keys.remove(k).remove(j));
    }
}

/// The sum reads only the records under its keys.
proof fn lemma_record_sum_frame(
    t1: Map<u32, TransactionRecord>,
    t2: Map<u32, TransactionRecord>,
    keys: Set<u32>,
    c: u16,
    d: bool,
)
    requires
        keys.finite(),
        forall|k: u32| keys.contains(k) ==> record_part(t1[k], c, d) == record_part(t2[k], c, d),
    ensures
        record_sum(t1, keys, c, d) == record_sum(t2, keys, c, d),
    decreases keys.len(),
{
    if keys.len() > 0 {
        let k = keys.choose();
        vstd::set_lib::lemma_set_empty_equivalency_len(keys);
        lemma_record_sum_frame(t1, t2, keys.remove(k), c, d);
    }
}

/// A client without any record under the keys has nothing to add up.
proof fn lemma_record_sum_absent(txs: Map<u32, TransactionRecord>, keys: Set<u32>, c: u16, d: bool)
    requires
        keys.finite(),
        forall|k: u32| keys.contains(k) ==> txs[k].client.0 != c,
    ensures
        record_sum(txs, keys, c, d) == 0,
    decreases keys.len(),
{
    if keys.len() > 0 {
        let k = keys.choose();
        vstd::set_lib::lemma_set_empty_equivalency_len(keys);
        lemma_record_sum_absent(txs, keys.remove(k), c, d);
    }
}

/// Replacing (or adding) the record under `k` changes each client's sum by
/// the change in that record's part.
proof fn lemma_record_total_update(txs: Map<u32, TransactionRecord>, k: u32, r: TransactionRecord, c: u16, d: bool)
    requires
        txs.dom().finite(),
    ensures
        record_sum(txs.insert(k, r), txs.insert(k, r).dom(), c, d) == record_sum(txs, txs.dom(), c, d)
            + record_part(r, c, d) - (if txs.contains_key(k) {
            record_part(txs[k], c, d)
        } else {
            0
        }),
{
    let t2 = txs.insert(k, r);
    let rest = txs.dom().remove(k);
    assert(t2.dom().remove(k) =~= rest);
    lemma_record_sum_remove(t2, t2.dom(), c, d, k);
    lemma_record_sum_frame(t2, txs, rest, c, d);
    if txs.contains_key(k) {
        lemma_record_sum_remove(txs, txs.dom(), c, d, k);
    } else {
        assert(rest =~= txs.dom());
    }
}

/// The engine starts out satisfying the ledger invariant.
pub proof fn lemma_empty_ledger()
    ensures
        ledger_invariant(EngineView { accounts: Map::empty(), txs: Map::empty() }),
{
    let s = EngineView { accounts: Map::<u16, AccountView>::empty(), txs: Map::<u32, TransactionRecord>::empty() };
    assert(s.txs.dom() =~= Set::<u32>::empty());
}

/// Held funds always equal the client's disputed deposits: every transaction
/// whose arithmetic is exact keeps the ledger invariant.
pub proof fn lemma_ledger_invariant_kept(
    s: EngineView,
    kind: TransactionType,
    client: ClientId,
    tx: TransactionId,
    amount: Option<Amount>,
)
    requires
        ledger_invariant(s),
        amount matches Some(a) ==> a.wf(),
        kind.carries_amount() ==> amount is Some,
        step_is_exact(s, kind, client, tx, amount),
    ensures
        ledger_invariant(outcome(s, kind, client, tx, amount).0),
{
    let (t, r) = outcome(s, kind, client, tx, amount);
    let c = client.0;
    let a = s.account_or_new(c);
    Amount::lemma_zero_value();
    assert(a.wf());
    lemma_records_keep_accounts(s, kind, client, tx, amount);
    if !s.accounts.contains_key(c) {
        assert forall|k: u32| s.txs.dom().contains(k) implies s.txs[k].client.0 != c by {}
        lemma_record_sum_absent(s.txs, s.txs.dom(), c, true);
        assert(a.held.value() == 0) by {
            assert(a.held == Amount::spec_zero());
            Amount::lemma_zero_value();
        }
    }
    if r is Err {
        lemma_refusal_changes_nothing(s, kind, client, tx, amount);
        assert forall|k: u16| t.accounts.contains_key(k) implies (#[trigger] t.accounts[k]).wf() by {
            if k == c && !s.accounts.contains_key(c) {
                Amount::lemma_zero_value();
            }
        }
    } else {
        match kind {
            TransactionType::Deposit => {
                let x = amount.unwrap();
                a.available.lemma_add_exact(x);
                let rec = TransactionRecord { client, amount: x, state: TransactionState::Active };
                assert forall|d: u16| t.accounts.contains_key(d) implies (#[trigger] t.accounts[d]).held.value()
                    == disputed_total(t.txs, d) by {
                    lemma_record_total_update(s.txs, tx.0, rec, d, true);
                }
                if !s.accounts.contains_key(c) {
                    Amount::lemma_zero_value();
                }
            },
            TransactionType::Withdrawal => {
                a.available.lemma_sub_exact(amount.unwrap());
                if !s.accounts.contains_key(c) {
                    Amount::lemma_zero_value();
                }
            },
            _ => {
                let rec = s.txs[tx.0];
                let x = rec.amount;
                let new_state = match kind {
                    TransactionType::Dispute => TransactionState::Disputed,
                    TransactionType::Resolve => TransactionState::Active,
                    _ => TransactionState::ChargedBack,
                };
                let rec2 = TransactionRecord { state: new_state, ..rec };
                assert(s.accounts.contains_key(c));
                match kind {
                    TransactionType::Dispute => {
                        a.available.lemma_sub_exact(x);
                        a.held.lemma_add_exact(x);
                    },
                    TransactionType::Resolve => {
                        a.held.lemma_sub_exact(x);
                        a.available.lemma_add_exact(x);
                    },
                    _ => {
                        a.held.lemma_sub_exact(x);
                    },
                }
                assert forall|d: u16| t.accounts.contains_key(d) implies (#[trigger] t.accounts[d]).held.value()
                    == disputed_total(t.txs, d) by {
                    lemma_record_total_update(s.txs, tx.0, rec2, d, true);
                }
            },
        }
    }
}

/// How a transaction's outcome changes its client's funds (available plus
/// held): up by a deposit, down by a withdrawal or a chargeback.
pub open spec fn balance_delta(r: Result<LedgerEvent, EngineError>) -> int {
    match r {
        Ok(LedgerEvent::Deposited { amount, .. }) => amount.value(),
        Ok(LedgerEvent::Withdrawn { amount, .. }) => -amount.value(),
        Ok(LedgerEvent::ChargedBack { reversed_amount, .. }) => -reversed_amount.value(),
        _ => 0,
    }
}

/// A client's funds change only by deposits, withdrawals and chargebacks;
/// disputes and resolutions move funds between available and held, and
/// refusals move nothing (where the arithmetic is exact).
pub proof fn lemma_funds_change_by_delta(
    s: EngineView,
    kind: TransactionType,
    client: ClientId,
    tx: TransactionId,
    amount: Option<Amount>,
)
    requires
        amounts_wf(s),
        amount matches Some(a) ==> a.wf(),
        kind.carries_amount() ==> amount is Some,
        step_is_exact(s, kind, client, tx, amount),
    ensures
        ({
            let (t, r) = outcome(s, kind, client, tx, amount);
            let before = s.account_or_new(client.0);
            let after = t.account_or_new(client.0);
            after.available.value() + after.held.value() == before.available.value() + before.held.value()
                + balance_delta(r)
        }),
{
    let (t, r) = outcome(s, kind, client, tx, amount);
    let a = s.account_or_new(client.0);
    Amount::lemma_zero_value();
    assert(a.wf());
    if r is Err {
        lemma_refusal_changes_nothing(s, kind, client, tx, amount);
    } else {
        match kind {
            TransactionType::Deposit => a.available.lemma_add_exact(amount.unwrap()),
            TransactionType::Withdrawal => a.available.lemma_sub_exact(amount.unwrap()),
            TransactionType::Dispute => {
                a.available.lemma_sub_exact(s.txs[tx.0].amount);
                a.held.lemma_add_exact(s.txs[tx.0].amount);
            },
            TransactionType::Resolve => {
                a.held.lemma_sub_exact(s.txs[tx.0].amount);
                a.available.lemma_add_exact(s.txs[tx.0].amount);
            },
            TransactionType::Chargeback => a.held.lemma_sub_exact(s.txs[tx.0].amount),
        }
    }
}

/// The arithmetic of `item`, handled in state `s`, is exact where the
/// transaction goes through.
pub open spec fn item_is_exact(s: EngineView, item: Result<RawTransaction, EngineError>) -> bool {
    match item {
        Ok(raw) => match validation(raw) {
            Ok(amount) => step_is_exact(s, raw.tx_type, raw.client, raw.tx, amount),
            Err(_) => true,
        },
        Err(_) => true,
    }
}

/// Every item of a run from `s` is handled with exact arithmetic.
pub open spec fn run_is_exact(s: EngineView, agg: AggregatorView, items: Seq<Result<RawTransaction, EngineError>>) -> bool
    decreases items.len(),
{
    if items.len() == 0 {
        true
    } else {
        run_is_exact(s, agg, items.drop_last()) && match run(s, agg, items.drop_last()) {
            Some((s1, _)) => item_is_exact(s1, items.last()),
            None => true,
        }
    }
}

/// Held funds equal the client's disputed deposits after any run of items
/// whose arithmetic is exact, from a state where they did.
pub proof fn lemma_run_keeps_ledger_invariant(
    s: EngineView,
    agg: AggregatorView,
    items: Seq<Result<RawTransaction, EngineError>>,
)
    requires
        ledger_invariant(s),
        validated_amounts_wf(items),
        run_is_exact(s, agg, items),
        run(s, agg, items) is Some,
    ensures
        ledger_invariant(run(s, agg, items).unwrap().0),
    decreases items.len(),
{
    if items.len() > 0 {
        let init = items.drop_last();
        assert(validated_amounts_wf(init)) by {
            assert forall|i: int| 0 <= i < init.len() implies ((#[trigger] init[i]) matches Ok(raw)
                ==> validated_amount_wf(raw)) by {
                assert(init[i] == items[i]);
            }
        }
        lemma_run_keeps_ledger_invariant(s, agg, init);
        let s1 = run(s, agg, init).unwrap().0;
        assert(items.last() == items[items.len() - 1]);
        if let Ok(raw) = items.last() {
            if let Ok(amount) = validation(raw) {
                assert(items[items.len() - 1] matches Ok(r) ==> validated_amount_wf(r));
                lemma_ledger_invariant_kept(s1, raw.tx_type, raw.client, raw.tx, amount);
            }
        }
    }
}

/// A frozen account stays frozen through any run of items.
pub proof fn lemma_frozen_stays_frozen_over_run(
    s: EngineView,
    agg: AggregatorView,
    items: Seq<Result<RawTransaction, EngineError>>,
    c: u16,
)
    requires
        s.is_frozen(c),
        run(s, agg, items) is Some,
    ensures
        run(s, agg, items).unwrap().0.is_frozen(c),
    decreases items.len(),
{
    if items.len() > 0 {
        lemma_frozen_stays_frozen_over_run(s, agg, items.drop_last(), c);
        let s1 = run(s, agg, items.drop_last()).unwrap().0;
        if let Ok(raw) = items.last() {
            if let Ok(amount) = validation(raw) {
                lemma_frozen_stays_frozen(s1, raw.tx_type, raw.client, raw.tx, amount, c);
            }
        }
    }
}

/// The amounts of client `c`'s withdrawals among `events`.
pub open spec fn withdrawn_total(events: Seq<LedgerEvent>, c: u16) -> int
    decreases events.len(),
{
    if events.len() == 0 {
        0
    } else {
        withdrawn_total(events.drop_last(), c) + withdrawn_part(events.last(), c)
    }
}

/// What event `e` counts toward the withdrawals of client `c`.
pub open spec fn withdrawn_part(e: LedgerEvent, c: u16) -> int {
    match e {
        LedgerEvent::Withdrawn { client, amount, .. } => if client.0 == c {
            amount.value()
        } else {
            0
        },
        _ => 0,
    }
}

/// The funds of an account: available plus held, by value.
pub open spec fn funds(a: AccountView) -> int {
    a.available.value() + a.held.value()
}

/// The events recorded once `r` is: its event where it went through.
pub open spec fn events_after(events: Seq<LedgerEvent>, r: Result<LedgerEvent, EngineError>) -> Seq<LedgerEvent> {
    match r {
        Ok(ev) => events.push(ev),
        Err(_) => events,
    }
}

/// Every client's funds are its deposits not charged back less its
/// withdrawals among `events`; a client without an account has withdrawn
/// nothing.
pub open spec fn funds_match_ledger(s: EngineView, events: Seq<LedgerEvent>) -> bool {
    &&& forall|c: u16|
        s.accounts.contains_key(c) ==> funds(#[trigger] s.accounts[c]) == kept_deposits(s.txs, c) - withdrawn_total(
            events,
            c,
        )
    &&& forall|c: u16| !s.accounts.contains_key(c) ==> #[trigger] withdrawn_total(events, c) == 0
}

proof fn lemma_withdrawn_total_push(events: Seq<LedgerEvent>, e: LedgerEvent, c: u16)
    ensures
        withdrawn_total(events.push(e), c) == withdrawn_total(events, c) + withdrawn_part(e, c),
{
    assert(events.push(e).drop_last() =~= events);
}

/// The engine and the aggregator start out with the funds law holding.
pub proof fn lemma_empty_funds_ledger()
    ensures
        funds_match_ledger(EngineView { accounts: Map::empty(), txs: Map::empty() }, Seq::empty()),
{
}

/// One transaction whose arithmetic is exact keeps every client's funds
/// equal to its deposits not charged back less its withdrawals.
pub proof fn lemma_funds_match_ledger_kept(
    s: EngineView,
    kind: TransactionType,
    client: ClientId,
    tx: TransactionId,
    amount: Option<Amount>,
    events: Seq<LedgerEvent>,
)
    requires
        ledger_invariant(s),
        funds_match_ledger(s, events),
        amount matches Some(a) ==> a.wf(),
        kind.carries_amount() ==> amount is Some,
        step_is_exact(s, kind, client, tx, amount),
    ensures
        funds_match_ledger(
            outcome(s, kind, client, tx, amount).0,
            events_after(events, outcome(s, kind, client, tx, amount).1),
        ),
{
    let (t, r) = outcome(s, kind, client, tx, amount);
    let e2 = events_after(events, r);
    let c = client.0;
    Amount::lemma_zero_value();
    lemma_funds_change_by_delta(s, kind, client, tx, amount);
    if !s.accounts.contains_key(c) {
        assert forall|k: u32| s.txs.dom().contains(k) implies s.txs[k].client.0 != c by {}
        lemma_record_sum_absent(s.txs, s.txs.dom(), c, false);
        assert(withdrawn_total(events, c) == 0);
    }
    // The funds law for `c` before the step, with a new account for a client that had none.
    assert(funds(s.account_or_new(c)) == kept_deposits(s.txs, c) - withdrawn_total(events, c));
    // How the deposits kept and the withdrawals change, client by client.
    let kept_delta: int = if r is Ok && kind == TransactionType::Deposit {
        amount.unwrap().value()
    } else if r is Ok && kind == TransactionType::Chargeback {
        -s.txs[tx.0].amount.value()
    } else {
        0
    };
    let withdrawn_delta: int = if r is Ok && kind == TransactionType::Withdrawal {
        amount.unwrap().value()
    } else {
        0
    };
    assert forall|d: u16|
        kept_deposits(t.txs, d) == kept_deposits(s.txs, d) + (if d == c {
            kept_delta
        } else {
            0
        }) && withdrawn_total(e2, d) == withdrawn_total(events, d) + (if d == c {
            withdrawn_delta
        } else {
            0
        }) by {
        if r is Err {
            lemma_refusal_changes_nothing(s, kind, client, tx, amount);
        } else {
            lemma_withdrawn_total_push(events, r.unwrap(), d);
            match kind {
                TransactionType::Deposit => {
                    let rec = TransactionRecord { client, amount: amount.unwrap(), state: TransactionState::Active };
                    lemma_record_total_update(s.txs, tx.0, rec, d, false);
                },
                TransactionType::Withdrawal => {},
                _ => {
                    let rec = s.txs[tx.0];
                    let new_state = match kind {
                        TransactionType::Dispute => TransactionState::Disputed,
                        TransactionType::Resolve => TransactionState::Active,
                        _ => TransactionState::ChargedBack,
                    };
                    lemma_record_total_update(s.txs, tx.0, TransactionRecord { state: new_state, ..rec }, d, false);
                },
            }
        }
    }
    assert(balance_delta(r) == kept_delta - withdrawn_delta);
    assert forall|d: u16| t.accounts.contains_key(d) implies funds(#[trigger] t.accounts[d]) == kept_deposits(
        t.txs,
        d,
    ) - withdrawn_total(e2, d) by {
        if d != c {
            lemma_other_accounts_untouched(s, kind, client, tx, amount, d);
        }
    }
    assert forall|d: u16| !t.accounts.contains_key(d) implies #[trigger] withdrawn_total(e2, d) == 0 by {
        if d != c {
            lemma_other_accounts_untouched(s, kind, client, tx, amount, d);
        } else if s.accounts.contains_key(c) {
            lemma_accounts_persist(s, kind, client, tx, amount, c);
        }
    }
}

/// Each client's funds (available plus held) stay equal to its deposits not
/// charged back less its withdrawals through any run of items whose
/// arithmetic is exact, from a state where they were; the ledger invariant
/// is kept too.
pub proof fn lemma_run_keeps_funds_law(
    s: EngineView,
    agg: AggregatorView,
    items: Seq<Result<RawTransaction, EngineError>>,
)
    requires
        ledger_invariant(s),
        funds_match_ledger(s, agg.events),
        validated_amounts_wf(items),
        run_is_exact(s, agg, items),
        run(s, agg, items) is Some,
    ensures
        ledger_invariant(run(s, agg, items).unwrap().0),
        funds_match_ledger(run(s, agg, items).unwrap().0, run(s, agg, items).unwrap().1.events),
    decreases items.len(),
{
    if items.len() > 0 {
        let init = items.drop_last();
        assert(validated_amounts_wf(init)) by {
            assert forall|i: int| 0 <= i < init.len() implies ((#[trigger] init[i]) matches Ok(raw)
                ==> validated_amount_wf(raw)) by {
                assert(init[i] == items[i]);
            }
        }
        lemma_run_keeps_funds_law(s, agg, init);
        let (s1, a1) = run(s, agg, init).unwrap();
        assert(items.last() == items[items.len() - 1]);
        if let Ok(raw) = items.last() {
            if let Ok(amount) = validation(raw) {
                assert(items[items.len() - 1] matches Ok(r) ==> validated_amount_wf(r));
                lemma_ledger_invariant_kept(s1, raw.tx_type, raw.client, raw.tx, amount);
                lemma_funds_match_ledger_kept(s1, raw.tx_type, raw.client, raw.tx, amount, a1.events);
            }
        }
    }
}

/// From a new engine and aggregator, after any run of items whose arithmetic
/// is exact, every client's funds (available plus held) are its deposits not
/// charged back less its successful withdrawals.
pub proof fn lemma_funds_law(items: Seq<Result<RawTransaction, EngineError>>)
    requires
        validated_amounts_wf(items),
        run_is_exact(EngineView { accounts: Map::empty(), txs: Map::empty() }, AggregatorView::empty(), items),
        run(EngineView { accounts: Map::empty(), txs: Map::empty() }, AggregatorView::empty(), items) is Some,
    ensures
        ({
            let (t, a) = run(EngineView { accounts: Map::empty(), txs: Map::empty() }, AggregatorView::empty(), items).unwrap();
            forall|c: u16|
                t.accounts.contains_key(c) ==> funds(#[trigger] t.accounts[c]) == kept_deposits(t.txs, c)
                    - withdrawn_total(a.events, c)
        }),
{
    lemma_empty_ledger();
    lemma_empty_funds_ledger();
    lemma_run_keeps_funds_law(
        EngineView { accounts: Map::empty(), txs: Map::empty() },
        AggregatorView::empty(),
        items,
    );
}

/// A deposit is refused as a duplicate where its id is already recorded
/// (whatever the client), else as frozen where its client's account is
/// frozen; a refusal changes nothing. Otherwise it credits the amount to the
/// client's account (created where missing), keeps held funds and the lock,
/// records the deposit as active, and touches nothing else.
pub proof fn lemma_deposit_law(s: EngineView, client: ClientId, tx: TransactionId, amount: Amount)
    ensures
        ({
            let (t, r) = deposit_outcome(s, client, tx, amount);
            let a = s.account_or_new(client.0);
            &&& r == if s.txs.contains_key(tx.0) {
                Err::<LedgerEvent, EngineError>(EngineError::DuplicateTransaction { tx_id: tx })
            } else if s.is_frozen(client.0) {
                Err(EngineError::AccountFrozen { client_id: client, tx_id: tx })
            } else {
                Ok(LedgerEvent::Deposited { client, tx, amount })
            }
            &&& r is Err ==> t == s
            &&& r is Ok ==> t.accounts == s.accounts.insert(
                client.0,
                AccountView { available: a.available.spec_checked_add(amount).unwrap(), held: a.held, locked: a.locked },
            )
            &&& r is Ok ==> t.txs == s.txs.insert(
                tx.0,
                TransactionRecord { client, amount, state: TransactionState::Active },
            )
        }),
{
}

/// A withdrawal is refused where its client's account is frozen, else where
/// the funds available (none for a new client) are below the amount by
/// value; recorded ids play no part. A frozen refusal changes nothing; an
/// insufficient-funds refusal only creates a missing account. Otherwise the
/// amount leaves the available funds, and nothing else changes.
pub proof fn lemma_withdrawal_law(s: EngineView, client: ClientId, tx: TransactionId, amount: Amount)
    ensures
        ({
            let (t, r) = withdrawal_outcome(s, client, tx, amount);
            let a = s.account_or_new(client.0);
            &&& r == if s.is_frozen(client.0) {
                Err::<LedgerEvent, EngineError>(EngineError::AccountFrozen { client_id: client, tx_id: tx })
            } else if a.available.value() < amount.value() {
                Err(EngineError::InsufficientFunds { client_id: client, tx_id: tx })
            } else {
                Ok(LedgerEvent::Withdrawn { client, tx, amount })
            }
            &&& t.txs == s.txs
            &&& s.is_frozen(client.0) ==> t == s
            &&& !s.is_frozen(client.0) && r is Err ==> t.accounts == s.accounts.insert(client.0, a)
            &&& r is Ok ==> t.accounts == s.accounts.insert(
                client.0,
                AccountView { available: a.available.spec_checked_sub(amount).unwrap(), held: a.held, locked: a.locked },
            )
        }),
{
}

/// A dispute is refused where the deposit is not recorded, else where it is
/// another client's, else where it is already disputed, else where it was
/// charged back; a refusal changes nothing, and a frozen account is no
/// obstacle. Otherwise the deposit's amount moves from available to held,
/// the lock stays, the deposit becomes disputed, and nothing else changes.
pub proof fn lemma_dispute_law(s: EngineView, client: ClientId, tx: TransactionId)
    ensures
        ({
            let (t, r) = dispute_outcome(s, client, tx);
            let rec = s.txs[tx.0];
            let a = s.account_or_new(client.0);
            &&& r == if !s.txs.contains_key(tx.0) {
                Err::<LedgerEvent, EngineError>(EngineError::TransactionNotFound { tx_id: tx })
            } else if rec.client != client {
                Err(EngineError::ClientMismatch { tx_id: tx, expected: rec.client, actual: client })
            } else if rec.state == TransactionState::Disputed {
                Err(EngineError::TransactionAlreadyDisputed { tx_id: tx })
            } else if rec.state == TransactionState::ChargedBack {
                Err(EngineError::TransactionAlreadyChargedBack { tx_id: tx })
            } else {
                Ok(LedgerEvent::DisputeOpened { client, tx, held_amount: rec.amount })
            }
            &&& r is Err ==> t == s
            &&& r is Ok ==> t.accounts == s.accounts.insert(
                client.0,
                AccountView {
                    available: a.available.spec_checked_sub(rec.amount).unwrap(),
                    held: a.held.spec_checked_add(rec.amount).unwrap(),
                    locked: a.locked,
                },
            )
            &&& r is Ok ==> t.txs == s.txs.insert(
                tx.0,
                TransactionRecord { client: rec.client, amount: rec.amount, state: TransactionState::Disputed },
            )
        }),
{
}

/// A resolution is refused where the deposit is not recorded, else where it
/// is another client's, else where it is not disputed; a refusal changes
/// nothing. Otherwise the deposit's amount moves from held back to
/// available, the lock stays, the deposit becomes active again, and nothing
/// else changes.
pub proof fn lemma_resolve_law(s: EngineView, client: ClientId, tx: TransactionId)
    ensures
        ({
            let (t, r) = resolve_outcome(s, client, tx);
            let rec = s.txs[tx.0];
            let a = s.account_or_new(client.0);
            &&& r == if !s.txs.contains_key(tx.0) {
                Err::<LedgerEvent, EngineError>(EngineError::TransactionNotFound { tx_id: tx })
            } else if rec.client != client {
                Err(EngineError::ClientMismatch { tx_id: tx, expected: rec.client, actual: client })
            } else if rec.state != TransactionState::Disputed {
                Err(EngineError::TransactionNotDisputed { tx_id: tx })
            } else {
                Ok(LedgerEvent::DisputeResolved { client, tx, released_amount: rec.amount })
            }
            &&& r is Err ==> t == s
            &&& r is Ok ==> t.accounts == s.accounts.insert(
                client.0,
                AccountView {
                    available: a.available.spec_checked_add(rec.amount).unwrap(),
                    held: a.held.spec_checked_sub(rec.amount).unwrap(),
                    locked: a.locked,
                },
            )
            &&& r is Ok ==> t.txs == s.txs.insert(
                tx.0,
                TransactionRecord { client: rec.client, amount: rec.amount, state: TransactionState::Active },
            )
        }),
{
}

/// A chargeback is refused where the deposit is not recorded, else where it
/// is another client's, else where it is not disputed (active or already
/// charged back); a refusal changes nothing, and a frozen account is no
/// obstacle. Otherwise the deposit's amount leaves the held funds, the
/// available funds stay, the account is frozen, the deposit is charged back,
/// and nothing else changes.
pub proof fn lemma_chargeback_law(s: EngineView, client: ClientId, tx: TransactionId)
    ensures
        ({
            let (t, r) = chargeback_outcome(s, client, tx);
            let rec = s.txs[tx.0];
            let a = s.account_or_new(client.0);
            &&& r == if !s.txs.contains_key(tx.0) {
                Err::<LedgerEvent, EngineError>(EngineError::TransactionNotFound { tx_id: tx })
            } else if rec.client != client {
                Err(EngineError::ClientMismatch { tx_id: tx, expected: rec.client, actual: client })
            } else if rec.state != TransactionState::Disputed {
                Err(EngineError::TransactionNotDisputed { tx_id: tx })
            } else {
                Ok(LedgerEvent::ChargedBack { client, tx, reversed_amount: rec.amount })
            }
            &&& r is Err ==> t == s
            &&& r is Ok ==> t.accounts == s.accounts.insert(
                client.0,
                AccountView { available: a.available, held: a.held.spec_checked_sub(rec.amount).unwrap(), locked: true },
            )
            &&& r is Ok ==> t.txs == s.txs.insert(
                tx.0,
                TransactionRecord { client: rec.client, amount: rec.amount, state: TransactionState::ChargedBack },
            )
        }),
{
}

/// Validation: a deposit or a withdrawal without an amount is refused as
/// missing one, with an amount of zero or less as invalid, and with any
/// positive amount is accepted with that amount; a dispute, a resolution or
/// a chargeback is accepted without one, whatever it came with.
pub proof fn lemma_validation_law(raw: RawTransaction)
    ensures
        raw.tx_type == TransactionType::Deposit || raw.tx_type == TransactionType::Withdrawal ==> match raw.amount {
            None => validation(raw) == Err::<Option<Amount>, EngineError>(EngineError::MissingAmount { tx_id: raw.tx }),
            Some(a) => validation(raw) == if a.value() > 0 {
                Ok::<Option<Amount>, EngineError>(Some(a))
            } else {
                Err(EngineError::InvalidAmount { tx_id: raw.tx })
            },
        },
        raw.tx_type != TransactionType::Deposit && raw.tx_type != TransactionType::Withdrawal ==> validation(raw)
            == Ok::<Option<Amount>, EngineError>(None),
{
}

/// The event of a transaction that goes through is of the transaction's
/// kind, so it is counted under that kind.
pub proof fn lemma_event_has_transaction_kind(
    s: EngineView,
    kind: TransactionType,
    client: ClientId,
    tx: TransactionId,
    amount: Option<Amount>,
)
    ensures
        outcome(s, kind, client, tx, amount).1 matches Ok(ev) ==> ev.kind() == kind,
{
}

/// A refused transaction never stops processing: the item is counted as
/// its error and the engine is left as the refusal leaves it.
pub proof fn lemma_refusal_is_recorded(s: EngineView, agg: AggregatorView, raw: RawTransaction)
    requires
        validation(raw) is Ok,
        outcome(s, raw.tx_type, raw.client, raw.tx, validation(raw).unwrap()).1 is Err,
    ensures
        ({
            let (t, r) = outcome(s, raw.tx_type, raw.client, raw.tx, validation(raw).unwrap());
            record_step(s, agg, Ok(raw)) == Some((t, agg.with_error(r->Err_0)))
        }),
{
}

/// A deposit of a positive amount under a new id, to an account that is not
/// frozen, goes through wherever adding it to the funds available gives a
/// decimal: processing does not stop there, the amount is added, and the
/// deposit is counted.
pub proof fn lemma_deposit_goes_through(
    s: EngineView,
    agg: AggregatorView,
    client: ClientId,
    tx: TransactionId,
    amount: Amount,
)
    requires
        amount.value() > 0,
        !s.txs.contains_key(tx.0),
        !s.is_frozen(client.0),
        s.account_or_new(client.0).available.spec_checked_add(amount) is Some,
    ensures
        ({
            let a = s.account_or_new(client.0);
            let raw = RawTransaction { tx_type: TransactionType::Deposit, client, tx, amount: Some(amount) };
            &&& record_step(s, agg, Ok(raw)) is Some
            &&& record_step(s, agg, Ok(raw)).unwrap().1 == agg.with_event(LedgerEvent::Deposited { client, tx, amount })
            &&& record_step(s, agg, Ok(raw)).unwrap().0.accounts[client.0] == AccountView {
                available: a.available.spec_checked_add(amount).unwrap(),
                held: a.held,
                locked: a.locked,
            }
        }),
{
}

/// A withdrawal of a positive amount by a client whose account is not
/// frozen and whose available funds cover it (equal funds included) goes
/// through wherever taking it away gives a decimal: processing does not stop
/// there, the amount leaves the funds available, and the withdrawal is
/// counted.
pub proof fn lemma_withdrawal_goes_through(
    s: EngineView,
    agg: AggregatorView,
    client: ClientId,
    tx: TransactionId,
    amount: Amount,
)
    requires
        amount.value() > 0,
        !s.is_frozen(client.0),
        s.account_or_new(client.0).available.value() >= amount.value(),
        s.account_or_new(client.0).available.spec_checked_sub(amount) is Some,
    ensures
        ({
            let a = s.account_or_new(client.0);
            let raw = RawTransaction { tx_type: TransactionType::Withdrawal, client, tx, amount: Some(amount) };
            &&& record_step(s, agg, Ok(raw)) is Some
            &&& record_step(s, agg, Ok(raw)).unwrap().1 == agg.with_event(LedgerEvent::Withdrawn { client, tx, amount })
            &&& record_step(s, agg, Ok(raw)).unwrap().0.accounts[client.0] == AccountView {
                available: a.available.spec_checked_sub(amount).unwrap(),
                held: a.held,
                locked: a.locked,
            }
        }),
{
}

/// A dispute of an active deposit of the client goes through, frozen
/// account or not, wherever moving its amount from available to held gives
/// decimals: processing does not stop there, and the amount moves.
pub proof fn lemma_dispute_goes_through(s: EngineView, agg: AggregatorView, client: ClientId, tx: TransactionId)
    requires
        s.txs.contains_key(tx.0),
        s.txs[tx.0].client == client,
        s.txs[tx.0].state == TransactionState::Active,
        s.account_or_new(client.0).available.spec_checked_sub(s.txs[tx.0].amount) is Some,
        s.account_or_new(client.0).held.spec_checked_add(s.txs[tx.0].amount) is Some,
    ensures
        ({
            let a = s.account_or_new(client.0);
            let x = s.txs[tx.0].amount;
            let raw = RawTransaction { tx_type: TransactionType::Dispute, client, tx, amount: None };
            &&& record_step(s, agg, Ok(raw)) is Some
            &&& record_step(s, agg, Ok(raw)).unwrap().1 == agg.with_event(
                LedgerEvent::DisputeOpened { client, tx, held_amount: x },
            )
            &&& record_step(s, agg, Ok(raw)).unwrap().0.accounts[client.0] == AccountView {
                available: a.available.spec_checked_sub(x).unwrap(),
                held: a.held.spec_checked_add(x).unwrap(),
                locked: a.locked,
            }
            &&& record_step(s, agg, Ok(raw)).unwrap().0.txs[tx.0].state == TransactionState::Disputed
        }),
{
}

/// A resolution of a disputed deposit of the client goes through, frozen
/// account or not, wherever moving its amount from held back to available
/// gives decimals: processing does not stop there, and the amount moves.
pub proof fn lemma_resolve_goes_through(s: EngineView, agg: AggregatorView, client: ClientId, tx: TransactionId)
    requires
        s.txs.contains_key(tx.0),
        s.txs[tx.0].client == client,
        s.txs[tx.0].state == TransactionState::Disputed,
        s.account_or_new(client.0).held.spec_checked_sub(s.txs[tx.0].amount) is Some,
        s.account_or_new(client.0).available.spec_checked_add(s.txs[tx.0].amount) is Some,
    ensures
        ({
            let a = s.account_or_new(client.0);
            let x = s.txs[tx.0].amount;
            let raw = RawTransaction { tx_type: TransactionType::Resolve, client, tx, amount: None };
            &&& record_step(s, agg, Ok(raw)) is Some
            &&& record_step(s, agg, Ok(raw)).unwrap().1 == agg.with_event(
                LedgerEvent::DisputeResolved { client, tx, released_amount: x },
            )
            &&& record_step(s, agg, Ok(raw)).unwrap().0.accounts[client.0] == AccountView {
                available: a.available.spec_checked_add(x).unwrap(),
                held: a.held.spec_checked_sub(x).unwrap(),
                locked: a.locked,
            }
            &&& record_step(s, agg, Ok(raw)).unwrap().0.txs[tx.0].state == TransactionState::Active
        }),
{
}

/// A chargeback of a disputed deposit of the client goes through, whether
/// or not the account is already frozen, wherever taking its amount out of
/// the held funds gives a decimal: processing does not stop there, the
/// amount leaves the held funds and the account ends up frozen.
pub proof fn lemma_chargeback_goes_through(s: EngineView, agg: AggregatorView, client: ClientId, tx: TransactionId)
    requires
        s.txs.contains_key(tx.0),
        s.txs[tx.0].client == client,
        s.txs[tx.0].state == TransactionState::Disputed,
        s.account_or_new(client.0).held.spec_checked_sub(s.txs[tx.0].amount) is Some,
    ensures
        ({
            let a = s.account_or_new(client.0);
            let x = s.txs[tx.0].amount;
            let raw = RawTransaction { tx_type: TransactionType::Chargeback, client, tx, amount: None };
            &&& record_step(s, agg, Ok(raw)) is Some
            &&& record_step(s, agg, Ok(raw)).unwrap().1 == agg.with_event(
                LedgerEvent::ChargedBack { client, tx, reversed_amount: x },
            )
            &&& record_step(s, agg, Ok(raw)).unwrap().0.accounts[client.0] == AccountView {
                available: a.available,
                held: a.held.spec_checked_sub(x).unwrap(),
                locked: true,
            }
            &&& record_step(s, agg, Ok(raw)).unwrap().0.txs[tx.0].state == TransactionState::ChargedBack
        }),
{
}

/// Each output line is its client's account as shown: both balances rounded
/// to four places, the total the sum of the two shown balances, and the
/// account's frozen flag; every account has exactly one line.
pub proof fn lemma_output_lines(accounts: Map<u16, AccountView>, outs: Seq<AccountOutput>)
    requires
        outputs_of(accounts, outs),
        totals_fit(accounts),
    ensures
        forall|i: int|
            0 <= i < outs.len() ==> {
                let a = accounts[(#[trigger] outs[i]).client.0];
                &&& accounts.contains_key(outs[i].client.0)
                &&& outs[i].locked == a.locked
                &&& outs[i].available == a.available.spec_round_dp(4)
                &&& outs[i].held == a.held.spec_round_dp(4)
                &&& outs[i].available.spec_checked_add(outs[i].held) == Some(outs[i].total)
            },
        forall|c: u16| accounts.contains_key(c) ==> exists|i: int| 0 <= i < outs.len() && #[trigger] outs[i].client.0 == c,
        forall|i: int, j: int| 0 <= i < j < outs.len() ==> outs[i].client != outs[j].client,
{
    assert forall|i: int| 0 <= i < outs.len() implies {
        let a = accounts[(#[trigger] outs[i]).client.0];
        &&& accounts.contains_key(outs[i].client.0)
        &&& outs[i].locked == a.locked
        &&& outs[i].available == a.available.spec_round_dp(4)
        &&& outs[i].held == a.held.spec_round_dp(4)
        &&& outs[i].available.spec_checked_add(outs[i].held) == Some(outs[i].total)
    } by {
        assert(accounts.contains_key(outs[i].client.0));
    }
}

} // verus!
