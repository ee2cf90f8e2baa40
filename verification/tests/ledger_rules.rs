use std::str::FromStr;

use rust_decimal::Decimal;
use simple_payment_engine::aggregator::event::LedgerEvent;
use simple_payment_engine::aggregator::metrics::{Aggregator, ErrorCategory};
use simple_payment_engine::amount::{Amount, MAX_MANTISSA};
use simple_payment_engine::engine::processor::{PaymentEngine, PaymentEngineBuilder};
use simple_payment_engine::engine::validator::TransactionValidator;
use simple_payment_engine::error::EngineError;
use simple_payment_engine::model::account::ClientAccount;
use simple_payment_engine::model::transaction::{RawTransaction, TransactionState, TransactionType};
use simple_payment_engine::repository::in_memory::{InMemoryAccountRepo, InMemoryTransactionRepo};
use simple_payment_engine::repository::{AccountRepository, TransactionRepository};
use simple_payment_engine::types::{ClientId, TransactionId};

fn amount(s: &str) -> Amount {
    let d = Decimal::from_str(s).unwrap();
    Amount::from_parts(d.mantissa(), d.scale()).unwrap()
}

fn decimal(a: Amount) -> Decimal {
    Decimal::from_i128_with_scale(a.mantissa(), a.scale())
}

fn raw(kind: TransactionType, client: u16, tx: u32, value: Option<&str>) -> RawTransaction {
    RawTransaction {
        tx_type: kind,
        client: ClientId::new(client),
        tx: TransactionId::new(tx),
        amount: value.map(amount),
    }
}

fn run(engine: &mut PaymentEngine, agg: &mut Aggregator, txs: Vec<RawTransaction>) {
    engine.process_all(txs.into_iter().map(Ok).collect(), agg).unwrap();
}

fn validated(r: RawTransaction) -> simple_payment_engine::model::transaction::ValidatedTransaction {
    TransactionValidator::new().validate(r).unwrap()
}

// ---------------------------------------------------------------------------
// Amounts
// ---------------------------------------------------------------------------

#[test]
fn amount_addition_is_exact_at_the_larger_scale() {
    let sum = amount("1.5").checked_add(&amount("2.25")).unwrap();
    assert_eq!(sum.mantissa(), 375);
    assert_eq!(sum.scale(), 2);
    assert_eq!(decimal(sum), Decimal::from_str("3.75").unwrap());
}

#[test]
fn amount_subtraction_is_exact() {
    let diff = amount("1.5").checked_sub(&amount("2.25")).unwrap();
    assert_eq!(decimal(diff), Decimal::from_str("-0.75").unwrap());
    assert_eq!(diff.scale(), 2);
}

#[test]
fn amount_zero_operand_gives_the_other() {
    let a = amount("7.125");
    let sum = Amount::zero().checked_add(&a).unwrap();
    assert_eq!((sum.mantissa(), sum.scale()), (7125, 3));
    let diff = Amount::zero().checked_sub(&a).unwrap();
    assert_eq!((diff.mantissa(), diff.scale()), (-7125, 3));
    let same = a.checked_sub(&Amount::zero()).unwrap();
    assert_eq!((same.mantissa(), same.scale()), (7125, 3));
}

#[test]
fn amount_overflow_is_none() {
    let max = Amount::from_parts(MAX_MANTISSA, 0).unwrap();
    assert!(max.checked_add(&amount("1")).is_none());
    let min = Amount::from_parts(-MAX_MANTISSA, 0).unwrap();
    assert!(min.checked_sub(&amount("1")).is_none());
}

#[test]
fn amount_from_parts_checks_the_range() {
    assert!(Amount::from_parts(MAX_MANTISSA, 28).is_some());
    assert!(Amount::from_parts(MAX_MANTISSA + 1, 0).is_none());
    assert!(Amount::from_parts(-MAX_MANTISSA - 1, 0).is_none());
    assert!(Amount::from_parts(1, 29).is_none());
}

#[test]
fn amount_order_and_equality_are_by_value() {
    assert!(amount("1.5") == amount("1.50"));
    assert!(amount("1.5") != amount("1.49"));
    assert!(amount("1.49").lt(&amount("1.5")));
    assert!(!amount("1.50").lt(&amount("1.5")));
    assert!(amount("1.50").le(&amount("1.5")));
    assert!(amount("-3").le(&Amount::zero()));
}

#[test]
fn amount_rounding_to_four_places() {
    assert_eq!(decimal(amount("1.23456").round_dp(4)), Decimal::from_str("1.2346").unwrap());
    assert_eq!(decimal(amount("2.00005").round_dp(4)), Decimal::from_str("2.0000").unwrap());
    let kept = amount("1.5").round_dp(4);
    assert_eq!((kept.mantissa(), kept.scale()), (15, 1));
    let zero = Amount::from_parts(0, 9).unwrap().round_dp(4);
    assert_eq!((zero.mantissa(), zero.scale()), (0, 4));
}

// ---------------------------------------------------------------------------
// Accounts
// ---------------------------------------------------------------------------

#[test]
fn account_operations_move_funds() {
    let mut a = ClientAccount::new();
    a.deposit(amount("10"));
    a.hold(amount("4"));
    assert_eq!(decimal(a.available()), Decimal::from_str("6").unwrap());
    assert_eq!(decimal(a.held()), Decimal::from_str("4").unwrap());
    assert_eq!(decimal(a.total()), Decimal::from_str("10").unwrap());
    a.release(amount("1"));
    a.withdraw(amount("2"));
    assert_eq!(decimal(a.available()), Decimal::from_str("5").unwrap());
    a.chargeback(amount("3"));
    assert_eq!(decimal(a.held()), Decimal::ZERO);
    assert!(a.is_locked());
    assert_eq!(decimal(a.checked_total().unwrap()), Decimal::from_str("5").unwrap());
}

// ---------------------------------------------------------------------------
// Engine: outcomes and errors
// ---------------------------------------------------------------------------

#[test]
fn process_transaction_reports_each_error() {
    let mut engine = PaymentEngine::default();
    let dep = validated(raw(TransactionType::Deposit, 1, 1, Some("10")));
    assert!(matches!(engine.process_transaction(&dep), Ok(LedgerEvent::Deposited { .. })));
    assert!(matches!(
        engine.process_transaction(&dep),
        Err(EngineError::DuplicateTransaction { tx_id: TransactionId(1) })
    ));
    let res = validated(raw(TransactionType::Resolve, 1, 1, None));
    assert!(matches!(
        engine.process_transaction(&res),
        Err(EngineError::TransactionNotDisputed { tx_id: TransactionId(1) })
    ));
    let foreign = validated(raw(TransactionType::Dispute, 2, 1, None));
    assert!(matches!(
        engine.process_transaction(&foreign),
        Err(EngineError::ClientMismatch { tx_id: TransactionId(1), expected: ClientId(1), actual: ClientId(2) })
    ));
    let dis = validated(raw(TransactionType::Dispute, 1, 1, None));
    assert!(matches!(engine.process_transaction(&dis), Ok(LedgerEvent::DisputeOpened { .. })));
    assert!(matches!(
        engine.process_transaction(&dis),
        Err(EngineError::TransactionAlreadyDisputed { tx_id: TransactionId(1) })
    ));
    let cb = validated(raw(TransactionType::Chargeback, 1, 1, None));
    assert!(matches!(engine.process_transaction(&cb), Ok(LedgerEvent::ChargedBack { .. })));
    assert!(matches!(
        engine.process_transaction(&dis),
        Err(EngineError::TransactionAlreadyChargedBack { tx_id: TransactionId(1) })
    ));
    assert!(matches!(
        engine.process_transaction(&cb),
        Err(EngineError::TransactionNotDisputed { tx_id: TransactionId(1) })
    ));
    let wd = validated(raw(TransactionType::Withdrawal, 1, 2, Some("1")));
    assert!(matches!(
        engine.process_transaction(&wd),
        Err(EngineError::AccountFrozen { client_id: ClientId(1), tx_id: TransactionId(2) })
    ));
}

#[test]
fn withdrawals_are_not_recorded_for_disputes() {
    let mut engine = PaymentEngine::default();
    let mut agg = Aggregator::new();
    run(
        &mut engine,
        &mut agg,
        vec![
            raw(TransactionType::Deposit, 1, 1, Some("10")),
            raw(TransactionType::Withdrawal, 1, 2, Some("4")),
            raw(TransactionType::Dispute, 1, 2, None),
        ],
    );
    assert!(matches!(agg.errors()[0], EngineError::TransactionNotFound { tx_id: TransactionId(2) }));
}

#[test]
fn failed_withdrawal_by_unknown_client_opens_an_empty_account() {
    let mut engine = PaymentEngine::default();
    let mut agg = Aggregator::new();
    run(&mut engine, &mut agg, vec![raw(TransactionType::Withdrawal, 7, 1, Some("1"))]);
    assert!(matches!(
        agg.errors()[0],
        EngineError::InsufficientFunds { client_id: ClientId(7), tx_id: TransactionId(1) }
    ));
    let outputs = engine.account_outputs();
    assert_eq!(outputs.len(), 1);
    assert_eq!(outputs[0].client, ClientId::new(7));
    assert_eq!(decimal(outputs[0].total), Decimal::ZERO);
}

#[test]
fn dispute_may_take_available_below_zero() {
    let mut engine = PaymentEngine::default();
    let mut agg = Aggregator::new();
    run(
        &mut engine,
        &mut agg,
        vec![
            raw(TransactionType::Deposit, 1, 1, Some("10")),
            raw(TransactionType::Withdrawal, 1, 2, Some("8")),
            raw(TransactionType::Dispute, 1, 1, None),
        ],
    );
    let outputs = engine.account_outputs();
    assert_eq!(decimal(outputs[0].available), Decimal::from_str("-8").unwrap());
    assert_eq!(decimal(outputs[0].held), Decimal::from_str("10").unwrap());
    assert_eq!(decimal(outputs[0].total), Decimal::from_str("2").unwrap());
}

#[test]
fn frozen_account_still_takes_disputes() {
    let mut engine = PaymentEngine::default();
    let mut agg = Aggregator::new();
    run(
        &mut engine,
        &mut agg,
        vec![
            raw(TransactionType::Deposit, 1, 1, Some("10")),
            raw(TransactionType::Deposit, 1, 2, Some("5")),
            raw(TransactionType::Dispute, 1, 1, None),
            raw(TransactionType::Chargeback, 1, 1, None),
            raw(TransactionType::Dispute, 1, 2, None),
        ],
    );
    let outputs = engine.account_outputs();
    assert!(outputs[0].locked);
    assert_eq!(decimal(outputs[0].available), Decimal::ZERO);
    assert_eq!(decimal(outputs[0].held), Decimal::from_str("5").unwrap());
}

#[test]
fn outputs_are_rounded_to_four_places() {
    let mut engine = PaymentEngine::default();
    let mut agg = Aggregator::new();
    run(&mut engine, &mut agg, vec![raw(TransactionType::Deposit, 1, 1, Some("1.23456"))]);
    let outputs = engine.account_outputs();
    assert_eq!(decimal(outputs[0].available), Decimal::from_str("1.2346").unwrap());
    assert_eq!(decimal(outputs[0].total), Decimal::from_str("1.2346").unwrap());
}

#[test]
fn overflow_stops_processing_and_changes_nothing() {
    let max = MAX_MANTISSA.to_string();
    let mut engine = PaymentEngine::default();
    let mut agg = Aggregator::new();
    let items = vec![
        Ok(raw(TransactionType::Deposit, 1, 1, Some(&max))),
        Ok(raw(TransactionType::Deposit, 1, 2, Some("1"))),
        Ok(raw(TransactionType::Deposit, 1, 3, Some("1"))),
    ];
    assert_eq!(engine.process_all(items, &mut agg), Err(1));
    let summary = agg.summarize();
    assert_eq!(summary.total_processed, 1);
    assert_eq!(summary.total_errors, 0);
    let outputs = engine.account_outputs();
    assert_eq!(outputs[0].available.mantissa(), MAX_MANTISSA);
}

#[test]
fn total_overflow_makes_outputs_unavailable() {
    let max = MAX_MANTISSA.to_string();
    let mut engine = PaymentEngine::default();
    let mut agg = Aggregator::new();
    run(
        &mut engine,
        &mut agg,
        vec![
            raw(TransactionType::Deposit, 1, 1, Some(&max)),
            raw(TransactionType::Dispute, 1, 1, None),
            raw(TransactionType::Deposit, 1, 2, Some("1")),
        ],
    );
    assert!(engine.try_account_outputs().is_none());
}

#[test]
fn unreadable_lines_count_as_parse_errors() {
    let mut engine = PaymentEngine::default();
    let mut agg = Aggregator::new();
    let items = vec![
        Err(EngineError::Parse { line: 3, message: "bad".to_string() }),
        Ok(raw(TransactionType::Deposit, 1, 1, None)),
        Ok(raw(TransactionType::Withdrawal, 1, 2, Some("5"))),
    ];
    assert_eq!(engine.process_all(items, &mut agg), Ok(()));
    let summary = agg.summarize();
    assert_eq!(summary.total_processed, 0);
    assert_eq!(summary.total_errors, 3);
    assert_eq!(summary.error_counts.get(&ErrorCategory::ParseError), Some(&1));
    assert_eq!(summary.error_counts.get(&ErrorCategory::MissingAmount), Some(&1));
    assert_eq!(summary.error_counts.get(&ErrorCategory::InsufficientFunds), Some(&1));
    assert_eq!(summary.error_counts.get(&ErrorCategory::AccountFrozen), None);
    assert!(summary.tx_counts.is_empty());
    assert!(!summary.error_counts.is_empty());
}

#[test]
fn process_record_reports_one_outcome_per_item() {
    let mut engine = PaymentEngine::default();
    let mut agg = Aggregator::new();
    assert!(engine.process_record(0, Ok(raw(TransactionType::Deposit, 1, 1, Some("3"))), &mut agg));
    assert!(engine.process_record(1, Ok(raw(TransactionType::Withdrawal, 1, 2, Some("1"))), &mut agg));
    assert_eq!(agg.events().len(), 2);
    assert!(matches!(agg.events()[1], LedgerEvent::Withdrawn { .. }));
    assert_eq!(agg.errors().len(), 0);
}

#[test]
fn error_categories_follow_the_error() {
    let err = EngineError::ClientMismatch { tx_id: TransactionId(1), expected: ClientId(1), actual: ClientId(2) };
    assert_eq!(ErrorCategory::from(&err), ErrorCategory::ClientMismatch);
    let parse = EngineError::Parse { line: 1, message: String::new() };
    assert_eq!(ErrorCategory::from(&parse), ErrorCategory::ParseError);
    assert_eq!(ErrorCategory::ParseError.position(), 10);
}

#[test]
fn transaction_kinds_have_input_names() {
    assert_eq!(TransactionType::Deposit.as_str(), "deposit");
    assert_eq!(TransactionType::Withdrawal.as_str(), "withdrawal");
    assert_eq!(TransactionType::Dispute.as_str(), "dispute");
    assert_eq!(TransactionType::Resolve.as_str(), "resolve");
    assert_eq!(TransactionType::Chargeback.as_str(), "chargeback");
}

#[test]
fn builder_uses_the_given_repositories() {
    let mut accounts = InMemoryAccountRepo::new();
    accounts.get_or_create(ClientId::new(4)).deposit(amount("2.5"));
    let mut txs = InMemoryTransactionRepo::new();
    txs.store(
        TransactionId::new(9),
        simple_payment_engine::model::transaction::TransactionRecord {
            client: ClientId::new(4),
            amount: amount("2.5"),
            state: TransactionState::Active,
        },
    );
    assert!(txs.contains(&TransactionId::new(9)));
    let mut engine = PaymentEngineBuilder::new().with_account_repo(accounts).with_transaction_repo(txs).build();
    let mut agg = Aggregator::new();
    run(&mut engine, &mut agg, vec![raw(TransactionType::Dispute, 4, 9, None)]);
    let outputs = engine.account_outputs();
    assert_eq!(decimal(outputs[0].held), Decimal::from_str("2.5").unwrap());
    assert_eq!(agg.errors().len(), 0);
}

#[test]
fn repositories_find_what_they_hold() {
    let mut accounts = InMemoryAccountRepo::default();
    assert!(accounts.get(&ClientId::new(1)).is_none());
    assert!(accounts.get_mut(&ClientId::new(1)).is_none());
    accounts.get_or_create(ClientId::new(1));
    accounts.get_mut(&ClientId::new(1)).unwrap().deposit(amount("1"));
    assert_eq!(decimal(accounts.get(&ClientId::new(1)).unwrap().available()), Decimal::ONE);
    let all = accounts.iter();
    assert_eq!(all.len(), 1);
    assert_eq!(all[0].0, ClientId::new(1));

    let mut txs = InMemoryTransactionRepo::default();
    assert!(txs.get(&TransactionId::new(1)).is_none());
    txs.store(
        TransactionId::new(1),
        simple_payment_engine::model::transaction::TransactionRecord {
            client: ClientId::new(1),
            amount: amount("1"),
            state: TransactionState::Active,
        },
    );
    txs.get_mut(&TransactionId::new(1)).unwrap().state = TransactionState::Disputed;
    assert_eq!(txs.get(&TransactionId::new(1)).unwrap().state, TransactionState::Disputed);
}

// ---------------------------------------------------------------------------
// Laws on concrete values
// ---------------------------------------------------------------------------

#[test]
fn law_refusal_changes_nothing() {
    let mut engine = PaymentEngine::default();
    let mut agg = Aggregator::new();
    run(&mut engine, &mut agg, vec![raw(TransactionType::Deposit, 1, 1, Some("5"))]);
    let before = engine.account_outputs();
    run(
        &mut engine,
        &mut agg,
        vec![
            raw(TransactionType::Withdrawal, 1, 2, Some("6")),
            raw(TransactionType::Resolve, 1, 1, None),
            raw(TransactionType::Deposit, 1, 1, Some("5")),
        ],
    );
    let after = engine.account_outputs();
    assert_eq!(before.len(), after.len());
    assert_eq!(decimal(before[0].available), decimal(after[0].available));
    assert_eq!(agg.errors().len(), 3);
}

#[test]
fn law_resolve_undoes_dispute() {
    let mut engine = PaymentEngine::default();
    let mut agg = Aggregator::new();
    run(
        &mut engine,
        &mut agg,
        vec![raw(TransactionType::Deposit, 1, 1, Some("12.5")), raw(TransactionType::Deposit, 1, 2, Some("0.75"))],
    );
    let before = engine.account_outputs();
    run(&mut engine, &mut agg, vec![raw(TransactionType::Dispute, 1, 2, None), raw(TransactionType::Resolve, 1, 2, None)]);
    let after = engine.account_outputs();
    assert_eq!(decimal(before[0].available), decimal(after[0].available));
    assert_eq!(decimal(before[0].held), decimal(after[0].held));
}

#[test]
fn law_every_item_is_recorded_once() {
    let mut engine = PaymentEngine::default();
    let mut agg = Aggregator::new();
    let items = vec![
        raw(TransactionType::Deposit, 1, 1, Some("1")),
        raw(TransactionType::Deposit, 1, 1, Some("1")),
        raw(TransactionType::Dispute, 2, 1, None),
        raw(TransactionType::Withdrawal, 3, 5, Some("0")),
        raw(TransactionType::Dispute, 1, 1, None),
    ];
    let n = items.len();
    run(&mut engine, &mut agg, items);
    assert_eq!(agg.events().len() + agg.errors().len(), n);
    let summary = agg.summarize();
    assert_eq!(summary.total_processed + summary.total_errors, n as u64);
}

#[test]
fn law_other_clients_untouched() {
    let mut engine = PaymentEngine::default();
    let mut agg = Aggregator::new();
    run(&mut engine, &mut agg, vec![raw(TransactionType::Deposit, 1, 1, Some("3")), raw(TransactionType::Deposit, 2, 2, Some("4"))]);
    run(
        &mut engine,
        &mut agg,
        vec![raw(TransactionType::Dispute, 1, 1, None), raw(TransactionType::Chargeback, 1, 1, None)],
    );
    let outputs = engine.account_outputs();
    let other = outputs.iter().find(|o| o.client == ClientId::new(2)).unwrap();
    assert_eq!(decimal(other.available), Decimal::from_str("4").unwrap());
    assert!(!other.locked);
}

#[test]
fn law_held_funds_are_the_disputed_deposits() {
    let mut engine = PaymentEngine::default();
    let mut agg = Aggregator::new();
    run(
        &mut engine,
        &mut agg,
        vec![
            raw(TransactionType::Deposit, 1, 1, Some("1.25")),
            raw(TransactionType::Deposit, 1, 2, Some("2.5")),
            raw(TransactionType::Deposit, 1, 3, Some("4")),
            raw(TransactionType::Dispute, 1, 1, None),
            raw(TransactionType::Dispute, 1, 2, None),
            raw(TransactionType::Dispute, 1, 3, None),
            raw(TransactionType::Resolve, 1, 2, None),
            raw(TransactionType::Chargeback, 1, 3, None),
        ],
    );
    let outputs = engine.account_outputs();
    assert_eq!(decimal(outputs[0].held), Decimal::from_str("1.25").unwrap());
    assert_eq!(decimal(outputs[0].available), Decimal::from_str("2.5").unwrap());
    assert_eq!(decimal(outputs[0].total), Decimal::from_str("3.75").unwrap());
}

#[test]
fn amount_rounding_takes_midpoints_to_even() {
    assert_eq!(decimal(amount("0.00015").round_dp(4)), Decimal::from_str("0.0002").unwrap());
    assert_eq!(decimal(amount("0.00025").round_dp(4)), Decimal::from_str("0.0002").unwrap());
    assert_eq!(decimal(amount("-1.23455").round_dp(4)), Decimal::from_str("-1.2346").unwrap());
    assert_eq!(decimal(amount("-2.00005").round_dp(4)), Decimal::from_str("-2.0000").unwrap());
    let r = amount("7.123456789").round_dp(2);
    assert_eq!(r.mantissa(), 712);
    assert_eq!(r.scale(), 2);
}

#[test]
fn output_total_is_the_sum_of_the_shown_balances() {
    let mut engine = PaymentEngine::default();
    let mut agg = Aggregator::new();
    run(
        &mut engine,
        &mut agg,
        vec![
            raw(TransactionType::Deposit, 1, 1, Some("0.00004")),
            raw(TransactionType::Deposit, 1, 2, Some("0.00004")),
            raw(TransactionType::Dispute, 1, 2, None),
        ],
    );
    let outputs = engine.account_outputs();
    assert_eq!(decimal(outputs[0].available), Decimal::ZERO);
    assert_eq!(decimal(outputs[0].held), Decimal::ZERO);
    assert_eq!(decimal(outputs[0].total), Decimal::ZERO);
    assert_eq!(decimal(outputs[0].total), decimal(outputs[0].available) + decimal(outputs[0].held));
}

#[test]
fn funds_are_deposits_kept_less_withdrawals() {
    let mut engine = PaymentEngine::default();
    let mut agg = Aggregator::new();
    run(
        &mut engine,
        &mut agg,
        vec![
            raw(TransactionType::Deposit, 1, 1, Some("100")),
            raw(TransactionType::Deposit, 1, 2, Some("50")),
            raw(TransactionType::Withdrawal, 1, 3, Some("30")),
            raw(TransactionType::Dispute, 1, 1, None),
            raw(TransactionType::Chargeback, 1, 1, None),
            raw(TransactionType::Withdrawal, 1, 4, Some("5")),
            raw(TransactionType::Deposit, 2, 5, Some("7.5")),
            raw(TransactionType::Withdrawal, 2, 6, Some("2.5")),
            raw(TransactionType::Withdrawal, 2, 7, Some("9")),
        ],
    );
    let outputs = engine.account_outputs();
    assert_eq!(outputs.len(), 2);
    for o in outputs.iter() {
        let funds = decimal(o.available) + decimal(o.held);
        if o.client == ClientId::new(1) {
            // kept deposit 50, withdrawal 30; the later withdrawal is refused (frozen)
            assert_eq!(funds, Decimal::from_str("20").unwrap());
            assert!(o.locked);
        } else {
            // deposit 7.5, withdrawal 2.5; the withdrawal of 9 is refused (insufficient)
            assert_eq!(funds, Decimal::from_str("5").unwrap());
        }
    }
}
