//! Counts of what the engine did and of what it refused.

use std::collections::HashMap;
use std::time::{Duration, Instant};

use crate::error::EngineError;
use crate::model::transaction::TransactionType;
use super::event::LedgerEvent;
use vstd::prelude::*;

verus! {

broadcast use vstd::std_specs::hash::group_hash_axioms;

/// `std::time::Instant`, carried through unread.
#[verifier::external_type_specification]
#[verifier::external_body]
pub struct ExInstant(std::time::Instant);

/// `Instant::now`: the clock's reading, of which nothing is promised.
#[verifier::external_body]
fn now() -> Instant {
    Instant::now()
}

/// `Instant::elapsed`: the time since `start` by the clock, of which nothing
/// is promised.
#[verifier::external_body]
fn elapsed_since(start: &Instant) -> Duration {
    start.elapsed()
}

/// The number of kinds of transaction.
pub const TRANSACTION_KINDS: usize = 5;

/// The number of categories of error.
pub const ERROR_CATEGORIES: usize = 11;

/// What kind of error was recorded.
#[derive(Clone, Copy, Debug, PartialEq, Eq, Hash, Structural)]
pub enum ErrorCategory {
    InsufficientFunds,
    AccountFrozen,
    TransactionNotFound,
    TransactionNotDisputed,
    TransactionAlreadyDisputed,
    TransactionAlreadyChargedBack,
    ClientMismatch,
    DuplicateTransaction,
    InvalidAmount,
    MissingAmount,
    ParseError,
}

/// The category of an error: input and parsing failures fall under
/// `ParseError`, the others under their own name.
pub open spec fn category_of(err: EngineError) -> ErrorCategory {
    match err {
        EngineError::InsufficientFunds { .. } => ErrorCategory::InsufficientFunds,
        EngineError::AccountFrozen { .. } => ErrorCategory::AccountFrozen,
        EngineError::TransactionNotFound { .. } => ErrorCategory::TransactionNotFound,
        EngineError::TransactionNotDisputed { .. } => ErrorCategory::TransactionNotDisputed,
        EngineError::TransactionAlreadyDisputed { .. } => ErrorCategory::TransactionAlreadyDisputed,
        EngineError::TransactionAlreadyChargedBack { .. } => ErrorCategory::TransactionAlreadyChargedBack,
        EngineError::ClientMismatch { .. } => ErrorCategory::ClientMismatch,
        EngineError::DuplicateTransaction { .. } => ErrorCategory::DuplicateTransaction,
        EngineError::InvalidAmount { .. } => ErrorCategory::InvalidAmount,
        EngineError::MissingAmount { .. } => ErrorCategory::MissingAmount,
        _ => ErrorCategory::ParseError,
    }
}

/// Each refusal is counted under the category of its own name, distinct
/// for distinct refusals; input and parsing failures are counted as parse
/// errors, and no refusal is.
pub proof fn lemma_error_categories(e: EngineError)
    ensures
        e is InsufficientFunds <==> category_of(e) == ErrorCategory::InsufficientFunds,
        e is AccountFrozen <==> category_of(e) == ErrorCategory::AccountFrozen,
        e is TransactionNotFound <==> category_of(e) == ErrorCategory::TransactionNotFound,
        e is TransactionNotDisputed <==> category_of(e) == ErrorCategory::TransactionNotDisputed,
        e is TransactionAlreadyDisputed <==> category_of(e) == ErrorCategory::TransactionAlreadyDisputed,
        e is TransactionAlreadyChargedBack <==> category_of(e) == ErrorCategory::TransactionAlreadyChargedBack,
        e is ClientMismatch <==> category_of(e) == ErrorCategory::ClientMismatch,
        e is DuplicateTransaction <==> category_of(e) == ErrorCategory::DuplicateTransaction,
        e is InvalidAmount <==> category_of(e) == ErrorCategory::InvalidAmount,
        e is MissingAmount <==> category_of(e) == ErrorCategory::MissingAmount,
        (e is Io || e is Csv || e is Parse) <==> category_of(e) == ErrorCategory::ParseError,
{
}

impl ErrorCategory {
    /// The position of the category in the order of declaration.
    pub open spec fn index(self) -> int {
        match self {
            ErrorCategory::InsufficientFunds => 0,
            ErrorCategory::AccountFrozen => 1,
            ErrorCategory::TransactionNotFound => 2,
            ErrorCategory::TransactionNotDisputed => 3,
            ErrorCategory::TransactionAlreadyDisputed => 4,
            ErrorCategory::TransactionAlreadyChargedBack => 5,
            ErrorCategory::ClientMismatch => 6,
            ErrorCategory::DuplicateTransaction => 7,
            ErrorCategory::InvalidAmount => 8,
            ErrorCategory::MissingAmount => 9,
            ErrorCategory::ParseError => 10,
        }
    }

    /// The position of the category in the order of declaration.
    pub fn position(&self) -> (r: usize)
        ensures
            r == self.index(),
    {
        match self {
            ErrorCategory::InsufficientFunds => 0,
            ErrorCategory::AccountFrozen => 1,
            ErrorCategory::TransactionNotFound => 2,
            ErrorCategory::TransactionNotDisputed => 3,
            ErrorCategory::TransactionAlreadyDisputed => 4,
            ErrorCategory::TransactionAlreadyChargedBack => 5,
            ErrorCategory::ClientMismatch => 6,
            ErrorCategory::DuplicateTransaction => 7,
            ErrorCategory::InvalidAmount => 8,
            ErrorCategory::MissingAmount => 9,
            ErrorCategory::ParseError => 10,
        }
    }
}

impl<'a> From<&'a EngineError> for ErrorCategory {
    fn from(err: &'a EngineError) -> (r: ErrorCategory) {
        match err {
            EngineError::InsufficientFunds { .. } => ErrorCategory::InsufficientFunds,
            EngineError::AccountFrozen { .. } => ErrorCategory::AccountFrozen,
            EngineError::TransactionNotFound { .. } => ErrorCategory::TransactionNotFound,
            EngineError::TransactionNotDisputed { .. } => ErrorCategory::TransactionNotDisputed,
            EngineError::TransactionAlreadyDisputed { .. } => ErrorCategory::TransactionAlreadyDisputed,
            EngineError::TransactionAlreadyChargedBack { .. } => ErrorCategory::TransactionAlreadyChargedBack,
            EngineError::ClientMismatch { .. } => ErrorCategory::ClientMismatch,
            EngineError::DuplicateTransaction { .. } => ErrorCategory::DuplicateTransaction,
            EngineError::InvalidAmount { .. } => ErrorCategory::InvalidAmount,
            EngineError::MissingAmount { .. } => ErrorCategory::MissingAmount,
            _ => ErrorCategory::ParseError,
        }
    }
}

impl<'a> vstd::std_specs::convert::FromSpecImpl<&'a EngineError> for ErrorCategory {
    open spec fn obeys_from_spec() -> bool {
        true
    }

    open spec fn from_spec(err: &'a EngineError) -> ErrorCategory {
        category_of(*err)
    }
}

/// How many of `events` came from transactions of kind `t`.
pub open spec fn count_kind(events: Seq<LedgerEvent>, t: TransactionType) -> nat
    decreases events.len(),
{
    if events.len() == 0 {
        0
    } else {
        count_kind(events.drop_last(), t) + if events.last().kind() == t {
            1nat
        } else {
            0nat
        }
    }
}

/// The count that `m` keeps under `k`: zero where it has none.
pub open spec fn count_at(m: Map<usize, u64>, k: usize) -> nat {
    if m.contains_key(k) {
        m[k] as nat
    } else {
        0
    }
}

/// The counts that `m` keeps under the keys below `n`, added up.
pub open spec fn counts_total(m: Map<usize, u64>, n: nat) -> nat
    decreases n,
{
    if n == 0 {
        0
    } else {
        counts_total(m, (n - 1) as nat) + count_at(m, (n - 1) as usize)
    }
}

/// Whether `m` keeps a count, never zero, only under keys below `n`.
pub open spec fn counts_below(m: Map<usize, u64>, n: nat) -> bool {
    forall|k: usize| #[trigger] m.contains_key(k) ==> k < n && m[k] > 0
}

proof fn lemma_count_kind_bounded(events: Seq<LedgerEvent>, t: TransactionType)
    ensures
        count_kind(events, t) <= events.len(),
    decreases events.len(),
{
    if events.len() > 0 {
        lemma_count_kind_bounded(events.drop_last(), t);
    }
}

proof fn lemma_count_kind_push(events: Seq<LedgerEvent>, e: LedgerEvent, t: TransactionType)
    ensures
        count_kind(events.push(e), t) == count_kind(events, t) + if e.kind() == t {
            1nat
        } else {
            0nat
        },
{
    assert(events.push(e).drop_last() =~= events);
}

/// Nothing counted adds up to nothing.
proof fn lemma_counts_total_empty(n: nat)
    requires
        n <= usize::MAX,
    ensures
        counts_total(Map::empty(), n) == 0,
    decreases n,
{
    if n > 0 {
        lemma_counts_total_empty((n - 1) as nat);
    }
}

/// One count is at most the total of the counts it is among.
proof fn lemma_count_within_total(m: Map<usize, u64>, n: nat, k: usize)
    requires
        k < n <= usize::MAX,
    ensures
        count_at(m, k) <= counts_total(m, n),
    decreases n,
{
    if k < n - 1 {
        lemma_count_within_total(m, (n - 1) as nat, k);
    }
}

/// Counting one more under `k` adds one to the total of the counts
/// under the keys below `n` when `k` is one of them, and nothing otherwise.
proof fn lemma_counts_total_increment(m: Map<usize, u64>, n: nat, k: usize, v: u64)
    requires
        n <= usize::MAX,
        v == count_at(m, k) + 1,
    ensures
        counts_total(m.insert(k, v), n) == counts_total(m, n) + if k < n {
            1nat
        } else {
            0nat
        },
    decreases n,
{
    if n > 0 {
        lemma_counts_total_increment(m, (n - 1) as nat, k, v);
    }
}

/// How many transactions of each kind went through, under the position of
/// the kind; a kind with none has no entry.
#[derive(Debug)]
pub struct TxCounts {
    counts: HashMap<usize, u64>,
}

impl TxCounts {
    /// The counts, under the position of each kind.
    pub closed spec fn spec_counts(self) -> Map<usize, u64> {
        self.counts@
    }

    /// The count of kind `t`, where there is one.
    pub fn get(&self, t: &TransactionType) -> (r: Option<&u64>)
        ensures
            match r {
                Some(c) => self.spec_counts().contains_key(t.index() as usize) && *c == self.spec_counts()[t.index() as usize],
                None => !self.spec_counts().contains_key(t.index() as usize),
            },
    {
        let i = t.position();
        self.counts.get(&i)
    }

    /// Whether no transaction was counted.
    pub fn is_empty(&self) -> (r: bool)
        ensures
            r == self.spec_counts().is_empty(),
    {
        self.counts.is_empty()
    }
}

/// How many errors of each category were recorded, under the position of
/// the category; a category with none has no entry.
#[derive(Debug)]
pub struct ErrorCounts {
    counts: HashMap<usize, u64>,
}

impl ErrorCounts {
    /// The counts, under the position of each category.
    pub closed spec fn spec_counts(self) -> Map<usize, u64> {
        self.counts@
    }

    /// The count of category `c`, where there is one.
    pub fn get(&self, c: &ErrorCategory) -> (r: Option<&u64>)
        ensures
            match r {
                Some(n) => self.spec_counts().contains_key(c.index() as usize) && *n == self.spec_counts()[c.index() as usize],
                None => !self.spec_counts().contains_key(c.index() as usize),
            },
    {
        let i = c.position();
        self.counts.get(&i)
    }

    /// Whether no error was counted.
    pub fn is_empty(&self) -> (r: bool)
        ensures
            r == self.spec_counts().is_empty(),
    {
        self.counts.is_empty()
    }
}

/// What the aggregator has recorded.
pub struct AggregatorView {
    pub events: Seq<LedgerEvent>,
    pub errors: Seq<EngineError>,
    pub tx_counts: Map<usize, u64>,
    pub error_counts: Map<usize, u64>,
}

impl AggregatorView {
    /// Nothing recorded yet.
    pub open spec fn empty() -> AggregatorView {
        AggregatorView {
            events: Seq::empty(),
            errors: Seq::empty(),
            tx_counts: Map::empty(),
            error_counts: Map::empty(),
        }
    }

    /// The counts agree with what was recorded: each kind's count is the
    /// number of its events, and the error counts add up to the errors; only
    /// kinds and categories seen have an entry.
    pub open spec fn wf(self) -> bool {
        &&& counts_below(self.tx_counts, TRANSACTION_KINDS as nat)
        &&& counts_below(self.error_counts, ERROR_CATEGORIES as nat)
        &&& forall|t: TransactionType| count_at(self.tx_counts, t.index() as usize) == #[trigger] count_kind(self.events, t)
        &&& counts_total(self.error_counts, ERROR_CATEGORIES as nat) == self.errors.len()
    }

    /// `e` recorded, counted under its kind.
    pub open spec fn with_event(self, e: LedgerEvent) -> AggregatorView {
        let i = e.kind().index() as usize;
        AggregatorView {
            events: self.events.push(e),
            tx_counts: self.tx_counts.insert(i, (count_at(self.tx_counts, i) + 1) as u64),
            ..self
        }
    }

    /// `e` recorded, counted under category `c`.
    pub open spec fn with_error_in(self, e: EngineError, c: ErrorCategory) -> AggregatorView {
        let i = c.index() as usize;
        AggregatorView {
            errors: self.errors.push(e),
            error_counts: self.error_counts.insert(i, (count_at(self.error_counts, i) + 1) as u64),
            ..self
        }
    }

    /// `e` recorded, counted under its own category.
    pub open spec fn with_error(self, e: EngineError) -> AggregatorView {
        self.with_error_in(e, category_of(e))
    }

    /// `e` recorded, counted as a parse error.
    pub open spec fn with_parse_error(self, e: EngineError) -> AggregatorView {
        self.with_error_in(e, ErrorCategory::ParseError)
    }
}

/// Records what the engine did and what it refused.
pub struct Aggregator {
    events: Vec<LedgerEvent>,
    errors: Vec<EngineError>,
    tx_counts: HashMap<usize, u64>,
    error_counts: HashMap<usize, u64>,
    started_at: Instant,
}

impl View for Aggregator {
    type V = AggregatorView;

    closed spec fn view(&self) -> AggregatorView {
        AggregatorView {
            events: self.events@,
            errors: self.errors@,
            tx_counts: self.tx_counts@,
            error_counts: self.error_counts@,
        }
    }
}

/// A summary of what was recorded.
#[derive(Debug)]
pub struct AggregatorSummary {
    pub total_processed: u64,
    pub total_errors: u64,
    pub tx_counts: TxCounts,
    pub error_counts: ErrorCounts,
    pub processing_duration: Duration,
}

impl Aggregator {
    /// What is recorded always agrees with the counts.
    #[verifier::type_invariant]
    pub open spec fn consistent(self) -> bool {
        self@.wf()
    }

    /// An aggregator with nothing recorded, timing from now.
    pub fn new() -> (r: Aggregator)
        ensures
            r@ == AggregatorView::empty(),
            r@.wf(),
    {
        proof {
            lemma_counts_total_empty(ERROR_CATEGORIES as nat);
        }
        Aggregator {
            events: Vec::new(),
            errors: Vec::new(),
            tx_counts: HashMap::new(),
            error_counts: HashMap::new(),
            started_at: now(),
        }
    }

    /// Takes out what was recorded, leaving nothing recorded (and the same
    /// start time) behind, so that the parts can be updated together.
    fn take_contents(&mut self) -> (r: (Vec<LedgerEvent>, Vec<EngineError>, HashMap<usize, u64>, HashMap<usize, u64>))
        ensures
            final(self)@ == AggregatorView::empty(),
            old(self)@ == (AggregatorView { events: r.0@, errors: r.1@, tx_counts: r.2@, error_counts: r.3@ }),
            old(self)@.wf(),
    {
        proof {
            use_type_invariant(&*self);
            lemma_counts_total_empty(ERROR_CATEGORIES as nat);
        }
        let mut taken = Aggregator {
            events: Vec::new(),
            errors: Vec::new(),
            tx_counts: HashMap::new(),
            error_counts: HashMap::new(),
            started_at: self.started_at,
        };
        std::mem::swap(self, &mut taken);
        let Aggregator { events, errors, tx_counts, error_counts, .. } = taken;
        (events, errors, tx_counts, error_counts)
    }

    /// Records a transaction that went through.
    pub fn record_event(&mut self, event: LedgerEvent)
        ensures
            final(self)@ == old(self)@.with_event(event),
            final(self)@.wf(),
    {
        let i = match &event {
            LedgerEvent::Deposited { .. } => TransactionType::Deposit,
            LedgerEvent::Withdrawn { .. } => TransactionType::Withdrawal,
            LedgerEvent::DisputeOpened { .. } => TransactionType::Dispute,
            LedgerEvent::DisputeResolved { .. } => TransactionType::Resolve,
            LedgerEvent::ChargedBack { .. } => TransactionType::Chargeback,
        }.position();
        let ghost before = self@;
        let (mut events, errors, mut tx_counts, error_counts) = self.take_contents();
        let c: u64 = match tx_counts.get(&i) {
            Some(n) => *n,
            None => 0,
        };
        proof {
            assert(c == count_kind(before.events, event.kind()));
            lemma_count_kind_bounded(before.events, event.kind());
        }
        events.push(event);
        // The count is at most the number of earlier events, so one more fits.
        let recorded = events.len();
        assert(c < recorded);
        tx_counts.insert(i, c + 1);
        proof {
            assert forall|t: TransactionType|
                count_at(tx_counts@, t.index() as usize) == #[trigger] count_kind(events@, t) by {
                lemma_count_kind_push(before.events, event, t);
            }
        }
        *self = Aggregator { events, errors, tx_counts, error_counts, started_at: self.started_at };
    }

    fn record_error_in(&mut self, error: EngineError, category: ErrorCategory)
        ensures
            final(self)@ == old(self)@.with_error_in(error, category),
            final(self)@.wf(),
    {
        let i = category.position();
        let ghost before = self@;
        let (events, mut errors, tx_counts, mut error_counts) = self.take_contents();
        let c: u64 = match error_counts.get(&i) {
            Some(n) => *n,
            None => 0,
        };
        proof {
            assert(c == count_at(before.error_counts, i));
            lemma_count_within_total(before.error_counts, ERROR_CATEGORIES as nat, i);
        }
        errors.push(error);
        // The count is at most the number of earlier errors, so one more fits.
        let recorded = errors.len();
        assert(c < recorded);
        error_counts.insert(i, c + 1);
        proof {
            lemma_counts_total_increment(before.error_counts, ERROR_CATEGORIES as nat, i, (c + 1) as u64);
            assert(counts_below(error_counts@, ERROR_CATEGORIES as nat));
            assert(counts_total(error_counts@, ERROR_CATEGORIES as nat) == errors@.len());
            assert(before.wf());
            assert(before.events == events@ && before.tx_counts == tx_counts@);
        }
        *self = Aggregator { events, errors, tx_counts, error_counts, started_at: self.started_at };
    }

    /// Records a refused transaction, counted under its category.
    pub fn record_error(&mut self, error: EngineError)
        ensures
            final(self)@ == old(self)@.with_error(error),
            final(self)@.wf(),
    {
        let category = ErrorCategory::from(&error);
        self.record_error_in(error, category);
    }

    /// Records an input line that could not be read, counted as a parse error.
    pub fn record_parse_error(&mut self, line: usize, error: EngineError)
        ensures
            final(self)@ == old(self)@.with_parse_error(error),
            final(self)@.wf(),
    {
        self.record_error_in(error, ErrorCategory::ParseError);
    }

    /// The totals and the counts by kind and by category.
    pub fn summarize(&self) -> (r: AggregatorSummary)
        ensures
            r.total_processed == self@.events.len(),
            r.total_errors == self@.errors.len(),
            r.tx_counts.spec_counts() == self@.tx_counts,
            r.error_counts.spec_counts() == self@.error_counts,
    {
        AggregatorSummary {
            total_processed: self.events.len() as u64,
            total_errors: self.errors.len() as u64,
            tx_counts: TxCounts { counts: self.tx_counts.clone() },
            error_counts: ErrorCounts { counts: self.error_counts.clone() },
            processing_duration: elapsed_since(&self.started_at),
        }
    }

    /// The transactions that went through, in order.
    pub fn events(&self) -> (r: &[LedgerEvent])
        ensures
            r@ == self@.events,
    {
        self.events.as_slice()
    }

    /// The errors recorded, in order.
    pub fn errors(&self) -> (r: &[EngineError])
        ensures
            r@ == self@.errors,
    {
        self.errors.as_slice()
    }
}

impl Default for Aggregator {
    fn default() -> (r: Aggregator)
        ensures
            r@ == AggregatorView::empty(),
            r@.wf(),
    {
        Aggregator::new()
    }
}

/// The events of all kinds together.
pub open spec fn count_all_kinds(events: Seq<LedgerEvent>) -> nat {
    count_kind(events, TransactionType::Deposit) + count_kind(events, TransactionType::Withdrawal)
        + count_kind(events, TransactionType::Dispute) + count_kind(events, TransactionType::Resolve)
        + count_kind(events, TransactionType::Chargeback)
}

proof fn lemma_count_all_kinds(events: Seq<LedgerEvent>)
    ensures
        count_all_kinds(events) == events.len(),
    decreases events.len(),
{
    if events.len() > 0 {
        lemma_count_all_kinds(events.drop_last());
    }
}

/// The counts by kind add up to the number of events recorded, as the
/// counts by category add up to the number of errors.
pub proof fn lemma_counts_add_up(agg: AggregatorView)
    requires
        agg.wf(),
    ensures
        counts_total(agg.tx_counts, TRANSACTION_KINDS as nat) == agg.events.len(),
        counts_total(agg.error_counts, ERROR_CATEGORIES as nat) == agg.errors.len(),
{
    lemma_count_all_kinds(agg.events);
    let c = agg.tx_counts;
    assert(count_at(c, 0) == count_kind(agg.events, TransactionType::Deposit));
    assert(count_at(c, 1) == count_kind(agg.events, TransactionType::Withdrawal));
    assert(count_at(c, 2) == count_kind(agg.events, TransactionType::Dispute));
    assert(count_at(c, 3) == count_kind(agg.events, TransactionType::Resolve));
    assert(count_at(c, 4) == count_kind(agg.events, TransactionType::Chargeback));
    reveal_with_fuel(counts_total, 6);
}

} // verus!
