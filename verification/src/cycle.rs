//! One table's sync cycle as a machine of decisions.
//!
//! The caller owns the local connection and the remote endpoint. It performs
//! each [`Action`] the machine hands out and reports what came of it as an
//! [`Event`]; the machine decides what happens next. A cycle pushes the local
//! rows changed since the watermark, pulls the remote rows changed since the
//! same watermark inside one local write transaction, and ends by writing the
//! ledger. When a cycle finishes with an error while the local write
//! transaction is open, the caller drops the transaction.

use vstd::prelude::*;
use crate::sql::{
    column_text, key_complete, key_condition_texts, key_conditions, ledger_select_sql,
    ledger_select_text, ledger_upsert_sql, ledger_upsert_text, local_upsert_sql,
    local_upsert_text, push_statement_texts, push_statements, select_changed_sql,
    select_changed_text, stamp_lookup_sql, stamp_lookup_text, value_of_column,
};
use crate::text::{integer_value, is_i64_text, parse_i64, text_greater, text_less};
use crate::watermark::{
    legacy_millis, normalize_watermark, now_text, now_watermark, resolved_text, zero_text,
    zero_watermark,
};

verus! {

/// A row: nullable texts, aligned with the table's column list.
pub type Row = Vec<Option<String>>;

/// A row as contracts see it.
pub type RowView = Seq<Option<Seq<char>>>;

/// What a cycle needs to know of its table.
#[derive(Clone, Debug, PartialEq, Eq)]
pub struct TablePlan {
    pub table: String,
    pub columns: Vec<String>,
    pub pks: Vec<String>,
    /// Whether `updated_at` is integer-typed: epoch milliseconds, not a
    /// date-time text.
    pub integer_typed: bool,
}

/// A [`TablePlan`] as contracts see it.
pub struct PlanView {
    pub table: Seq<char>,
    pub columns: Seq<Seq<char>>,
    pub pks: Seq<Seq<char>>,
    pub integer_typed: bool,
}

impl View for TablePlan {
    type V = PlanView;

    open spec fn view(&self) -> PlanView {
        PlanView {
            table: self.table@,
            columns: self.columns.deep_view(),
            pks: self.pks.deep_view(),
            integer_typed: self.integer_typed,
        }
    }
}

/// Where a cycle stands: what it is waiting for.
#[derive(Clone, Copy, Debug, PartialEq, Eq)]
pub enum Phase {
    /// The stored watermark was asked for.
    ReadingLedger,
    /// The local rows changed since the watermark were asked for.
    SelectingLocal,
    /// The upsert batch was sent to the remote side.
    Pushing,
    /// The remote rows changed since the watermark were asked for.
    FetchingRemote,
    /// The local write transaction is being opened.
    OpeningWrite,
    /// The local `updated_at` of the row under the cursor was asked for.
    CheckingRow,
    /// The row under the cursor is being written locally.
    ApplyingRow,
    /// The local write transaction is being committed.
    Committing,
    /// The ledger row is being written.
    WritingLedger,
    /// The cycle is over.
    Finished,
}

/// What the caller reports back.
#[derive(Debug, PartialEq, Eq)]
pub enum Event {
    /// The rows of a local query, or the storage error.
    LocalRows(Result<Vec<Row>, String>),
    /// The outcome of a remote batch.
    RemoteDone(Result<(), String>),
    /// The rows of a remote query, or the failure.
    RemoteRows(Result<Vec<Row>, String>),
    /// The local `updated_at` of the row asked for, none where there is no
    /// such row or the row holds none, or the storage error of the lookup.
    LocalStamp(Result<Option<String>, String>),
    /// The outcome of a local write, or of opening or committing the
    /// transaction.
    LocalDone(Result<(), String>),
}

/// An [`Event`] as contracts see it.
pub enum EventView {
    LocalRows(Result<Seq<RowView>, Seq<char>>),
    RemoteDone(Result<(), Seq<char>>),
    RemoteRows(Result<Seq<RowView>, Seq<char>>),
    LocalStamp(Result<Option<Seq<char>>, Seq<char>>),
    LocalDone(Result<(), Seq<char>>),
}

/// The rows of a query's outcome as contracts see them.
pub open spec fn rows_view(outcome: Result<Vec<Row>, String>) -> Result<Seq<RowView>, Seq<char>> {
    match outcome {
        Ok(rows) => Ok(rows.deep_view()),
        Err(message) => Err(message@),
    }
}

/// The outcome of a write as contracts see it.
pub open spec fn done_view(outcome: Result<(), String>) -> Result<(), Seq<char>> {
    match outcome {
        Ok(_) => Ok(()),
        Err(message) => Err(message@),
    }
}

impl View for Event {
    type V = EventView;

    open spec fn view(&self) -> EventView {
        match self {
            Event::LocalRows(outcome) => EventView::LocalRows(rows_view(*outcome)),
            Event::RemoteDone(outcome) => EventView::RemoteDone(done_view(*outcome)),
            Event::RemoteRows(outcome) => EventView::RemoteRows(rows_view(*outcome)),
            Event::LocalStamp(outcome) => EventView::LocalStamp(
                match outcome {
                    Ok(stamp) => Ok(stamp.deep_view()),
                    Err(message) => Err(message@),
                },
            ),
            Event::LocalDone(outcome) => EventView::LocalDone(done_view(*outcome)),
        }
    }
}

/// What the caller is to do next.
#[derive(Debug, PartialEq, Eq)]
pub enum Action {
    /// Run a query on the local database and report its rows.
    QueryLocal(String),
    /// Send the statements to the remote side as one batch.
    RemoteBatch(Vec<String>),
    /// Run a query on the remote side and report its rows.
    RemoteFetch(String),
    /// Open the local write transaction.
    BeginLocalWrite,
    /// Ask the local database for the `updated_at` of one row.
    LookupStamp(String),
    /// Run a statement on the local database.
    ExecLocal(String),
    /// Commit the local write transaction.
    CommitLocalWrite,
    /// Stop: the cycle is over, with this outcome.
    Finish(Result<(), String>),
}

/// An [`Action`] as contracts see it.
pub enum ActionView {
    QueryLocal(Seq<char>),
    RemoteBatch(Seq<Seq<char>>),
    RemoteFetch(Seq<char>),
    BeginLocalWrite,
    LookupStamp(Seq<char>),
    ExecLocal(Seq<char>),
    CommitLocalWrite,
    Finish(Result<(), Seq<char>>),
}

impl View for Action {
    type V = ActionView;

    open spec fn view(&self) -> ActionView {
        match self {
            Action::QueryLocal(sql) => ActionView::QueryLocal(sql@),
            Action::RemoteBatch(statements) => ActionView::RemoteBatch(statements.deep_view()),
            Action::RemoteFetch(sql) => ActionView::RemoteFetch(sql@),
            Action::BeginLocalWrite => ActionView::BeginLocalWrite,
            Action::LookupStamp(sql) => ActionView::LookupStamp(sql@),
            Action::ExecLocal(sql) => ActionView::ExecLocal(sql@),
            Action::CommitLocalWrite => ActionView::CommitLocalWrite,
            Action::Finish(outcome) => ActionView::Finish(done_view(*outcome)),
        }
    }
}

/// A cycle as contracts see it.
pub struct CycleView {
    pub plan: PlanView,
    /// The clock reading taken when the cycle began.
    pub now: Seq<char>,
    /// The watermark that both deltas are filtered by.
    pub watermark: Seq<char>,
    pub phase: Phase,
    /// The remote delta.
    pub incoming: Seq<RowView>,
    /// How many rows of the remote delta are dealt with.
    pub cursor: nat,
    /// How many local rows were pushed.
    pub pushed: nat,
    /// How many incoming rows were written locally.
    pub applied: nat,
    /// How many incoming rows lost to a newer local row.
    pub conflicts: nat,
    /// How many incoming rows lacked a primary-key value.
    pub skipped: nat,
}

impl CycleView {
    /// The row under the cursor.
    pub open spec fn current(self) -> RowView {
        self.incoming[self.cursor as int]
    }

    /// The cycle has not come to the remote delta yet.
    pub open spec fn before_pull(self) -> bool {
        ||| self.phase == Phase::ReadingLedger
        ||| self.phase == Phase::SelectingLocal
        ||| self.phase == Phase::Pushing
        ||| self.phase == Phase::FetchingRemote
    }

    /// The counters account for the rows passed, none is passed before the
    /// remote delta is there, and a row that is being checked or written
    /// carries its whole primary key.
    pub open spec fn wf(self) -> bool {
        &&& self.cursor <= self.incoming.len()
        &&& self.applied + self.conflicts + self.skipped == self.cursor
        &&& self.before_pull() ==> self.cursor == 0
        &&& (self.phase == Phase::CheckingRow || self.phase == Phase::ApplyingRow) ==> {
            &&& self.cursor < self.incoming.len()
            &&& key_complete(self.plan.columns, self.plan.pks, self.current())
        }
    }

    /// The same cycle in another phase.
    pub open spec fn at(self, phase: Phase) -> CycleView {
        CycleView { phase, ..self }
    }
}

/// The message of a cycle that was handed an event it did not ask for.
pub open spec fn unexpected_text() -> Seq<char> {
    "Unexpected event for this phase of the cycle"@
}

/// The cycle ends with an error.
pub open spec fn failed(c: CycleView, message: Seq<char>) -> (CycleView, ActionView) {
    (c.at(Phase::Finished), ActionView::Finish(Err(message)))
}

/// The cycle asks the remote side for its delta.
pub open spec fn fetching(c: CycleView) -> (CycleView, ActionView) {
    (
        c.at(Phase::FetchingRemote),
        ActionView::RemoteFetch(
            select_changed_text(c.plan.table, c.plan.columns, c.watermark, c.plan.integer_typed),
        ),
    )
}

/// The cycle writes the ledger: the watermark becomes the clock reading taken
/// at its start.
pub open spec fn closing(c: CycleView) -> (CycleView, ActionView) {
    (
        c.at(Phase::WritingLedger),
        ActionView::ExecLocal(ledger_upsert_text(c.plan.table, c.now)),
    )
}

/// The cycle moves to the next incoming row that carries its whole primary
/// key and asks for its local `updated_at`, counting the rows it passes over
/// as skipped; with no such row left it commits.
pub open spec fn advancing(c: CycleView) -> (CycleView, ActionView)
    decreases c.incoming.len() - c.cursor,
{
    if c.cursor >= c.incoming.len() {
        (c.at(Phase::Committing), ActionView::CommitLocalWrite)
    } else if key_complete(c.plan.columns, c.plan.pks, c.current()) {
        (
            c.at(Phase::CheckingRow),
            ActionView::LookupStamp(
                stamp_lookup_text(
                    c.plan.table,
                    key_condition_texts(c.plan.columns, c.plan.pks, c.current()),
                ),
            ),
        )
    } else {
        advancing(CycleView { cursor: c.cursor + 1, skipped: c.skipped + 1, ..c })
    }
}

/// Moving on does not depend on the phase it starts from.
pub proof fn lemma_advancing_from_any_phase(c: CycleView, phase: Phase)
    ensures
        advancing(c.at(phase)) == advancing(c),
    decreases c.incoming.len() - c.cursor,
{
    if c.cursor < c.incoming.len() && !key_complete(c.plan.columns, c.plan.pks, c.current()) {
        let further = CycleView { cursor: c.cursor + 1, skipped: c.skipped + 1, ..c };
        lemma_advancing_from_any_phase(further, phase);
        assert(further.at(phase) == CycleView {
            cursor: c.cursor + 1,
            skipped: c.skipped + 1,
            ..c.at(phase)
        });
    }
}

/// What the ledger holds for a table: the first value of the first row, or
/// the zero watermark where the ledger has no entry or no value for it.
pub open spec fn stored_text(rows: Seq<RowView>, integer_typed: bool) -> Seq<char> {
    if rows.len() > 0 && rows[0].len() > 0 && rows[0][0] is Some {
        rows[0][0].unwrap()
    } else {
        zero_text(integer_typed)
    }
}

/// The incoming `updated_at` is before the local one. On an integer table,
/// where both are integers, the smaller number is before; everywhere else
/// the order is that of text, which is the order in time of date-time texts.
pub open spec fn stamp_before(incoming: Seq<char>, local: Seq<char>, integer_typed: bool) -> bool {
    if integer_typed && is_i64_text(local) && is_i64_text(incoming) {
        integer_value(incoming) < integer_value(local)
    } else {
        text_less(incoming, local)
    }
}

/// The local row wins: it exists and its `updated_at` is greater than the
/// incoming one. A tie goes to the incoming row.
pub open spec fn local_wins(
    local: Option<Seq<char>>,
    incoming_stamp: Seq<char>,
    integer_typed: bool,
) -> bool {
    match local {
        Some(stamp) => stamp_before(incoming_stamp, stamp, integer_typed),
        None => false,
    }
}

/// The `updated_at` that an incoming row carries, empty where it carries none.
pub open spec fn incoming_stamp(c: CycleView) -> Seq<char> {
    column_text(c.plan.columns, c.current(), "updated_at"@)
}

/// The first state of a cycle and its first action: ask the ledger.
pub open spec fn begun(plan: PlanView, now: Seq<char>) -> (CycleView, ActionView) {
    (
        CycleView {
            plan,
            now,
            watermark: zero_text(plan.integer_typed),
            phase: Phase::ReadingLedger,
            incoming: Seq::empty(),
            cursor: 0,
            pushed: 0,
            applied: 0,
            conflicts: 0,
            skipped: 0,
        },
        ActionView::QueryLocal(ledger_select_text(plan.table)),
    )
}

/// The state and the action that follow an event.
pub open spec fn next(c: CycleView, event: EventView) -> (CycleView, ActionView) {
    match (c.phase, event) {
        (Phase::ReadingLedger, EventView::LocalRows(Err(message))) => failed(c, message),
        (Phase::ReadingLedger, EventView::LocalRows(Ok(ledger))) => {
            let stored = stored_text(ledger, c.plan.integer_typed);
            let watermark = resolved_text(stored, c.plan.integer_typed, legacy_millis(stored));
            let c1 = CycleView { watermark, ..c };
            if c.plan.columns.len() == 0 {
                fetching(c1)
            } else {
                (
                    c1.at(Phase::SelectingLocal),
                    ActionView::QueryLocal(
                        select_changed_text(
                            c.plan.table,
                            c.plan.columns,
                            watermark,
                            c.plan.integer_typed,
                        ),
                    ),
                )
            }
        },
        (Phase::SelectingLocal, EventView::LocalRows(Ok(rows))) => {
            if rows.len() == 0 {
                fetching(c)
            } else {
                (
                    CycleView { pushed: rows.len(), ..c }.at(Phase::Pushing),
                    ActionView::RemoteBatch(
                        push_statement_texts(c.plan.table, c.plan.columns, c.plan.pks, rows),
                    ),
                )
            }
        },
        (Phase::SelectingLocal, EventView::LocalRows(Err(message))) => failed(c, message),
        (Phase::Pushing, EventView::RemoteDone(Ok(_))) => fetching(c),
        (Phase::Pushing, EventView::RemoteDone(Err(message))) => failed(c, message),
        (Phase::FetchingRemote, EventView::RemoteRows(Ok(rows))) => {
            if rows.len() == 0 {
                closing(c)
            } else {
                (
                    CycleView {
                        incoming: rows,
                        cursor: 0,
                        applied: 0,
                        conflicts: 0,
                        skipped: 0,
                        ..c
                    }.at(Phase::OpeningWrite),
                    ActionView::BeginLocalWrite,
                )
            }
        },
        (Phase::FetchingRemote, EventView::RemoteRows(Err(message))) => failed(c, message),
        (Phase::OpeningWrite, EventView::LocalDone(Ok(_))) => advancing(c),
        (Phase::OpeningWrite, EventView::LocalDone(Err(message))) => failed(c, message),
        (Phase::CheckingRow, EventView::LocalStamp(Ok(local))) => {
            if local_wins(local, incoming_stamp(c), c.plan.integer_typed) {
                advancing(CycleView { cursor: c.cursor + 1, conflicts: c.conflicts + 1, ..c })
            } else {
                (
                    c.at(Phase::ApplyingRow),
                    ActionView::ExecLocal(
                        local_upsert_text(c.plan.table, c.plan.columns, c.current()),
                    ),
                )
            }
        },
        (Phase::CheckingRow, EventView::LocalStamp(Err(message))) => failed(c, message),
        (Phase::ApplyingRow, EventView::LocalDone(Ok(_))) => advancing(
            CycleView { cursor: c.cursor + 1, applied: c.applied + 1, ..c },
        ),
        (Phase::ApplyingRow, EventView::LocalDone(Err(message))) => failed(c, message),
        (Phase::Committing, EventView::LocalDone(Ok(_))) => closing(c),
        (Phase::Committing, EventView::LocalDone(Err(message))) => failed(c, message),
        (Phase::WritingLedger, EventView::LocalDone(Ok(_))) => (
            c.at(Phase::Finished),
            ActionView::Finish(Ok(())),
        ),
        (Phase::WritingLedger, EventView::LocalDone(Err(message))) => failed(c, message),
        _ => failed(c, unexpected_text()),
    }
}

/// Reads the stored watermark out of the rows of the ledger query.
pub fn stored_watermark(rows: &Vec<Row>, integer_typed: bool) -> (out: String)
    ensures
        out@ == stored_text(rows.deep_view(), integer_typed),
{
    if rows.len() > 0 && rows[0].len() > 0 {
        match &rows[0][0] {
            Some(value) => {
                return value.clone();
            },
            None => {},
        }
    }
    zero_watermark(integer_typed)
}

/// Decides a conflict: whether the local row is kept over the incoming one.
pub fn keeps_local(local: &Option<String>, incoming_stamp: &str, integer_typed: bool) -> (out: bool)
    ensures
        out == local_wins(local.deep_view(), incoming_stamp@, integer_typed),
{
    match local {
        Some(stamp) => {
            if integer_typed {
                match (parse_i64(stamp.as_str()), parse_i64(incoming_stamp)) {
                    (Some(mine), Some(theirs)) => theirs < mine,
                    _ => text_greater(stamp.as_str(), incoming_stamp),
                }
            } else {
                text_greater(stamp.as_str(), incoming_stamp)
            }
        },
        None => false,
    }
}

/// One table's sync cycle.
pub struct TableCycle {
    plan: TablePlan,
    now: String,
    watermark: String,
    phase: Phase,
    incoming: Vec<Row>,
    pushed: usize,
    applied: usize,
    conflicts: usize,
    skipped: usize,
}

impl View for TableCycle {
    type V = CycleView;

    closed spec fn view(&self) -> CycleView {
        CycleView {
            plan: self.plan@,
            now: self.now@,
            watermark: self.watermark@,
            phase: self.phase,
            incoming: self.incoming.deep_view(),
            cursor: (self.applied + self.conflicts + self.skipped) as nat,
            pushed: self.pushed as nat,
            applied: self.applied as nat,
            conflicts: self.conflicts as nat,
            skipped: self.skipped as nat,
        }
    }
}

impl TableCycle {
    #[verifier::type_invariant]
    spec fn well_formed(self) -> bool {
        self@.wf()
    }

    /// Begins a cycle for `plan` and says what to do first. The caller reads
    /// the clock once, before anything else, and hands in the reading as
    /// epoch milliseconds and as local date-time text; the cycle keeps it in
    /// the table's encoding and writes it to the ledger at its end.
    pub fn start(plan: TablePlan, millis: i64, local: &str) -> (out: (TableCycle, Action))
        ensures
            out.0@.wf(),
            out.0@ == begun(plan@, now_text(plan.integer_typed, millis, local@)).0,
            out.1@ == begun(plan@, now_text(plan.integer_typed, millis, local@)).1,
    {
        let now = now_watermark(plan.integer_typed, millis, local);
        let sql = ledger_select_sql(plan.table.as_str());
        let watermark = zero_watermark(plan.integer_typed);
        let incoming: Vec<Row> = Vec::new();
        proof {
            assert(incoming.deep_view() =~= Seq::empty());
        }
        let cycle = TableCycle {
            plan,
            now,
            watermark,
            phase: Phase::ReadingLedger,
            incoming,
            pushed: 0,
            applied: 0,
            conflicts: 0,
            skipped: 0,
        };
        (cycle, Action::QueryLocal(sql))
    }

    /// Where the cycle stands.
    pub fn phase(&self) -> (out: Phase)
        ensures
            out == self@.phase,
    {
        self.phase
    }

    /// Whether the cycle is over.
    pub fn is_finished(&self) -> (out: bool)
        ensures
            out == (self@.phase == Phase::Finished),
    {
        match self.phase {
            Phase::Finished => true,
            _ => false,
        }
    }

    /// The watermark that the cycle filters by.
    pub fn watermark(&self) -> (out: &str)
        ensures
            out@ == self@.watermark,
    {
        self.watermark.as_str()
    }

    /// The clock reading taken when the cycle began.
    pub fn now(&self) -> (out: &str)
        ensures
            out@ == self@.now,
    {
        self.now.as_str()
    }

    /// How many local rows were pushed.
    pub fn pushed(&self) -> (out: usize)
        ensures
            out == self@.pushed,
    {
        self.pushed
    }

    /// How many incoming rows were written locally.
    pub fn applied(&self) -> (out: usize)
        ensures
            out == self@.applied,
    {
        self.applied
    }

    /// How many incoming rows lost to a newer local row.
    pub fn conflicts(&self) -> (out: usize)
        ensures
            out == self@.conflicts,
    {
        self.conflicts
    }

    /// How many incoming rows lacked a primary-key value.
    pub fn skipped(&self) -> (out: usize)
        ensures
            out == self@.skipped,
    {
        self.skipped
    }

    fn fail(&mut self, message: String) -> (action: Action)
        ensures
            final(self)@.wf(),
            final(self)@ == failed(old(self)@, message@).0,
            action@ == failed(old(self)@, message@).1,
    {
        proof {
            use_type_invariant(&*self);
        }
        self.phase = Phase::Finished;
        Action::Finish(Err(message))
    }

    fn fetch(&mut self) -> (action: Action)
        requires
            old(self)@.before_pull(),
        ensures
            final(self)@.wf(),
            final(self)@ == fetching(old(self)@).0,
            action@ == fetching(old(self)@).1,
    {
        let sql = select_changed_sql(
            self.plan.table.as_str(),
            &self.plan.columns,
            self.watermark.as_str(),
            self.plan.integer_typed,
        );
        proof {
            use_type_invariant(&*self);
        }
        self.phase = Phase::FetchingRemote;
        Action::RemoteFetch(sql)
    }

    fn close(&mut self) -> (action: Action)
        requires
            old(self)@.phase == Phase::FetchingRemote || old(self)@.phase == Phase::Committing,
        ensures
            final(self)@.wf(),
            final(self)@ == closing(old(self)@).0,
            action@ == closing(old(self)@).1,
    {
        let sql = ledger_upsert_sql(self.plan.table.as_str(), self.now.as_str());
        proof {
            use_type_invariant(&*self);
        }
        self.phase = Phase::WritingLedger;
        Action::ExecLocal(sql)
    }

    fn advance(&mut self) -> (action: Action)
        requires
            old(self)@.phase == Phase::OpeningWrite,
        ensures
            final(self)@.wf(),
            final(self)@ == advancing(old(self)@).0,
            action@ == advancing(old(self)@).1,
    {
        proof {
            use_type_invariant(&*self);
        }
        let total = self.incoming.len();
        while self.applied + self.conflicts + self.skipped < total
            invariant
                self@.wf(),
                self@.phase == Phase::OpeningWrite,
                total == self.incoming@.len(),
                advancing(self@) == advancing(old(self)@),
            decreases total - (self.applied + self.conflicts + self.skipped),
        {
            let found = key_conditions(
                &self.plan.columns,
                &self.plan.pks,
                &self.incoming[self.applied + self.conflicts + self.skipped],
            );
            match found {
                Some(conditions) => {
                    let sql = stamp_lookup_sql(self.plan.table.as_str(), &conditions);
                    self.phase = Phase::CheckingRow;
                    return Action::LookupStamp(sql);
                },
                None => {
                    self.skipped = self.skipped + 1;
                },
            }
        }
        self.phase = Phase::Committing;
        Action::CommitLocalWrite
    }

    /// Takes what came of the last action and says what to do next.
    pub fn step(&mut self, event: Event) -> (action: Action)
        ensures
            final(self)@.wf(),
            final(self)@ == next(old(self)@, event@).0,
            action@ == next(old(self)@, event@).1,
    {
        proof {
            use_type_invariant(&*self);
        }
        match self.phase {
            Phase::ReadingLedger => match event {
                Event::LocalRows(Err(message)) => self.fail(message),
                Event::LocalRows(Ok(ledger)) => {
                    let stored = stored_watermark(&ledger, self.plan.integer_typed);
                    self.watermark = normalize_watermark(stored.as_str(), self.plan.integer_typed);
                    if self.plan.columns.len() == 0 {
                        self.fetch()
                    } else {
                        let sql = select_changed_sql(
                            self.plan.table.as_str(),
                            &self.plan.columns,
                            self.watermark.as_str(),
                            self.plan.integer_typed,
                        );
                        self.phase = Phase::SelectingLocal;
                        Action::QueryLocal(sql)
                    }
                },
                _ => self.fail(String::from_str("Unexpected event for this phase of the cycle")),
            },
            Phase::SelectingLocal => match event {
                Event::LocalRows(Ok(rows)) => {
                    if rows.len() == 0 {
                        self.fetch()
                    } else {
                        let statements = push_statements(
                            self.plan.table.as_str(),
                            &self.plan.columns,
                            &self.plan.pks,
                            &rows,
                        );
                        self.pushed = rows.len();
                        self.phase = Phase::Pushing;
                        Action::RemoteBatch(statements)
                    }
                },
                Event::LocalRows(Err(message)) => self.fail(message),
                _ => self.fail(String::from_str("Unexpected event for this phase of the cycle")),
            },
            Phase::Pushing => match event {
                Event::RemoteDone(Ok(_)) => self.fetch(),
                Event::RemoteDone(Err(message)) => self.fail(message),
                _ => self.fail(String::from_str("Unexpected event for this phase of the cycle")),
            },
            Phase::FetchingRemote => match event {
                Event::RemoteRows(Ok(rows)) => {
                    if rows.len() == 0 {
                        self.close()
                    } else {
                        self.incoming = rows;
                        self.phase = Phase::OpeningWrite;
                        Action::BeginLocalWrite
                    }
                },
                Event::RemoteRows(Err(message)) => self.fail(message),
                _ => self.fail(String::from_str("Unexpected event for this phase of the cycle")),
            },
            Phase::OpeningWrite => match event {
                Event::LocalDone(Ok(_)) => self.advance(),
                Event::LocalDone(Err(message)) => self.fail(message),
                _ => self.fail(String::from_str("Unexpected event for this phase of the cycle")),
            },
            Phase::CheckingRow => match event {
                Event::LocalStamp(Ok(local)) => {
                    let total = self.incoming.len();
                    assert(self.applied + self.conflicts + self.skipped < total);
                    let cursor = self.applied + self.conflicts + self.skipped;
                    let stamp = value_of_column(
                        &self.plan.columns,
                        &self.incoming[cursor],
                        "updated_at",
                    );
                    let incoming = match stamp {
                        Some(text) => text,
                        None => String::new(),
                    };
                    if keeps_local(&local, incoming.as_str(), self.plan.integer_typed) {
                        self.phase = Phase::OpeningWrite;
                        self.conflicts = self.conflicts + 1;
                        proof {
                            let c = old(self)@;
                            lemma_advancing_from_any_phase(
                                CycleView {
                                    cursor: c.cursor + 1,
                                    conflicts: c.conflicts + 1,
                                    ..c
                                },
                                Phase::OpeningWrite,
                            );
                        }
                        self.advance()
                    } else {
                        let sql = local_upsert_sql(
                            self.plan.table.as_str(),
                            &self.plan.columns,
                            &self.incoming[cursor],
                        );
                        self.phase = Phase::ApplyingRow;
                        Action::ExecLocal(sql)
                    }
                },
                Event::LocalStamp(Err(message)) => self.fail(message),
                _ => self.fail(String::from_str("Unexpected event for this phase of the cycle")),
            },
            Phase::ApplyingRow => match event {
                Event::LocalDone(Ok(_)) => {
                    let total = self.incoming.len();
                    assert(self.applied + self.conflicts + self.skipped < total);
                    self.phase = Phase::OpeningWrite;
                    self.applied = self.applied + 1;
                    proof {
                        let c = old(self)@;
                        lemma_advancing_from_any_phase(
                            CycleView { cursor: c.cursor + 1, applied: c.applied + 1, ..c },
                            Phase::OpeningWrite,
                        );
                    }
                    self.advance()
                },
                Event::LocalDone(Err(message)) => self.fail(message),
                _ => self.fail(String::from_str("Unexpected event for this phase of the cycle")),
            },
            Phase::Committing => match event {
                Event::LocalDone(Ok(_)) => self.close(),
                Event::LocalDone(Err(message)) => self.fail(message),
                _ => self.fail(String::from_str("Unexpected event for this phase of the cycle")),
            },
            Phase::WritingLedger => match event {
                Event::LocalDone(Ok(_)) => {
                    self.phase = Phase::Finished;
                    Action::Finish(Ok(()))
                },
                Event::LocalDone(Err(message)) => self.fail(message),
                _ => self.fail(String::from_str("Unexpected event for this phase of the cycle")),
            },
            Phase::Finished => self.fail(
                String::from_str("Unexpected event for this phase of the cycle"),
            ),
        }
    }
}

} // verus!
