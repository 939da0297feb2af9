//! What holds of every sync cycle and of every bootstrap, proved from the
//! transitions of the two machines, and what holds of the primary key that
//! is read off a catalog.

use vstd::prelude::*;
use crate::bootstrap::{
    backup_text, boot_next, extension_replaced, file_name_text, parent_text, recoverable,
    sync_dir_text, BootActionView, BootEventView, BootPhase, BootView, FileStepView,
};
use crate::cycle::{
    advancing, begun, incoming_stamp, next, stamp_before, ActionView, CycleView, EventView,
    Phase, PlanView, RowView,
};
use crate::schema::{insert_index, key_columns, ColumnMetaView};
use crate::sql::{key_complete, ledger_upsert_text, local_upsert_text, select_changed_text};
use crate::text::{
    all_digits, decimal_text, digit_char, digits_of, digits_value, integer_value, is_digit,
    is_i64_text, unsigned_part,
};
use crate::watermark::{legacy_millis, not_after, now_text, resolved_text};

verus! {

/// Moving on to the next row that can be checked changes nothing but the
/// phase, the cursor and the count of skipped rows: every row passed over
/// lacks a primary-key value and is counted as skipped, no local write is
/// asked for, and the row then under the cursor carries its whole key.
pub proof fn lemma_advancing(c: CycleView)
    requires
        c.cursor <= c.incoming.len(),
        c.applied + c.conflicts + c.skipped == c.cursor,
    ensures
        ({
            let (after, action) = advancing(c);
            &&& after.wf()
            &&& after.plan == c.plan
            &&& after.now == c.now
            &&& after.watermark == c.watermark
            &&& after.incoming == c.incoming
            &&& after.pushed == c.pushed
            &&& after.applied == c.applied
            &&& after.conflicts == c.conflicts
            &&& after.cursor >= c.cursor
            &&& after.skipped - c.skipped == after.cursor - c.cursor
            &&& forall|i: int|
                c.cursor <= i < after.cursor ==> !key_complete(
                    c.plan.columns,
                    c.plan.pks,
                    #[trigger] c.incoming[i],
                )
            &&& (after.phase == Phase::CheckingRow && action is LookupStamp) || (after.phase
                == Phase::Committing && action is CommitLocalWrite && after.cursor
                == c.incoming.len())
        }),
    decreases c.incoming.len() - c.cursor,
{
    if c.cursor >= c.incoming.len() {
    } else if key_complete(c.plan.columns, c.plan.pks, c.current()) {
    } else {
        let c1 = CycleView { cursor: c.cursor + 1, skipped: c.skipped + 1, ..c };
        lemma_advancing(c1);
    }
}

/// Every step keeps the cycle well formed, the plan and the clock reading
/// taken at the start.
pub proof fn lemma_step_preserves(c: CycleView, event: EventView)
    requires
        c.wf(),
    ensures
        next(c, event).0.wf(),
        next(c, event).0.plan == c.plan,
        next(c, event).0.now == c.now,
        c.phase != Phase::ReadingLedger ==> next(c, event).0.watermark == c.watermark,
{
    match (c.phase, event) {
        (Phase::OpeningWrite, EventView::LocalDone(Ok(_))) => {
            lemma_advancing(c);
        },
        (Phase::CheckingRow, EventView::LocalStamp(Ok(local))) => {
            lemma_advancing(CycleView { cursor: c.cursor + 1, conflicts: c.conflicts + 1, ..c });
        },
        (Phase::ApplyingRow, EventView::LocalDone(Ok(_))) => {
            lemma_advancing(CycleView { cursor: c.cursor + 1, applied: c.applied + 1, ..c });
        },
        _ => {},
    }
}

/// Last writer wins, local side: when the local row's `updated_at` is greater
/// than the incoming row's, the step passes the incoming row over. It counts
/// one conflict more, writes nothing for the row, and goes on to the next row
/// or to the commit.
pub proof fn lemma_newer_local_row_is_kept(c: CycleView, local_stamp: Seq<char>)
    requires
        c.wf(),
        c.phase == Phase::CheckingRow,
        stamp_before(incoming_stamp(c), local_stamp, c.plan.integer_typed),
    ensures
        ({
            let (after, action) = next(c, EventView::LocalStamp(Ok(Some(local_stamp))));
            &&& after.conflicts == c.conflicts + 1
            &&& after.applied == c.applied
            &&& after.cursor > c.cursor
            &&& after.incoming == c.incoming
            &&& action is LookupStamp || action is CommitLocalWrite
        }),
{
    lemma_advancing(CycleView { cursor: c.cursor + 1, conflicts: c.conflicts + 1, ..c });
}

/// Last writer wins, remote side: when there is no local row, or its
/// `updated_at` is not greater than the incoming row's, a tie included, the
/// step asks for the incoming row to replace the local one.
pub proof fn lemma_newer_remote_row_is_written(c: CycleView, local: Option<Seq<char>>)
    requires
        c.wf(),
        c.phase == Phase::CheckingRow,
        local matches Some(stamp) ==> !stamp_before(
            incoming_stamp(c),
            stamp,
            c.plan.integer_typed,
        ),
    ensures
        ({
            let (after, action) = next(c, EventView::LocalStamp(Ok(local)));
            &&& after == c.at(Phase::ApplyingRow)
            &&& action == ActionView::ExecLocal(
                local_upsert_text(c.plan.table, c.plan.columns, c.current()),
            )
        }),
{
}

/// The ledger is written in the table's encoding. A cycle keeps the clock
/// reading it began with through every step, as the decimal text of the
/// milliseconds on an integer table and as the local date-time text on any
/// other, and that is what its ledger write stores.
pub proof fn lemma_ledger_keeps_the_tables_encoding(
    plan: PlanView,
    millis: i64,
    local: Seq<char>,
    c: CycleView,
    event: EventView,
)
    requires
        c.wf(),
        c.plan == plan,
        c.now == begun(plan, now_text(plan.integer_typed, millis, local)).0.now,
    ensures
        ({
            let (after, action) = next(c, event);
            &&& after.now == c.now
            &&& plan.integer_typed ==> c.now == decimal_text(millis as int) && is_i64_text(c.now)
            &&& !plan.integer_typed ==> c.now == local
            &&& after.phase == Phase::WritingLedger ==> action == ActionView::ExecLocal(
                ledger_upsert_text(plan.table, c.now),
            )
        }),
{
    lemma_step_preserves(c, event);
    lemma_decimal_is_integer_text(millis);
    match (c.phase, event) {
        (Phase::OpeningWrite, EventView::LocalDone(Ok(_))) => {
            lemma_advancing(c);
        },
        (Phase::CheckingRow, EventView::LocalStamp(Ok(local))) => {
            lemma_advancing(CycleView { cursor: c.cursor + 1, conflicts: c.conflicts + 1, ..c });
        },
        (Phase::ApplyingRow, EventView::LocalDone(Ok(_))) => {
            lemma_advancing(CycleView { cursor: c.cursor + 1, applied: c.applied + 1, ..c });
        },
        _ => {},
    }
}

/// On an integer table the greater timestamp is the greater number: of two
/// `updated_at` written in decimal, the incoming one is before the local one
/// exactly when its number is smaller, whatever their lengths as text.
pub proof fn lemma_integer_stamps_go_by_number(incoming: i64, local: i64)
    ensures
        stamp_before(decimal_text(incoming as int), decimal_text(local as int), true) <==> incoming
            < local,
{
    lemma_decimal_is_integer_text(incoming);
    lemma_decimal_is_integer_text(local);
}

/// A failure that the caller reports ends the cycle with an error, whatever
/// the phase: a storage error while the local database is read or written,
/// the ledger included, and a failed remote batch or fetch. Nothing more is
/// asked for.
pub proof fn lemma_reported_failure_is_fatal(c: CycleView, event: EventView)
    requires
        match event {
            EventView::LocalRows(outcome) => outcome is Err,
            EventView::RemoteDone(outcome) => outcome is Err,
            EventView::RemoteRows(outcome) => outcome is Err,
            EventView::LocalStamp(outcome) => outcome is Err,
            EventView::LocalDone(outcome) => outcome is Err,
        },
    ensures
        ({
            let (after, action) = next(c, event);
            &&& after.phase == Phase::Finished
            &&& action matches ActionView::Finish(Err(_))
        }),
{
}

/// A row without its whole primary key is never applied. A step asks for a
/// local write in two cases only: the ledger write that ends the cycle, and
/// the upsert of the row under the cursor, which then carries a non-empty
/// value for every primary-key column. The count of applied rows grows only
/// when such an upsert is reported done.
pub proof fn lemma_incomplete_row_is_never_applied(c: CycleView, event: EventView)
    requires
        c.wf(),
    ensures
        ({
            let (after, action) = next(c, event);
            &&& action is ExecLocal ==> {
                ||| (after.phase == Phase::WritingLedger && action == ActionView::ExecLocal(
                    ledger_upsert_text(c.plan.table, c.now),
                ))
                ||| (after.phase == Phase::ApplyingRow && after.cursor < after.incoming.len()
                    && key_complete(after.plan.columns, after.plan.pks, after.current())
                    && action == ActionView::ExecLocal(
                    local_upsert_text(after.plan.table, after.plan.columns, after.current()),
                ))
            }
            &&& after.applied > c.applied ==> {
                &&& c.phase == Phase::ApplyingRow
                &&& after.applied == c.applied + 1
                &&& key_complete(c.plan.columns, c.plan.pks, c.current())
            }
        }),
{
    lemma_step_preserves(c, event);
    match (c.phase, event) {
        (Phase::OpeningWrite, EventView::LocalDone(Ok(_))) => {
            lemma_advancing(c);
        },
        (Phase::CheckingRow, EventView::LocalStamp(Ok(local))) => {
            lemma_advancing(CycleView { cursor: c.cursor + 1, conflicts: c.conflicts + 1, ..c });
        },
        (Phase::ApplyingRow, EventView::LocalDone(Ok(_))) => {
            lemma_advancing(CycleView { cursor: c.cursor + 1, applied: c.applied + 1, ..c });
        },
        _ => {},
    }
}

/// An incoming row that lacks a primary-key value is passed over without a
/// lookup and without a write: moving on from it is moving on from the row
/// after it, with one skipped row more.
pub proof fn lemma_incomplete_row_is_skipped(c: CycleView)
    requires
        c.cursor < c.incoming.len(),
        !key_complete(c.plan.columns, c.plan.pks, c.current()),
    ensures
        advancing(c) == advancing(CycleView { cursor: c.cursor + 1, skipped: c.skipped + 1, ..c }),
{
}

/// The watermark does not go back. Whatever a cycle meets, the only ledger
/// write it asks for stores the clock reading taken at its start; so when that
/// reading is not before the watermark the cycle filters by, the stored
/// watermark after the cycle is not before it either.
pub proof fn lemma_watermark_does_not_go_back(c: CycleView, event: EventView)
    requires
        c.wf(),
        c.phase != Phase::ReadingLedger,
        not_after(c.watermark, c.now, c.plan.integer_typed),
    ensures
        ({
            let (after, action) = next(c, event);
            &&& not_after(after.watermark, after.now, after.plan.integer_typed)
            &&& after.phase == Phase::WritingLedger ==> action == ActionView::ExecLocal(
                ledger_upsert_text(c.plan.table, c.now),
            )
        }),
{
    lemma_step_preserves(c, event);
    match (c.phase, event) {
        (Phase::OpeningWrite, EventView::LocalDone(Ok(_))) => {
            lemma_advancing(c);
        },
        (Phase::CheckingRow, EventView::LocalStamp(Ok(local))) => {
            lemma_advancing(CycleView { cursor: c.cursor + 1, conflicts: c.conflicts + 1, ..c });
        },
        (Phase::ApplyingRow, EventView::LocalDone(Ok(_))) => {
            lemma_advancing(CycleView { cursor: c.cursor + 1, applied: c.applied + 1, ..c });
        },
        _ => {},
    }
}

/// A cycle that finds nothing changed moves nothing. With an empty local
/// delta and an empty remote delta the cycle sends no batch, opens no local
/// write transaction and writes no row: after the ledger query it asks for the
/// two deltas, writes the ledger with the clock reading taken at its start,
/// and finishes well, all counters at zero. The ledger so keeps the watermark
/// it held exactly when the clock reading equals it.
pub proof fn lemma_quiet_cycle_moves_nothing(plan: PlanView, now: Seq<char>, ledger: Seq<RowView>)
    ensures
        ({
            let (c0, a0) = begun(plan, now);
            let (c1, a1) = next(c0, EventView::LocalRows(Ok(ledger)));
            let (c2, a2) = if plan.columns.len() == 0 {
                (c1, a1)
            } else {
                next(c1, EventView::LocalRows(Ok(Seq::empty())))
            };
            let (c3, a3) = next(c2, EventView::RemoteRows(Ok(Seq::empty())));
            let (c4, a4) = next(c3, EventView::LocalDone(Ok(())));
            &&& plan.columns.len() > 0 ==> a1 == ActionView::QueryLocal(
                select_changed_text(plan.table, plan.columns, c1.watermark, plan.integer_typed),
            )
            &&& a2 == ActionView::RemoteFetch(
                select_changed_text(plan.table, plan.columns, c1.watermark, plan.integer_typed),
            )
            &&& a3 == ActionView::ExecLocal(ledger_upsert_text(plan.table, now))
            &&& a4 == ActionView::Finish(Ok(()))
            &&& c4.phase == Phase::Finished
            &&& c4.watermark == c1.watermark
            &&& c4.pushed == 0
            &&& c4.applied == 0
            &&& c4.conflicts == 0
            &&& c4.skipped == 0
        }),
{
}

/// The digits of a number are digits, at least one, and write that number.
pub proof fn lemma_digits_round_trip(n: nat)
    ensures
        digits_of(n).len() > 0,
        all_digits(digits_of(n)),
        digits_value(digits_of(n)) == n,
    decreases n,
{
    if n < 10 {
        let s = digits_of(n);
        assert(s.drop_last() =~= Seq::<char>::empty());
        assert(digits_value(s.drop_last()) == 0);
        assert(s.last() == digit_char(n));
    } else {
        lemma_digits_round_trip(n / 10);
        let s = digits_of(n);
        assert(s.drop_last() =~= digits_of(n / 10));
        assert(s.last() == digit_char(n % 10));
        assert forall|i: int| 0 <= i < s.len() implies is_digit(#[trigger] s[i]) by {
            if i < s.len() - 1 {
                assert(s[i] == digits_of(n / 10)[i]);
            }
        }
    }
}

/// The decimal text of a 64-bit integer is an integer text and writes that
/// integer.
pub proof fn lemma_decimal_is_integer_text(n: i64)
    ensures
        is_i64_text(decimal_text(n as int)),
        integer_value(decimal_text(n as int)) == n,
{
    let s = decimal_text(n as int);
    if n < 0 {
        let m = (-(n as int)) as nat;
        lemma_digits_round_trip(m);
        assert(s[0] == '-');
        assert(s.skip(1) =~= digits_of(m));
    } else {
        lemma_digits_round_trip(n as nat);
        assert(is_digit(s[0]));
        assert(unsigned_part(s) == s);
    }
}

/// What one cycle stores the next one filters by. A watermark written from a
/// clock reading, once read back from the ledger, is taken as it is: it needs
/// no conversion and is not reset.
pub proof fn lemma_stored_reading_is_read_back(
    integer_typed: bool,
    millis: i64,
    local: Seq<char>,
    legacy: Option<i64>,
)
    ensures
        resolved_text(now_text(integer_typed, millis, local), integer_typed, legacy) == now_text(
            integer_typed,
            millis,
            local,
        ),
{
    lemma_decimal_is_integer_text(millis);
}

/// A second cycle after a first, with no write in between. The second cycle
/// reads back the watermark that the first one stored and filters by exactly
/// that; finding both deltas empty it moves no row. It then stores its own
/// clock reading: the ledger keeps its watermark when the two cycles began at
/// the same reading, and moves on to the later reading otherwise.
pub proof fn lemma_second_cycle_is_quiet(
    plan: PlanView,
    first_millis: i64,
    first_local: Seq<char>,
    second_now: Seq<char>,
)
    ensures
        ({
            let first_now = now_text(plan.integer_typed, first_millis, first_local);
            let ledger: Seq<RowView> = seq![seq![Some(first_now)]];
            let (c0, a0) = begun(plan, second_now);
            let (c1, a1) = next(c0, EventView::LocalRows(Ok(ledger)));
            let (c2, a2) = if plan.columns.len() == 0 {
                (c1, a1)
            } else {
                next(c1, EventView::LocalRows(Ok(Seq::empty())))
            };
            let (c3, a3) = next(c2, EventView::RemoteRows(Ok(Seq::empty())));
            let (c4, a4) = next(c3, EventView::LocalDone(Ok(())));
            &&& c1.watermark == first_now
            &&& a2 == ActionView::RemoteFetch(
                select_changed_text(plan.table, plan.columns, first_now, plan.integer_typed),
            )
            &&& a3 == ActionView::ExecLocal(ledger_upsert_text(plan.table, second_now))
            &&& second_now == first_now ==> a3 == ActionView::ExecLocal(
                ledger_upsert_text(plan.table, first_now),
            )
            &&& a4 == ActionView::Finish(Ok(()))
            &&& c4.pushed == 0 && c4.applied == 0 && c4.conflicts == 0 && c4.skipped == 0
        }),
{
    let first_now = now_text(plan.integer_typed, first_millis, first_local);
    lemma_stored_reading_is_read_back(
        plan.integer_typed,
        first_millis,
        first_local,
        legacy_millis(first_now),
    );
    let rows: Seq<RowView> = seq![seq![Some(first_now)]];
    assert(rows[0][0] == Some(first_now));
    lemma_quiet_cycle_moves_nothing(plan, second_now, rows);
}

/// Settling a watermark settles it for good: what comes out is taken as it
/// is when it is settled again, whatever the legacy reading then gives. So
/// a converted or reset watermark is what the engine goes on with.
pub proof fn lemma_settled_watermark_stays(
    stored: Seq<char>,
    integer_typed: bool,
    legacy: Option<i64>,
    later: Option<i64>,
)
    ensures
        resolved_text(resolved_text(stored, integer_typed, legacy), integer_typed, later)
            == resolved_text(stored, integer_typed, legacy),
{
    if integer_typed && !is_i64_text(stored) {
        match legacy {
            Some(millis) => {
                lemma_decimal_is_integer_text(millis);
            },
            None => {
                lemma_decimal_is_integer_text(0);
                reveal_strlit("0");
                assert("0"@ =~= decimal_text(0));
            },
        }
    }
}

/// On an integer table the order of watermarks is the order of the clock
/// readings they were written from: a later reading is never before an
/// earlier one.
pub proof fn lemma_readings_keep_their_order(earlier: i64, later: i64, local: Seq<char>)
    requires
        earlier <= later,
    ensures
        not_after(now_text(true, earlier, local), now_text(true, later, local), true),
{
    lemma_decimal_is_integer_text(earlier);
    lemma_decimal_is_integer_text(later);
}

/// Recovery. When the first attach fails with a known mismatch signature,
/// the bootstrap asks for the quarantine: the backup of an earlier quarantine
/// is deleted first, the database file is renamed to the backup, its
/// write-ahead log and shared-memory file are deleted, and the replication
/// metadata goes. Then it attaches once more. If that succeeds the database
/// opens in cloud mode. If it fails, whatever the failure, there is no second
/// quarantine: the bootstrap opens a local database and ends well in
/// local-only mode.
pub proof fn lemma_recovery_quarantines_once(b: BootView, failure: Seq<char>)
    requires
        b.phase == BootPhase::Attaching,
        recoverable(failure),
        parent_text(b.db_path) is Some,
        file_name_text(b.db_path) is Some,
    ensures
        ({
            let (b1, a1) = boot_next(b, BootEventView::Attached(Err(failure)));
            let (b2, a2) = boot_next(b1, BootEventView::Quarantined);
            let (b3, a3) = boot_next(b2, BootEventView::Attached(Ok(())));
            let (b4, a4) = boot_next(b3, BootEventView::Prepared(Ok(())));
            &&& a1 == BootActionView::Quarantine(
                seq![
                    FileStepView::RemoveIfPresent(backup_text(b.db_path)),
                    FileStepView::RenameOrRemove { from: b.db_path, to: backup_text(b.db_path) },
                    FileStepView::Remove(extension_replaced(b.db_path, "db-wal"@)),
                    FileStepView::Remove(extension_replaced(b.db_path, "db-shm"@)),
                    FileStepView::RemoveTreeIfPresent(
                        sync_dir_text(
                            parent_text(b.db_path).unwrap(),
                            file_name_text(b.db_path).unwrap(),
                        ),
                    ),
                ],
            )
            &&& a2 == (BootActionView::Attach { url: b.url, token: b.token })
            &&& a3 == BootActionView::Prepare
            &&& a4 == BootActionView::Finish(Ok((true, b.url)))
            &&& forall|again: Seq<char>|
                {
                    let (c3, x3) = #[trigger] boot_next(b2, BootEventView::Attached(Err(again)));
                    let (c4, x4) = boot_next(c3, BootEventView::Opened(Ok(())));
                    let (c5, x5) = boot_next(c4, BootEventView::Prepared(Ok(())));
                    &&& x3 == BootActionView::OpenLocal
                    &&& x4 == BootActionView::Prepare
                    &&& x5 == BootActionView::Finish(Ok((false, Seq::<char>::empty())))
                }
        }),
{
}

/// A failure without a mismatch signature calls for no quarantine: the
/// bootstrap touches no file and opens a local database.
pub proof fn lemma_other_failure_falls_back(b: BootView, failure: Seq<char>)
    requires
        b.phase == BootPhase::Attaching,
        !recoverable(failure),
    ensures
        boot_next(b, BootEventView::Attached(Err(failure))).1 == BootActionView::OpenLocal,
{
}

/// A key column goes in behind every column whose place is not greater and
/// before every column whose place is greater.
pub proof fn lemma_insert_index(ordered: Seq<ColumnMetaView>, ordinal: int)
    ensures
        0 <= insert_index(ordered, ordinal) <= ordered.len(),
        forall|j: int|
            insert_index(ordered, ordinal) <= j < ordered.len() ==> (#[trigger] ordered[j]).pk_idx
                > ordinal,
        insert_index(ordered, ordinal) > 0 ==> ordered[insert_index(ordered, ordinal) - 1].pk_idx
            <= ordinal,
    decreases ordered.len(),
{
    if ordered.len() > 0 && ordered.last().pk_idx > ordinal {
        lemma_insert_index(ordered.drop_last(), ordinal);
        let at = insert_index(ordered.drop_last(), ordinal);
        assert forall|j: int| at <= j < ordered.len() implies (#[trigger] ordered[j]).pk_idx
            > ordinal by {
            if j < ordered.len() - 1 {
                assert(ordered.drop_last()[j] == ordered[j]);
            }
        }
        if at > 0 {
            assert(ordered.drop_last()[at - 1] == ordered[at - 1]);
        }
    }
}

/// The key columns of a table are the catalog's columns that have a place in
/// the primary key, and no others, in the order of their places.
pub proof fn lemma_key_columns_ordered(metas: Seq<ColumnMetaView>)
    ensures
        forall|i: int, j: int|
            0 <= i <= j < key_columns(metas).len() ==> (#[trigger] key_columns(metas)[i]).pk_idx
                <= (#[trigger] key_columns(metas)[j]).pk_idx,
        forall|i: int|
            0 <= i < key_columns(metas).len() ==> (#[trigger] key_columns(metas)[i]).pk_idx > 0
                && metas.contains(key_columns(metas)[i]),
        forall|i: int|
            0 <= i < metas.len() && (#[trigger] metas[i]).pk_idx > 0 ==> key_columns(
                metas,
            ).contains(metas[i]),
    decreases metas.len(),
{
    if metas.len() > 0 {
        let rest = metas.drop_last();
        let m = metas.last();
        let before = key_columns(rest);
        lemma_key_columns_ordered(rest);
        assert forall|i: int| 0 <= i < before.len() implies metas.contains(
            #[trigger] before[i],
        ) by {
            let at = choose|k: int| 0 <= k < rest.len() && rest[k] == before[i];
            assert(metas[at] == before[i]);
        }
        if m.pk_idx > 0 {
            lemma_insert_index(before, m.pk_idx);
            let at = insert_index(before, m.pk_idx);
            let after = before.insert(at, m);
            assert(key_columns(metas) == after);
            assert forall|i: int, j: int| 0 <= i <= j < after.len() implies (#[trigger] after[i]).pk_idx
                <= (#[trigger] after[j]).pk_idx by {
                if at > 0 {
                    assert(before[at - 1].pk_idx <= m.pk_idx);
                }
                if i < at && j < at {
                    assert(after[i] == before[i] && after[j] == before[j]);
                } else if i < at && j == at {
                    assert(after[i] == before[i]);
                    assert(before[i].pk_idx <= before[at - 1].pk_idx);
                } else if i < at && j > at {
                    assert(after[i] == before[i] && after[j] == before[j - 1]);
                } else if i == at && j > at {
                    assert(after[j] == before[j - 1]);
                } else if i > at {
                    assert(after[i] == before[i - 1] && after[j] == before[j - 1]);
                }
            }
            assert forall|i: int| 0 <= i < after.len() implies (#[trigger] after[i]).pk_idx > 0
                && metas.contains(after[i]) by {
                if i < at {
                    assert(after[i] == before[i]);
                } else if i == at {
                    assert(metas[metas.len() - 1] == m);
                } else {
                    assert(after[i] == before[i - 1]);
                }
            }
            assert forall|i: int| 0 <= i < metas.len() && (#[trigger] metas[i]).pk_idx
                > 0 implies after.contains(metas[i]) by {
                if i < metas.len() - 1 {
                    assert(rest[i] == metas[i]);
                    let k = choose|k: int| 0 <= k < before.len() && before[k] == rest[i];
                    if k < at {
                        assert(after[k] == before[k]);
                    } else {
                        assert(after[k + 1] == before[k]);
                    }
                } else {
                    assert(after[at] == m);
                }
            }
        } else {
            assert forall|i: int| 0 <= i < metas.len() && (#[trigger] metas[i]).pk_idx
                > 0 implies before.contains(metas[i]) by {
                assert(rest[i] == metas[i]);
            }
        }
    }
}

} // verus!
