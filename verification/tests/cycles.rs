use tauri_sync_db::cycle::{
    keeps_local, stored_watermark, Action, Event, Phase, TableCycle, TablePlan,
};

fn texts(items: &[&str]) -> Vec<String> {
    items.iter().map(|s| s.to_string()).collect()
}

fn row(items: &[Option<&str>]) -> Vec<Option<String>> {
    items.iter().map(|v| v.map(|s| s.to_string())).collect()
}

fn notes_plan() -> TablePlan {
    TablePlan {
        table: "notes".to_string(),
        columns: texts(&["id", "text", "updated_at"]),
        pks: texts(&["id"]),
        integer_typed: true,
    }
}

fn pair_plan() -> TablePlan {
    TablePlan {
        table: "links".to_string(),
        columns: texts(&["a", "b", "updated_at"]),
        pks: texts(&["a", "b"]),
        integer_typed: false,
    }
}

const LEDGER_WRITE: &str = "INSERT OR REPLACE INTO sync_status (table_name, last_sync_time, \
    last_sync_direction, sync_count) VALUES ('notes', '1800000000000', 'both', \
    COALESCE((SELECT sync_count FROM sync_status WHERE table_name = 'notes') + 1, 1))";

/// Drives a cycle of `notes` up to the point where the remote delta is asked for.
fn notes_cycle_at_fetch(stored: &str) -> TableCycle {
    let (mut cycle, _) = TableCycle::start(notes_plan(), 1800000000000, "2027-01-15 08:00:00");
    cycle.step(Event::LocalRows(Ok(vec![row(&[Some(stored)])])));
    let action = cycle.step(Event::LocalRows(Ok(vec![])));
    assert!(matches!(action, Action::RemoteFetch(_)));
    cycle
}

#[test]
fn cycle_begins_by_asking_the_ledger() {
    let (cycle, action) = TableCycle::start(notes_plan(), 1800000000000, "2027-01-15 08:00:00");
    assert_eq!(
        action,
        Action::QueryLocal(
            "SELECT last_sync_time FROM sync_status WHERE table_name = 'notes'".to_string()
        )
    );
    assert_eq!(cycle.phase(), Phase::ReadingLedger);
    assert_eq!(cycle.now(), "1800000000000");
    assert_eq!(cycle.watermark(), "0");
    assert!(!cycle.is_finished());
}

#[test]
fn push_selects_changed_row_and_upserts_it_remotely() {
    let (mut cycle, _) = TableCycle::start(notes_plan(), 1800000000000, "2027-01-15 08:00:00");
    let action = cycle.step(Event::LocalRows(Ok(vec![row(&[Some("0")])])));
    assert_eq!(
        action,
        Action::QueryLocal(
            "SELECT id, text, updated_at FROM notes WHERE updated_at > 0".to_string()
        )
    );
    assert_eq!(cycle.phase(), Phase::SelectingLocal);
    let local = vec![row(&[Some("1"), Some("hi"), Some("1700000000000")])];
    let action = cycle.step(Event::LocalRows(Ok(local)));
    assert_eq!(
        action,
        Action::RemoteBatch(vec![
            "INSERT INTO notes (id, text, updated_at) VALUES ('1', 'hi', '1700000000000') \
             ON CONFLICT(id) DO UPDATE SET id = excluded.id, text = excluded.text, \
             updated_at = excluded.updated_at WHERE excluded.updated_at > notes.updated_at"
                .to_string()
        ])
    );
    assert_eq!(cycle.phase(), Phase::Pushing);
    assert_eq!(cycle.pushed(), 1);
    let action = cycle.step(Event::RemoteDone(Ok(())));
    assert_eq!(
        action,
        Action::RemoteFetch(
            "SELECT id, text, updated_at FROM notes WHERE updated_at > 0".to_string()
        )
    );
    let action = cycle.step(Event::RemoteRows(Ok(vec![])));
    assert_eq!(action, Action::ExecLocal(LEDGER_WRITE.to_string()));
    assert_eq!(cycle.step(Event::LocalDone(Ok(()))), Action::Finish(Ok(())));
    assert!(cycle.is_finished());
}

#[test]
fn second_cycle_with_advanced_watermark_moves_nothing() {
    let (mut cycle, _) = TableCycle::start(notes_plan(), 1800000000000, "2027-01-15 08:00:00");
    let action = cycle.step(Event::LocalRows(Ok(vec![row(&[Some("1750000000000")])])));
    assert_eq!(
        action,
        Action::QueryLocal(
            "SELECT id, text, updated_at FROM notes WHERE updated_at > 1750000000000".to_string()
        )
    );
    assert_eq!(cycle.watermark(), "1750000000000");
    let action = cycle.step(Event::LocalRows(Ok(vec![])));
    assert_eq!(
        action,
        Action::RemoteFetch(
            "SELECT id, text, updated_at FROM notes WHERE updated_at > 1750000000000".to_string()
        )
    );
    let action = cycle.step(Event::RemoteRows(Ok(vec![])));
    assert_eq!(action, Action::ExecLocal(LEDGER_WRITE.to_string()));
    assert_eq!(cycle.step(Event::LocalDone(Ok(()))), Action::Finish(Ok(())));
    assert_eq!(
        (cycle.pushed(), cycle.applied(), cycle.conflicts(), cycle.skipped()),
        (0, 0, 0, 0)
    );
}

#[test]
fn legacy_watermark_is_converted_before_it_filters() {
    let (mut cycle, _) = TableCycle::start(notes_plan(), 1800000000000, "2027-01-15 08:00:00");
    let action = cycle.step(Event::LocalRows(Ok(vec![row(&[Some("2024-01-01 00:00:00")])])));
    assert_eq!(
        action,
        Action::QueryLocal(
            "SELECT id, text, updated_at FROM notes WHERE updated_at > 1704067200000".to_string()
        )
    );
    assert_eq!(cycle.watermark(), "1704067200000");
    let action = cycle.step(Event::LocalRows(Ok(vec![])));
    assert_eq!(
        action,
        Action::RemoteFetch(
            "SELECT id, text, updated_at FROM notes WHERE updated_at > 1704067200000".to_string()
        )
    );
    assert_eq!(
        cycle.step(Event::RemoteRows(Ok(vec![]))),
        Action::ExecLocal(LEDGER_WRITE.to_string())
    );
}

#[test]
fn missing_ledger_row_means_zero_watermark() {
    assert_eq!(stored_watermark(&vec![], true), "0");
    assert_eq!(stored_watermark(&vec![vec![]], true), "0");
    assert_eq!(stored_watermark(&vec![row(&[None])], true), "0");
    assert_eq!(stored_watermark(&vec![], false), "1970-01-01 00:00:00");
    assert_eq!(
        stored_watermark(&vec![row(&[Some("5"), Some("6")]), row(&[Some("7")])], true),
        "5"
    );
    let (mut cycle, _) = TableCycle::start(pair_plan(), 1714903200000, "2024-05-05 10:00:00");
    let action = cycle.step(Event::LocalRows(Ok(vec![])));
    assert_eq!(
        action,
        Action::QueryLocal(
            "SELECT a, b, updated_at FROM links WHERE updated_at > '1970-01-01 00:00:00'"
                .to_string()
        )
    );
}

#[test]
fn failed_ledger_read_fails_the_table() {
    let (mut cycle, _) = TableCycle::start(pair_plan(), 1714903200000, "2024-05-05 10:00:00");
    assert_eq!(
        cycle.step(Event::LocalRows(Err("no such table: sync_status".to_string()))),
        Action::Finish(Err("no such table: sync_status".to_string()))
    );
    assert!(cycle.is_finished());
}

#[test]
fn reading_is_kept_in_the_tables_encoding() {
    let (cycle, _) = TableCycle::start(notes_plan(), 1800000000000, "2027-01-15 08:00:00");
    assert_eq!(cycle.now(), "1800000000000");
    let (cycle, _) = TableCycle::start(notes_plan(), -5, "1969-12-31 23:59:59");
    assert_eq!(cycle.now(), "-5");
    let (mut cycle, _) = TableCycle::start(pair_plan(), 1714903200000, "2024-05-05 10:00:00");
    assert_eq!(cycle.now(), "2024-05-05 10:00:00");
    cycle.step(Event::LocalRows(Ok(vec![])));
    cycle.step(Event::LocalRows(Ok(vec![])));
    assert_eq!(
        cycle.step(Event::RemoteRows(Ok(vec![]))),
        Action::ExecLocal(
            "INSERT OR REPLACE INTO sync_status (table_name, last_sync_time, \
             last_sync_direction, sync_count) VALUES ('links', '2024-05-05 10:00:00', 'both', \
             COALESCE((SELECT sync_count FROM sync_status WHERE table_name = 'links') + 1, 1))"
                .to_string()
        )
    );
}

#[test]
fn newer_local_row_is_kept_and_counted_as_conflict() {
    let mut cycle = notes_cycle_at_fetch("0");
    let incoming = vec![row(&[Some("1"), Some("remote"), Some("1600000000000")])];
    assert_eq!(cycle.step(Event::RemoteRows(Ok(incoming))), Action::BeginLocalWrite);
    assert_eq!(
        cycle.step(Event::LocalDone(Ok(()))),
        Action::LookupStamp("SELECT updated_at FROM notes WHERE id = '1'".to_string())
    );
    assert_eq!(cycle.phase(), Phase::CheckingRow);
    let action = cycle.step(Event::LocalStamp(Ok(Some("1700000000000".to_string()))));
    assert_eq!(action, Action::CommitLocalWrite);
    assert_eq!(cycle.conflicts(), 1);
    assert_eq!(cycle.applied(), 0);
    assert_eq!(cycle.skipped(), 0);
    assert_eq!(
        cycle.step(Event::LocalDone(Ok(()))),
        Action::ExecLocal(LEDGER_WRITE.to_string())
    );
    assert_eq!(cycle.step(Event::LocalDone(Ok(()))), Action::Finish(Ok(())));
}

#[test]
fn newer_or_equal_remote_row_replaces_the_local_one() {
    let mut cycle = notes_cycle_at_fetch("0");
    let incoming = vec![
        row(&[Some("1"), Some("newer"), Some("1700000000001")]),
        row(&[Some("2"), Some("equal"), Some("1700000000000")]),
        row(&[Some("3"), Some("new"), Some("1700000000000")]),
    ];
    cycle.step(Event::RemoteRows(Ok(incoming)));
    cycle.step(Event::LocalDone(Ok(())));
    assert_eq!(
        cycle.step(Event::LocalStamp(Ok(Some("1700000000000".to_string())))),
        Action::ExecLocal(
            "INSERT OR REPLACE INTO notes (id, text, updated_at) VALUES ('1', 'newer', \
             '1700000000001')"
                .to_string()
        )
    );
    assert_eq!(cycle.phase(), Phase::ApplyingRow);
    assert_eq!(
        cycle.step(Event::LocalDone(Ok(()))),
        Action::LookupStamp("SELECT updated_at FROM notes WHERE id = '2'".to_string())
    );
    assert_eq!(
        cycle.step(Event::LocalStamp(Ok(Some("1700000000000".to_string())))),
        Action::ExecLocal(
            "INSERT OR REPLACE INTO notes (id, text, updated_at) VALUES ('2', 'equal', \
             '1700000000000')"
                .to_string()
        )
    );
    cycle.step(Event::LocalDone(Ok(())));
    assert_eq!(
        cycle.step(Event::LocalStamp(Ok(None))),
        Action::ExecLocal(
            "INSERT OR REPLACE INTO notes (id, text, updated_at) VALUES ('3', 'new', \
             '1700000000000')"
                .to_string()
        )
    );
    assert_eq!(cycle.step(Event::LocalDone(Ok(()))), Action::CommitLocalWrite);
    assert_eq!((cycle.applied(), cycle.conflicts(), cycle.skipped()), (3, 0, 0));
}

#[test]
fn row_without_its_whole_key_is_never_applied() {
    let (mut cycle, _) = TableCycle::start(pair_plan(), 1714903200000, "2024-05-05 10:00:00");
    cycle.step(Event::LocalRows(Ok(vec![])));
    cycle.step(Event::LocalRows(Ok(vec![])));
    let incoming = vec![
        row(&[Some("1"), None, Some("2024-01-01 00:00:00")]),
        row(&[Some(""), Some("x"), Some("2024-01-01 00:00:00")]),
        row(&[Some("1")]),
        row(&[Some("1"), Some("y"), Some("2024-01-01 00:00:00")]),
        row(&[None, None, None]),
    ];
    assert_eq!(cycle.step(Event::RemoteRows(Ok(incoming))), Action::BeginLocalWrite);
    assert_eq!(
        cycle.step(Event::LocalDone(Ok(()))),
        Action::LookupStamp(
            "SELECT updated_at FROM links WHERE a = '1' AND b = 'y'".to_string()
        )
    );
    assert_eq!(cycle.skipped(), 3);
    assert_eq!(
        cycle.step(Event::LocalStamp(Ok(None))),
        Action::ExecLocal(
            "INSERT OR REPLACE INTO links (a, b, updated_at) VALUES ('1', 'y', \
             '2024-01-01 00:00:00')"
                .to_string()
        )
    );
    assert_eq!(cycle.step(Event::LocalDone(Ok(()))), Action::CommitLocalWrite);
    assert_eq!((cycle.applied(), cycle.conflicts(), cycle.skipped()), (1, 0, 4));
}

#[test]
fn delta_of_incomplete_rows_only_commits_nothing_written() {
    let mut cycle = notes_cycle_at_fetch("0");
    let incoming = vec![row(&[None, Some("a"), Some("5")]), row(&[Some(""), None, None])];
    cycle.step(Event::RemoteRows(Ok(incoming)));
    assert_eq!(cycle.step(Event::LocalDone(Ok(()))), Action::CommitLocalWrite);
    assert_eq!((cycle.applied(), cycle.conflicts(), cycle.skipped()), (0, 0, 2));
}

#[test]
fn conflict_goes_by_the_order_of_text() {
    let text = |local: &str, incoming: &str| keeps_local(&Some(local.to_string()), incoming, false);
    assert!(text("2024-02-01 00:00:00", "2024-01-31 23:59:59"));
    assert!(!text("2024-01-31 23:59:59", "2024-02-01 00:00:00"));
    assert!(!text("2024-02-01 00:00:00", "2024-02-01 00:00:00"));
    assert!(text("5", ""));
    assert!(text("9", "10"));
    assert!(!text("", ""));
    assert!(text("\u{e9}", "z"));
    assert!(!keeps_local(&None, "", false));
    assert!(!keeps_local(&None, "1", true));
}

#[test]
fn conflict_on_an_integer_table_goes_by_the_number() {
    let number = |local: &str, incoming: &str| keeps_local(&Some(local.to_string()), incoming, true);
    assert!(number("10", "9"));
    assert!(!number("9", "10"));
    assert!(number("50", "5"));
    assert!(!number("5", "50"));
    assert!(!number("5", "5"));
    assert!(!number("7", "07"));
    assert!(!number("07", "+7"));
    assert!(number("1700000000000", "999999999999"));
    assert!(!number("999999999999", "1700000000000"));
    assert!(number("0", "-1"));
    assert!(!number("-10", "-9"));
    assert!(number("-9", "-10"));
    assert!(number("9223372036854775807", "-9223372036854775808"));
    // A stamp that is no integer falls back on the order of text.
    assert!(number("5", ""));
    assert!(!number("", "5"));
    assert!(number("9", "10x"));
    assert!(!number("2024-01-01 00:00:00", "2024-01-01 00:00:01"));
}

#[test]
fn older_remote_row_never_replaces_a_newer_local_row_of_another_length() {
    let mut cycle = notes_cycle_at_fetch("0");
    let incoming = vec![
        row(&[Some("1"), Some("older"), Some("9")]),
        row(&[Some("2"), Some("newer"), Some("10")]),
    ];
    cycle.step(Event::RemoteRows(Ok(incoming)));
    cycle.step(Event::LocalDone(Ok(())));
    assert_eq!(
        cycle.step(Event::LocalStamp(Ok(Some("10".to_string())))),
        Action::LookupStamp("SELECT updated_at FROM notes WHERE id = '2'".to_string())
    );
    assert_eq!((cycle.applied(), cycle.conflicts()), (0, 1));
    assert_eq!(
        cycle.step(Event::LocalStamp(Ok(Some("9".to_string())))),
        Action::ExecLocal(
            "INSERT OR REPLACE INTO notes (id, text, updated_at) VALUES ('2', 'newer', '10')"
                .to_string()
        )
    );
    assert_eq!(cycle.step(Event::LocalDone(Ok(()))), Action::CommitLocalWrite);
    assert_eq!((cycle.applied(), cycle.conflicts()), (1, 1));
}

#[test]
fn failure_ends_the_cycle_with_its_message() {
    let (mut cycle, _) = TableCycle::start(notes_plan(), 1, "1970-01-01 00:00:00");
    cycle.step(Event::LocalRows(Ok(vec![])));
    assert_eq!(
        cycle.step(Event::LocalRows(Err("disk I/O error".to_string()))),
        Action::Finish(Err("disk I/O error".to_string()))
    );
    assert!(cycle.is_finished());

    let (mut cycle, _) = TableCycle::start(notes_plan(), 1, "1970-01-01 00:00:00");
    cycle.step(Event::LocalRows(Ok(vec![])));
    cycle.step(Event::LocalRows(Ok(vec![row(&[Some("1"), None, Some("2")])])));
    assert_eq!(
        cycle.step(Event::RemoteDone(Err("Batch statement 0 failed: x".to_string()))),
        Action::Finish(Err("Batch statement 0 failed: x".to_string()))
    );

    let mut cycle = notes_cycle_at_fetch("0");
    assert_eq!(
        cycle.step(Event::RemoteRows(Err("HTTP request failed: t".to_string()))),
        Action::Finish(Err("HTTP request failed: t".to_string()))
    );

    let mut cycle = notes_cycle_at_fetch("0");
    cycle.step(Event::RemoteRows(Ok(vec![row(&[Some("1"), None, Some("2")])])));
    assert_eq!(
        cycle.step(Event::LocalDone(Err("locked".to_string()))),
        Action::Finish(Err("locked".to_string()))
    );

    let mut cycle = notes_cycle_at_fetch("0");
    cycle.step(Event::RemoteRows(Ok(vec![row(&[Some("1"), None, Some("2")])])));
    cycle.step(Event::LocalDone(Ok(())));
    assert_eq!(
        cycle.step(Event::LocalStamp(Err("no such table: notes".to_string()))),
        Action::Finish(Err("no such table: notes".to_string()))
    );
}

#[test]
fn event_that_was_not_asked_for_ends_the_cycle() {
    let (mut cycle, _) = TableCycle::start(notes_plan(), 1, "1970-01-01 00:00:00");
    assert_eq!(
        cycle.step(Event::RemoteDone(Ok(()))),
        Action::Finish(Err("Unexpected event for this phase of the cycle".to_string()))
    );
    assert!(cycle.is_finished());
    assert_eq!(
        cycle.step(Event::LocalDone(Ok(()))),
        Action::Finish(Err("Unexpected event for this phase of the cycle".to_string()))
    );
}

#[test]
fn table_without_columns_skips_the_push() {
    let plan = TablePlan {
        table: "t".to_string(),
        columns: vec![],
        pks: vec![],
        integer_typed: false,
    };
    let (mut cycle, _) = TableCycle::start(plan, 1714903200000, "2024-05-05 10:00:00");
    assert_eq!(
        cycle.step(Event::LocalRows(Ok(vec![]))),
        Action::RemoteFetch("SELECT  FROM t WHERE updated_at > '1970-01-01 00:00:00'".to_string())
    );
}
