use tauri_sync_db::cycle::{Action, Event, TableCycle, TablePlan};
use tauri_sync_db::orchestrator::{reconcile_statements, survey, table_plans};
use tauri_sync_db::schema::{table_info_sql, ColumnMeta, DynamicSchema};

/// A database in memory, driven on a runtime of its own.
struct Store {
    runtime: tokio::runtime::Runtime,
    conn: libsql::Connection,
    _db: libsql::Database,
}

impl Store {
    fn open(setup: &[&str]) -> Store {
        let runtime = tokio::runtime::Builder::new_current_thread().enable_all().build().unwrap();
        let db = runtime.block_on(libsql::Builder::new_local(":memory:").build()).unwrap();
        let conn = db.connect().unwrap();
        let store = Store { runtime, conn, _db: db };
        for sql in setup {
            store.exec(sql).unwrap();
        }
        store
    }

    fn exec(&self, sql: &str) -> Result<(), String> {
        self.runtime.block_on(self.conn.execute(sql, ())).map(|_| ()).map_err(|e| e.to_string())
    }

    fn query(&self, sql: &str) -> Result<Vec<Vec<Option<String>>>, String> {
        self.runtime.block_on(async {
            let mut rows = self.conn.query(sql, ()).await.map_err(|e| e.to_string())?;
            let width = rows.column_count();
            let mut out = Vec::new();
            while let Some(row) = rows.next().await.map_err(|e| e.to_string())? {
                let mut values = Vec::new();
                for i in 0..width {
                    values.push(match row.get_value(i).map_err(|e| e.to_string())? {
                        libsql::Value::Null => None,
                        libsql::Value::Integer(n) => Some(n.to_string()),
                        libsql::Value::Real(x) => Some(x.to_string()),
                        libsql::Value::Text(s) => Some(s),
                        libsql::Value::Blob(_) => None,
                    });
                }
                out.push(values);
            }
            Ok(out)
        })
    }
}

const NOTES: &str =
    "CREATE TABLE notes (id INTEGER PRIMARY KEY, text TEXT, updated_at INTEGER NOT NULL)";
const LEDGER: &str = "CREATE TABLE sync_status (table_name TEXT PRIMARY KEY, last_sync_time \
    TEXT, last_sync_direction TEXT, sync_count INTEGER)";

fn notes_plan() -> TablePlan {
    TablePlan {
        table: "notes".to_string(),
        columns: vec!["id".to_string(), "text".to_string(), "updated_at".to_string()],
        pks: vec!["id".to_string()],
        integer_typed: true,
    }
}

/// Runs one cycle to its end, doing what the machine asks for on the two stores.
fn run_cycle(plan: TablePlan, now: i64, local: &Store, remote: &Store) -> (TableCycle, Result<(), String>) {
    let (mut cycle, mut action) = TableCycle::start(plan, now, "2027-01-15 08:00:00");
    loop {
        let event = match action {
            Action::QueryLocal(sql) => Event::LocalRows(local.query(&sql)),
            Action::RemoteBatch(statements) => {
                let mut outcome = Ok(());
                for (i, sql) in statements.iter().enumerate() {
                    if let Err(e) = remote.exec(sql) {
                        outcome = Err(format!("Batch statement {} failed: {}", i, e));
                        break;
                    }
                }
                Event::RemoteDone(outcome)
            }
            Action::RemoteFetch(sql) => Event::RemoteRows(remote.query(&sql)),
            Action::BeginLocalWrite => Event::LocalDone(local.exec("BEGIN")),
            Action::LookupStamp(sql) => Event::LocalStamp(
                local.query(&sql).map(|rows| rows.into_iter().next().and_then(|r| r.into_iter().next().flatten())),
            ),
            Action::ExecLocal(sql) => Event::LocalDone(local.exec(&sql)),
            Action::CommitLocalWrite => Event::LocalDone(local.exec("COMMIT")),
            Action::Finish(outcome) => return (cycle, outcome),
        };
        action = cycle.step(event);
    }
}

fn notes_of(store: &Store) -> Vec<Vec<Option<String>>> {
    store.query("SELECT id, text, updated_at FROM notes ORDER BY id").unwrap()
}

fn cell(text: &str) -> Option<String> {
    Some(text.to_string())
}

#[test]
fn push_brings_a_local_row_to_the_remote_side() {
    let local = Store::open(&[
        NOTES,
        LEDGER,
        "INSERT INTO notes VALUES (1, 'first', 1700000000000)",
        "INSERT INTO sync_status VALUES ('notes', '0', 'both', 4)",
    ]);
    let remote = Store::open(&[NOTES]);
    let (cycle, outcome) = run_cycle(notes_plan(), 1800000000000, &local, &remote);
    assert_eq!(outcome, Ok(()));
    assert_eq!(cycle.pushed(), 1);
    assert_eq!(notes_of(&remote), vec![vec![cell("1"), cell("first"), cell("1700000000000")]]);
    assert_eq!(
        local.query("SELECT last_sync_time, last_sync_direction, sync_count FROM sync_status").unwrap(),
        vec![vec![cell("1800000000000"), cell("both"), cell("5")]]
    );

    let (again, outcome) = run_cycle(notes_plan(), 1800000000001, &local, &remote);
    assert_eq!(outcome, Ok(()));
    assert_eq!(again.watermark(), "1800000000000");
    assert_eq!((again.pushed(), again.applied(), again.conflicts(), again.skipped()), (0, 0, 0, 0));
    assert_eq!(notes_of(&remote), vec![vec![cell("1"), cell("first"), cell("1700000000000")]]);
    assert_eq!(notes_of(&local), vec![vec![cell("1"), cell("first"), cell("1700000000000")]]);
}

#[test]
fn second_cycle_at_the_same_clock_reading_leaves_the_watermark() {
    let local = Store::open(&[NOTES, LEDGER, "INSERT INTO notes VALUES (1, 'a', 5)"]);
    let remote = Store::open(&[NOTES]);
    assert_eq!(run_cycle(notes_plan(), 1000, &local, &remote).1, Ok(()));
    let stored = local.query("SELECT last_sync_time, sync_count FROM sync_status").unwrap();
    assert_eq!(stored, vec![vec![cell("1000"), cell("1")]]);
    let (again, outcome) = run_cycle(notes_plan(), 1000, &local, &remote);
    assert_eq!(outcome, Ok(()));
    assert_eq!((again.pushed(), again.applied()), (0, 0));
    assert_eq!(
        local.query("SELECT last_sync_time, sync_count FROM sync_status").unwrap(),
        vec![vec![cell("1000"), cell("2")]]
    );
}

#[test]
fn stored_watermark_never_goes_back_while_the_clock_goes_on() {
    let local = Store::open(&[NOTES, LEDGER, "INSERT INTO notes VALUES (1, 'a', 5)"]);
    let remote = Store::open(&[NOTES]);
    let mut before: i64 = 0;
    for now in [1000, 1000, 2500, 40000] {
        assert_eq!(run_cycle(notes_plan(), now, &local, &remote).1, Ok(()));
        let stored = local.query("SELECT last_sync_time FROM sync_status").unwrap();
        let after: i64 = stored[0][0].clone().unwrap().parse().unwrap();
        assert!(after >= before);
        assert_eq!(after, now);
        before = after;
    }
    assert_eq!(
        local.query("SELECT sync_count FROM sync_status").unwrap(),
        vec![vec![cell("4")]]
    );
}

#[test]
fn legacy_ledger_entry_filters_as_milliseconds_and_is_replaced_by_an_integer() {
    let local = Store::open(&[
        NOTES,
        LEDGER,
        "INSERT INTO sync_status VALUES ('notes', '2024-01-01 00:00:00', 'both', 7)",
        "INSERT INTO notes VALUES (1, 'before', 1704067200000)",
        "INSERT INTO notes VALUES (2, 'after', 1704067200001)",
    ]);
    let remote = Store::open(&[NOTES, "INSERT INTO notes VALUES (3, 'old remote', 1704067199999)"]);
    let (cycle, outcome) = run_cycle(notes_plan(), 1800000000000, &local, &remote);
    assert_eq!(outcome, Ok(()));
    assert_eq!(cycle.watermark(), "1704067200000");
    // The pushed row is newer than the watermark on the remote side too, so
    // the pull meets it again and writes it over its equal.
    assert_eq!((cycle.pushed(), cycle.applied(), cycle.conflicts()), (1, 1, 0));
    assert_eq!(
        notes_of(&local),
        vec![
            vec![cell("1"), cell("before"), cell("1704067200000")],
            vec![cell("2"), cell("after"), cell("1704067200001")],
        ]
    );
    assert_eq!(
        notes_of(&remote),
        vec![
            vec![cell("2"), cell("after"), cell("1704067200001")],
            vec![cell("3"), cell("old remote"), cell("1704067199999")],
        ]
    );
    assert_eq!(
        local.query("SELECT last_sync_time, sync_count FROM sync_status").unwrap(),
        vec![vec![cell("1800000000000"), cell("8")]]
    );
}

#[test]
fn incoming_row_without_key_value_leaves_the_local_side_alone() {
    let local = Store::open(&[
        "CREATE TABLE notes (id TEXT PRIMARY KEY, text TEXT, updated_at INTEGER)",
        LEDGER,
    ]);
    let remote = Store::open(&[
        "CREATE TABLE notes (id TEXT, text TEXT, updated_at INTEGER)",
        "INSERT INTO notes VALUES (NULL, 'no key', 10)",
        "INSERT INTO notes VALUES ('', 'empty key', 11)",
        "INSERT INTO notes VALUES ('k', 'keyed', 12)",
    ]);
    let (cycle, outcome) = run_cycle(notes_plan(), 1000, &local, &remote);
    assert_eq!(outcome, Ok(()));
    assert_eq!((cycle.applied(), cycle.conflicts(), cycle.skipped()), (1, 0, 2));
    assert_eq!(notes_of(&local), vec![vec![cell("k"), cell("keyed"), cell("12")]]);
}

#[test]
fn pull_keeps_a_newer_local_row() {
    let local = Store::open(&[NOTES, LEDGER, "INSERT INTO notes VALUES (1, 'local', 1700000000002)"]);
    let remote = Store::open(&[
        NOTES,
        "INSERT INTO notes VALUES (1, 'remote', 1700000000001)",
        "INSERT INTO notes VALUES (2, 'only remote', 1700000000001)",
    ]);
    let local_before = local.query("SELECT * FROM notes WHERE id = 1").unwrap();
    let (mut cycle, _) = TableCycle::start(notes_plan(), 1800000000000, "2027-01-15 08:00:00");
    // The local delta is held back, so that only the pull is at work.
    cycle.step(Event::LocalRows(Ok(vec![])));
    let mut action = cycle.step(Event::LocalRows(Ok(vec![])));
    let outcome = loop {
        let event = match action {
            Action::RemoteFetch(sql) => Event::RemoteRows(remote.query(&sql)),
            Action::BeginLocalWrite => Event::LocalDone(local.exec("BEGIN")),
            Action::LookupStamp(sql) => Event::LocalStamp(
                local.query(&sql).map(|rows| rows.into_iter().next().and_then(|r| r.into_iter().next().flatten())),
            ),
            Action::ExecLocal(sql) => Event::LocalDone(local.exec(&sql)),
            Action::CommitLocalWrite => Event::LocalDone(local.exec("COMMIT")),
            Action::Finish(outcome) => break outcome,
            other => panic!("not asked for here: {:?}", other),
        };
        action = cycle.step(event);
    };
    assert_eq!(outcome, Ok(()));
    assert_eq!((cycle.applied(), cycle.conflicts(), cycle.skipped()), (1, 1, 0));
    assert_eq!(local.query("SELECT * FROM notes WHERE id = 1").unwrap(), local_before);
    assert_eq!(
        notes_of(&local),
        vec![
            vec![cell("1"), cell("local"), cell("1700000000002")],
            vec![cell("2"), cell("only remote"), cell("1700000000001")],
        ]
    );
}

#[test]
fn both_sides_end_with_the_later_write() {
    let local = Store::open(&[
        NOTES,
        LEDGER,
        "INSERT INTO notes VALUES (1, 'local newer', 1700000000009)",
        "INSERT INTO notes VALUES (2, 'local older', 1700000000001)",
        "INSERT INTO notes VALUES (3, 'it''s local', 1700000000005)",
    ]);
    let remote = Store::open(&[
        NOTES,
        "INSERT INTO notes VALUES (1, 'remote older', 1700000000001)",
        "INSERT INTO notes VALUES (2, 'remote newer', 1700000000009)",
        "INSERT INTO notes VALUES (4, NULL, 1700000000005)",
    ]);
    let (cycle, outcome) = run_cycle(notes_plan(), 1800000000000, &local, &remote);
    assert_eq!(outcome, Ok(()));
    assert_eq!(cycle.pushed(), 3);
    let merged = vec![
        vec![cell("1"), cell("local newer"), cell("1700000000009")],
        vec![cell("2"), cell("remote newer"), cell("1700000000009")],
        vec![cell("3"), cell("it's local"), cell("1700000000005")],
        vec![cell("4"), None, cell("1700000000005")],
    ];
    assert_eq!(notes_of(&remote), merged);
    assert_eq!(notes_of(&local), merged);
}

#[test]
fn integer_stamps_of_different_lengths_go_by_the_number() {
    let local = Store::open(&[
        NOTES,
        LEDGER,
        "INSERT INTO notes VALUES (1, 'local newer', 10)",
        "INSERT INTO notes VALUES (2, 'local older', 9)",
        "INSERT INTO sync_status VALUES ('notes', '100', 'both', 1)",
    ]);
    let remote = Store::open(&[
        NOTES,
        "INSERT INTO notes VALUES (1, 'remote older', 9)",
        "INSERT INTO notes VALUES (2, 'remote newer', 10)",
    ]);
    let (mut cycle, _) = TableCycle::start(notes_plan(), 1000, "1970-01-01 00:00:01");
    // Both deltas are handed in as they stand, whatever the watermark.
    cycle.step(Event::LocalRows(Ok(vec![])));
    cycle.step(Event::LocalRows(Ok(vec![])));
    let mut action = cycle.step(Event::RemoteRows(remote.query(
        "SELECT id, text, updated_at FROM notes ORDER BY id",
    )));
    let outcome = loop {
        let event = match action {
            Action::BeginLocalWrite => Event::LocalDone(local.exec("BEGIN")),
            Action::LookupStamp(sql) => Event::LocalStamp(
                local.query(&sql).map(|rows| rows.into_iter().next().and_then(|r| r.into_iter().next().flatten())),
            ),
            Action::ExecLocal(sql) => Event::LocalDone(local.exec(&sql)),
            Action::CommitLocalWrite => Event::LocalDone(local.exec("COMMIT")),
            Action::Finish(outcome) => break outcome,
            other => panic!("not asked for here: {:?}", other),
        };
        action = cycle.step(event);
    };
    assert_eq!(outcome, Ok(()));
    assert_eq!((cycle.applied(), cycle.conflicts(), cycle.skipped()), (1, 1, 0));
    assert_eq!(
        notes_of(&local),
        vec![
            vec![cell("1"), cell("local newer"), cell("10")],
            vec![cell("2"), cell("remote newer"), cell("10")],
        ]
    );
}

#[test]
fn missing_ledger_fails_the_table_before_anything_moves() {
    let local = Store::open(&[NOTES, "INSERT INTO notes VALUES (1, 'a', 5)"]);
    let remote = Store::open(&[NOTES]);
    let (cycle, outcome) = run_cycle(notes_plan(), 1000, &local, &remote);
    assert!(outcome.is_err());
    assert_eq!(cycle.pushed(), 0);
    assert!(notes_of(&remote).is_empty());
}

#[test]
fn remote_failure_fails_the_table_and_keeps_the_watermark() {
    let local = Store::open(&[NOTES, LEDGER, "INSERT INTO notes VALUES (1, 'a', 5)"]);
    let remote = Store::open(&[]);
    let (_, outcome) = run_cycle(notes_plan(), 1000, &local, &remote);
    let message = outcome.unwrap_err();
    assert!(message.starts_with("Batch statement 0 failed: "), "{}", message);
    assert!(local.query("SELECT * FROM sync_status").unwrap().is_empty());
}

#[test]
fn schema_is_read_off_the_catalog_and_plans_the_sync() {
    let local = Store::open(&[
        NOTES,
        LEDGER,
        "CREATE TABLE links (src TEXT, dst TEXT, updated_at TEXT, deleted_at TEXT, \
         PRIMARY KEY (dst, src))",
    ]);
    let mut catalog = Vec::new();
    for table in ["notes", "links", "sync_status"] {
        let rows = local.query(&table_info_sql(table)).unwrap();
        let metas: Vec<ColumnMeta> = rows
            .into_iter()
            .map(|r| ColumnMeta {
                name: r[1].clone().unwrap(),
                col_type: r[2].clone().unwrap(),
                pk_idx: r[5].clone().unwrap().parse().unwrap(),
            })
            .collect();
        catalog.push((table.to_string(), metas));
    }
    let schema = DynamicSchema::load(&catalog);
    let facts = survey(&schema);
    let plans = table_plans(&facts);
    assert_eq!(
        plans,
        vec![
            notes_plan(),
            TablePlan {
                table: "links".to_string(),
                columns: vec![
                    "src".to_string(),
                    "dst".to_string(),
                    "updated_at".to_string(),
                    "deleted_at".to_string()
                ],
                pks: vec!["dst".to_string(), "src".to_string()],
                integer_typed: false,
            },
        ]
    );
    let remote = Store::open(&[
        "CREATE TABLE notes (id INTEGER PRIMARY KEY, text TEXT)",
        "CREATE TABLE links (src TEXT, dst TEXT, updated_at TEXT, PRIMARY KEY (dst, src))",
    ]);
    let outcomes: Vec<bool> =
        reconcile_statements(&facts).iter().map(|sql| remote.exec(sql).is_ok()).collect();
    assert_eq!(outcomes, vec![true, false, true]);
    assert_eq!(remote.exec("INSERT INTO notes (id, text) VALUES (1, 'x')"), Ok(()));
    assert_eq!(notes_of(&remote), vec![vec![cell("1"), cell("x"), cell("0")]]);
    assert_eq!(remote.exec("INSERT INTO links (src, dst) VALUES ('a', 'b')"), Ok(()));
    assert_eq!(
        remote.query("SELECT updated_at, deleted_at FROM links").unwrap(),
        vec![vec![None, cell("1970-01-01T00:00:00")]]
    );
}
