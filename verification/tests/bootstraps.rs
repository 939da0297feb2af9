use tauri_sync_db::bootstrap::{
    find_config_path, get_config_path, is_cloud_configured, is_recoverable, quarantine_plan,
    quarantine_steps,
    BootAction, BootEvent, BootPhase, Bootstrap, FileStep, OpenMode, SyncConfig,
};

fn config(url: &str, token: &str) -> Option<SyncConfig> {
    Some(SyncConfig { url: url.to_string(), token: token.to_string() })
}

fn attach_action() -> BootAction {
    BootAction::Attach { url: "libsql://db.example.io".to_string(), token: "tok".to_string() }
}

/// A bootstrap in cloud mode that has validated and waits for the first attach.
fn attaching() -> Bootstrap {
    let (mut boot, action) =
        Bootstrap::start("/data/app/notes.db".to_string(), config("libsql://db.example.io", "tok"));
    assert_eq!(
        action,
        BootAction::Validate {
            url: "libsql://db.example.io".to_string(),
            token: "tok".to_string()
        }
    );
    assert_eq!(boot.step(BootEvent::Validated(Ok(()))), attach_action());
    assert_eq!(boot.phase(), BootPhase::Attaching);
    boot
}

#[test]
fn config_file_lies_next_to_the_database() {
    assert_eq!(get_config_path("/data/app/notes.db"), "/data/app/sync_config.json");
    assert_eq!(get_config_path("notes.db"), "sync_config.json");
    assert_eq!(get_config_path("dir/notes.db"), "dir/sync_config.json");
    assert_eq!(
        find_config_path("/data/app/notes.db"),
        Some("/data/app/sync_config.json".to_string())
    );
    assert_eq!(find_config_path("/"), None);
    assert_eq!(find_config_path(""), None);
}

#[test]
fn cloud_mode_needs_both_fields() {
    assert!(is_cloud_configured(&config("libsql://a", "t")));
    assert!(!is_cloud_configured(&config("", "t")));
    assert!(!is_cloud_configured(&config("libsql://a", "")));
    assert!(!is_cloud_configured(&config("", "")));
    assert!(!is_cloud_configured(&None));
}

#[test]
fn known_mismatch_signatures_are_recoverable() {
    assert!(is_recoverable("Initial sync failed: local state is incorrect"));
    assert!(is_recoverable("Build failed: invalid local state (x)"));
    assert!(is_recoverable("server returned a conflict"));
    assert!(is_recoverable("Generation ID mismatch"));
    assert!(is_recoverable("wal frame mismatch detected"));
    assert!(is_recoverable("metadata file does not exist"));
    assert!(!is_recoverable("connection refused"));
    assert!(!is_recoverable("Mismatch"));
    assert!(!is_recoverable(""));
}

#[test]
fn quarantine_renames_the_database_and_clears_its_side_files() {
    assert_eq!(
        quarantine_steps("/data/app/notes.db"),
        Some(vec![
            FileStep::RemoveIfPresent("/data/app/notes.db.legacy".to_string()),
            FileStep::RenameOrRemove {
                from: "/data/app/notes.db".to_string(),
                to: "/data/app/notes.db.legacy".to_string(),
            },
            FileStep::Remove("/data/app/notes.db-wal".to_string()),
            FileStep::Remove("/data/app/notes.db-shm".to_string()),
            FileStep::RemoveTreeIfPresent("/data/app/notes.db-sync".to_string()),
        ])
    );
    assert_eq!(quarantine_steps("/"), None);
    assert_eq!(quarantine_steps(""), None);
}

#[test]
fn quarantine_plan_orders_the_steps() {
    assert_eq!(
        quarantine_plan("db", "backup", "wal", "shm", "meta"),
        vec![
            FileStep::RemoveIfPresent("backup".to_string()),
            FileStep::RenameOrRemove { from: "db".to_string(), to: "backup".to_string() },
            FileStep::Remove("wal".to_string()),
            FileStep::Remove("shm".to_string()),
            FileStep::RemoveTreeIfPresent("meta".to_string()),
        ]
    );
}

#[test]
fn missing_or_half_empty_config_opens_locally() {
    for cfg in [None, config("", "tok"), config("libsql://a", "")] {
        let (mut boot, action) = Bootstrap::start("/d/n.db".to_string(), cfg);
        assert_eq!(action, BootAction::OpenLocal);
        assert_eq!(boot.phase(), BootPhase::OpeningLocal);
        assert_eq!(boot.step(BootEvent::Opened(Ok(()))), BootAction::Prepare);
        assert_eq!(
            boot.step(BootEvent::Prepared(Ok(()))),
            BootAction::Finish(Ok(OpenMode { cloud: false, url: String::new() }))
        );
        assert_eq!(boot.phase(), BootPhase::Finished);
    }
}

#[test]
fn failed_validation_falls_back_silently() {
    let (mut boot, _) = Bootstrap::start("/d/n.db".to_string(), config("libsql://a", "t"));
    assert_eq!(
        boot.step(BootEvent::Validated(Err("Authentication failed (Invalid Token)".to_string()))),
        BootAction::OpenLocal
    );
    assert_eq!(boot.step(BootEvent::Opened(Ok(()))), BootAction::Prepare);
    assert_eq!(
        boot.step(BootEvent::Prepared(Ok(()))),
        BootAction::Finish(Ok(OpenMode { cloud: false, url: String::new() }))
    );
}

#[test]
fn clean_attach_opens_in_cloud_mode() {
    let mut boot = attaching();
    assert_eq!(boot.step(BootEvent::Attached(Ok(()))), BootAction::Prepare);
    assert_eq!(
        boot.step(BootEvent::Prepared(Ok(()))),
        BootAction::Finish(Ok(OpenMode {
            cloud: true,
            url: "libsql://db.example.io".to_string()
        }))
    );
}

#[test]
fn generation_mismatch_quarantines_and_retries_once() {
    let mut boot = attaching();
    let action =
        boot.step(BootEvent::Attached(Err("Initial sync failed: Generation ID mismatch".to_string())));
    assert_eq!(
        action,
        BootAction::Quarantine(quarantine_steps("/data/app/notes.db").unwrap())
    );
    assert_eq!(boot.phase(), BootPhase::Quarantining);
    assert_eq!(boot.step(BootEvent::Quarantined), attach_action());
    assert_eq!(boot.phase(), BootPhase::Reattaching);
    assert_eq!(boot.step(BootEvent::Attached(Ok(()))), BootAction::Prepare);
    assert_eq!(
        boot.step(BootEvent::Prepared(Ok(()))),
        BootAction::Finish(Ok(OpenMode {
            cloud: true,
            url: "libsql://db.example.io".to_string()
        }))
    );
}

#[test]
fn repeated_failure_ends_in_local_only_mode() {
    let mut boot = attaching();
    boot.step(BootEvent::Attached(Err("invalid local state".to_string())));
    boot.step(BootEvent::Quarantined);
    assert_eq!(
        boot.step(BootEvent::Attached(Err("Generation ID mismatch".to_string()))),
        BootAction::OpenLocal
    );
    assert_eq!(boot.step(BootEvent::Opened(Ok(()))), BootAction::Prepare);
    assert_eq!(
        boot.step(BootEvent::Prepared(Ok(()))),
        BootAction::Finish(Ok(OpenMode { cloud: false, url: String::new() }))
    );
}

#[test]
fn other_attach_failure_skips_the_quarantine() {
    let mut boot = attaching();
    assert_eq!(
        boot.step(BootEvent::Attached(Err("Build failed: connection refused".to_string()))),
        BootAction::OpenLocal
    );
}

#[test]
fn only_local_open_and_preparation_failures_reach_the_caller() {
    let (mut boot, _) = Bootstrap::start("/d/n.db".to_string(), None);
    assert_eq!(
        boot.step(BootEvent::Opened(Err("Failed to build local db: x".to_string()))),
        BootAction::Finish(Err("Failed to build local db: x".to_string()))
    );
    let (mut boot, _) = Bootstrap::start("/d/n.db".to_string(), None);
    boot.step(BootEvent::Opened(Ok(())));
    assert_eq!(
        boot.step(BootEvent::Prepared(Err("migration 3 failed".to_string()))),
        BootAction::Finish(Err("migration 3 failed".to_string()))
    );
}

#[test]
fn event_that_was_not_asked_for_ends_the_bootstrap() {
    let (mut boot, _) = Bootstrap::start("/d/n.db".to_string(), None);
    assert_eq!(
        boot.step(BootEvent::Quarantined),
        BootAction::Finish(Err("Unexpected event for this phase of the bootstrap".to_string()))
    );
    assert_eq!(boot.phase(), BootPhase::Finished);
}
