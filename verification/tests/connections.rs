use tauri_sync_db::connection::{sync_failure_message, DbState};

#[test]
fn new_manager_holds_nothing() {
    let state: DbState<u8, u16> = DbState::new();
    assert!(!state.is_cloud_sync_enabled());
    assert_eq!(state.get_sync_url(), "");
    assert_eq!(state.get_connection(), Err("Database not initialized".to_string()));
    assert_eq!(state.get_database(), Err("数据库未初始化".to_string()));
}

#[test]
fn installed_handles_are_handed_out() {
    let mut state: DbState<u8, u16> = DbState::new();
    state.install(7, 9);
    assert_eq!(state.get_connection(), Ok(&9));
    assert_eq!(state.get_database(), Ok(&7));
    assert!(!state.is_cloud_sync_enabled());
}

#[test]
fn sync_config_is_recorded() {
    let mut state: DbState<u8, u16> = DbState::new();
    state.set_sync_config(true, "libsql://a".to_string());
    assert!(state.is_cloud_sync_enabled());
    assert_eq!(state.get_sync_url(), "libsql://a");
    state.set_sync_config(false, String::new());
    assert!(!state.is_cloud_sync_enabled());
    assert_eq!(state.get_sync_url(), "");
}

#[test]
fn close_releases_the_handles_and_keeps_the_record() {
    let mut state: DbState<u8, u16> = DbState::new();
    state.install(7, 9);
    state.set_sync_config(true, "libsql://a".to_string());
    state.close();
    assert_eq!(state.get_connection(), Err("Database not initialized".to_string()));
    assert_eq!(state.get_database(), Err("数据库未初始化".to_string()));
    assert!(state.is_cloud_sync_enabled());
    assert_eq!(state.get_sync_url(), "libsql://a");
}

#[test]
fn placeholder_takes_over_a_finished_bootstrap() {
    let mut placeholder: DbState<u8, u16> = DbState::new();
    let mut ready: DbState<u8, u16> = DbState::new();
    ready.install(1, 2);
    ready.set_sync_config(true, "libsql://a".to_string());
    placeholder.update_from(ready);
    assert_eq!(placeholder.get_connection(), Ok(&2));
    assert_eq!(placeholder.get_database(), Ok(&1));
    assert!(placeholder.is_cloud_sync_enabled());
    assert_eq!(placeholder.get_sync_url(), "libsql://a");
}

#[test]
fn resync_of_a_local_database_is_reported_as_disabled() {
    assert_eq!(
        sync_failure_message("File mode database cannot sync"),
        "云同步未启用。请先配置云同步并重启应用。"
    );
    assert_eq!(
        sync_failure_message("sync is not supported in databases opened in File mode"),
        "云同步未启用。请先配置云同步并重启应用。"
    );
    assert_eq!(sync_failure_message("timeout"), "同步失败: timeout");
    assert_eq!(sync_failure_message(""), "同步失败: ");
    assert_eq!(sync_failure_message("file mode"), "同步失败: file mode");
}

#[test]
fn handles_are_replaced_each_on_its_own() {
    let mut state: DbState<u8, u16> = DbState::new();
    state.set_sync_config(true, "libsql://a".to_string());
    state.replace_handles(Some(3), None);
    assert_eq!(state.get_database(), Ok(&3));
    assert_eq!(state.get_connection(), Err("Database not initialized".to_string()));
    state.replace_handles(None, Some(4));
    assert_eq!(state.get_database(), Err("数据库未初始化".to_string()));
    assert_eq!(state.get_connection(), Ok(&4));
    assert!(state.is_cloud_sync_enabled());
}
