//! The connection manager: the one context object that holds the database
//! handle, the connection, and whether cloud sync is on.
//!
//! The manager does not know what a handle is. The caller picks the handle
//! types, shares the manager as it sees fit, and does the waiting.

use vstd::prelude::*;
use crate::text::{contains_text, occurs_in};

verus! {

/// The message for a manager that holds no connection yet.
pub open spec fn not_initialized_text() -> Seq<char> {
    "Database not initialized"@
}

/// The message for a resync asked of a manager that holds no database.
pub open spec fn no_database_text() -> Seq<char> {
    "数据库未初始化"@
}

/// The message for a resync asked of a database that is not replicated.
pub open spec fn sync_disabled_text() -> Seq<char> {
    "云同步未启用。请先配置云同步并重启应用。"@
}

/// The failure of a resync shows that the database is not replicated.
pub open spec fn not_replicated(cause: Seq<char>) -> bool {
    occurs_in("File mode"@, cause) || occurs_in("not supported"@, cause)
}

/// What a failed resync is reported as.
pub open spec fn sync_failure_text(cause: Seq<char>) -> Seq<char> {
    if not_replicated(cause) {
        sync_disabled_text()
    } else {
        "同步失败: "@ + cause
    }
}

/// Writes the report of a failed resync.
pub fn sync_failure_message(cause: &str) -> (out: String)
    ensures
        out@ == sync_failure_text(cause@),
{
    if contains_text(cause, "File mode") || contains_text(cause, "not supported") {
        String::from_str("云同步未启用。请先配置云同步并重启应用。")
    } else {
        let mut out = String::from_str("同步失败: ");
        out.append(cause);
        out
    }
}

/// The connection manager, over a database handle `D` and a connection `C`.
pub struct DbState<D, C> {
    db: Option<D>,
    conn: Option<C>,
    is_sync_enabled: bool,
    sync_url: String,
}

/// A [`DbState`] as contracts see it.
pub struct DbStateView<D, C> {
    pub db: Option<D>,
    pub conn: Option<C>,
    /// Whether cloud sync is on for this session.
    pub is_sync_enabled: bool,
    /// The remote address, kept for the log.
    pub sync_url: Seq<char>,
}

impl<D, C> View for DbState<D, C> {
    type V = DbStateView<D, C>;

    closed spec fn view(&self) -> DbStateView<D, C> {
        DbStateView {
            db: self.db,
            conn: self.conn,
            is_sync_enabled: self.is_sync_enabled,
            sync_url: self.sync_url@,
        }
    }
}

impl<D, C> DbState<D, C> {
    /// A manager that holds nothing: the placeholder that stands in until
    /// the bootstrap is through.
    pub fn new() -> (out: Self)
        ensures
            out@ == (DbStateView::<D, C> {
                db: None,
                conn: None,
                is_sync_enabled: false,
                sync_url: Seq::empty(),
            }),
    {
        DbState { db: None, conn: None, is_sync_enabled: false, sync_url: String::new() }
    }

    /// Whether cloud sync is on for this session.
    pub fn is_cloud_sync_enabled(&self) -> (out: bool)
        ensures
            out == self@.is_sync_enabled,
    {
        self.is_sync_enabled
    }

    /// Records whether cloud sync is on, and the remote address.
    pub fn set_sync_config(&mut self, enabled: bool, url: String)
        ensures
            final(self)@ == (DbStateView { is_sync_enabled: enabled, sync_url: url@, ..old(self)@ }),
    {
        self.is_sync_enabled = enabled;
        self.sync_url = url;
    }

    /// The remote address.
    pub fn get_sync_url(&self) -> (out: String)
        ensures
            out@ == self@.sync_url,
    {
        self.sync_url.clone()
    }

    /// Takes over a database that was opened, with its connection.
    pub fn install(&mut self, db: D, conn: C)
        ensures
            final(self)@ == (DbStateView { db: Some(db), conn: Some(conn), ..old(self)@ }),
    {
        self.db = Some(db);
        self.conn = Some(conn);
    }

    /// Takes the handles as they are given, each on its own: what is given
    /// is held, and what is not given is let go of.
    pub fn replace_handles(&mut self, db: Option<D>, conn: Option<C>)
        ensures
            final(self)@ == (DbStateView { db, conn, ..old(self)@ }),
    {
        self.db = db;
        self.conn = conn;
    }

    /// The connection, or an error where no database was opened yet.
    pub fn get_connection(&self) -> (out: Result<&C, String>)
        ensures
            match self@.conn {
                Some(conn) => out == Ok::<&C, String>(&conn),
                None => out matches Err(message) && message@ == not_initialized_text(),
            },
    {
        match &self.conn {
            Some(conn) => Ok(conn),
            None => Err(String::from_str("Database not initialized")),
        }
    }

    /// The database handle that a resync is asked of, or an error where no
    /// database was opened yet.
    pub fn get_database(&self) -> (out: Result<&D, String>)
        ensures
            match self@.db {
                Some(db) => out == Ok::<&D, String>(&db),
                None => out matches Err(message) && message@ == no_database_text(),
            },
    {
        match &self.db {
            Some(db) => Ok(db),
            None => Err(String::from_str("数据库未初始化")),
        }
    }

    /// Lets go of the connection and of the database. What is recorded of
    /// cloud sync stays.
    pub fn close(&mut self)
        ensures
            final(self)@ == (DbStateView { db: None, conn: None, ..old(self)@ }),
    {
        self.conn = None;
        self.db = None;
    }

    /// Takes over all that another manager holds: the way a bootstrap that
    /// ended after the placeholder was handed out brings it up to date.
    pub fn update_from(&mut self, other: DbState<D, C>)
        ensures
            final(self)@ == other@,
    {
        self.db = other.db;
        self.conn = other.conn;
        self.is_sync_enabled = other.is_sync_enabled;
        self.sync_url = other.sync_url;
    }
}

} // verus!
