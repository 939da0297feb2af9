//! Opening the local replica: local-only, or bound to the remote database,
//! with one quarantine-and-rebuild when the local replica no longer fits the
//! remote one.
//!
//! The caller touches the files, the network and the database; this module
//! decides. Paths are texts, read as `std::path` reads them on the platform
//! the library is built for.

use vstd::prelude::*;
use crate::text::{contains_text, occurs_in};

verus! {

/// The credentials of the remote database, kept in a sidecar file next to
/// the local database file.
#[derive(Clone, Debug, PartialEq, Eq)]
pub struct SyncConfig {
    pub url: String,
    pub token: String,
}

/// The name of the sidecar file.
pub open spec fn config_file_name() -> Seq<char> {
    "sync_config.json"@
}

/// Cloud mode is on: there is a configuration and neither field is empty.
pub open spec fn cloud_configured(config: Option<SyncConfig>) -> bool {
    match config {
        Some(c) => c.url@.len() > 0 && c.token@.len() > 0,
        None => false,
    }
}

/// Whether the configuration switches cloud mode on.
pub fn is_cloud_configured(config: &Option<SyncConfig>) -> (out: bool)
    ensures
        out == cloud_configured(*config),
{
    match config {
        Some(c) => !c.url.as_str().is_empty() && !c.token.as_str().is_empty(),
        None => false,
    }
}

/// The directory that a path lies in, as `Path::parent` gives it; none for a
/// root and for the empty path.
pub uninterp spec fn parent_text(path: Seq<char>) -> Option<Seq<char>>;

/// The last component of a path, as `Path::file_name` gives it; none where
/// the path ends in `..` or names a root.
pub uninterp spec fn file_name_text(path: Seq<char>) -> Option<Seq<char>>;

/// A directory's path extended by a name, as `Path::join` gives it.
pub uninterp spec fn joined_path(dir: Seq<char>, name: Seq<char>) -> Seq<char>;

/// A path with its extension replaced, as `Path::with_extension` gives it.
pub uninterp spec fn extension_replaced(path: Seq<char>, extension: Seq<char>) -> Seq<char>;

/// The text holds a path separator.
pub open spec fn has_separator(s: Seq<char>) -> bool {
    exists|i: int| 0 <= i < s.len() && (#[trigger] s[i] == '/' || s[i] == '\\')
}

/// `Path::parent`. The result is named, not described.
#[verifier::external_body]
pub(crate) fn parent_dir(path: &str) -> (out: Option<String>)
    ensures
        out.deep_view() == parent_text(path@),
{
    std::path::Path::new(path).parent().map(|p| p.to_string_lossy().into_owned())
}

/// `Path::file_name`. The result is named, not described.
#[verifier::external_body]
pub(crate) fn file_name_of(path: &str) -> (out: Option<String>)
    ensures
        out.deep_view() == file_name_text(path@),
{
    std::path::Path::new(path).file_name().map(|n| n.to_string_lossy().into_owned())
}

/// `Path::join`. The result is named, not described.
#[verifier::external_body]
pub(crate) fn join_path(dir: &str, name: &str) -> (out: String)
    ensures
        out@ == joined_path(dir@, name@),
{
    std::path::Path::new(dir).join(name).to_string_lossy().into_owned()
}

/// `Path::with_extension`, which does not take a separator in the
/// extension. The result is named, not described.
#[verifier::external_body]
pub(crate) fn with_extension(path: &str, extension: &str) -> (out: String)
    requires
        !has_separator(extension@),
    ensures
        out@ == extension_replaced(path@, extension@),
{
    std::path::Path::new(path).with_extension(extension).to_string_lossy().into_owned()
}

/// The path of the sidecar configuration file: `sync_config.json` in the
/// directory of the database file. The database path must lie in a
/// directory.
pub fn get_config_path(db_path: &str) -> (out: String)
    requires
        parent_text(db_path@) is Some,
    ensures
        out@ == joined_path(parent_text(db_path@).unwrap(), config_file_name()),
{
    match parent_dir(db_path) {
        Some(dir) => join_path(dir.as_str(), "sync_config.json"),
        None => String::new(),
    }
}

/// The path of the sidecar configuration file, or none where the database
/// path lies in no directory.
pub fn find_config_path(db_path: &str) -> (out: Option<String>)
    ensures
        match parent_text(db_path@) {
            Some(dir) => out is Some && out.unwrap()@ == joined_path(dir, config_file_name()),
            None => out is None,
        },
{
    match parent_dir(db_path) {
        Some(_) => Some(get_config_path(db_path)),
        None => None,
    }
}

/// The failure of an attach shows that the local replica no longer fits the
/// remote one: its message bears one of the known signatures of a generation
/// or state mismatch.
pub open spec fn recoverable(message: Seq<char>) -> bool {
    ||| occurs_in("local state is incorrect"@, message)
    ||| occurs_in("invalid local state"@, message)
    ||| occurs_in("server returned a conflict"@, message)
    ||| occurs_in("Generation ID mismatch"@, message)
    ||| occurs_in("mismatch"@, message)
    ||| occurs_in("metadata file does not"@, message)
}

/// Whether the failure of an attach calls for the quarantine and rebuild.
pub fn is_recoverable(message: &str) -> (out: bool)
    ensures
        out == recoverable(message@),
{
    contains_text(message, "local state is incorrect") || contains_text(
        message,
        "invalid local state",
    ) || contains_text(message, "server returned a conflict") || contains_text(
        message,
        "Generation ID mismatch",
    ) || contains_text(message, "mismatch") || contains_text(message, "metadata file does not")
}

/// One step of the quarantine. Every step is best effort: what it cannot do
/// it leaves.
#[derive(Clone, Debug, PartialEq, Eq)]
pub enum FileStep {
    /// Delete the file if it is there.
    RemoveIfPresent(String),
    /// Rename `from` to `to`; where that fails, delete `from`.
    RenameOrRemove { from: String, to: String },
    /// Delete the file.
    Remove(String),
    /// Delete the directory with all it holds, or the file of that name, if
    /// it is there.
    RemoveTreeIfPresent(String),
}

/// A [`FileStep`] as contracts see it.
pub enum FileStepView {
    RemoveIfPresent(Seq<char>),
    RenameOrRemove { from: Seq<char>, to: Seq<char> },
    Remove(Seq<char>),
    RemoveTreeIfPresent(Seq<char>),
}

impl DeepView for FileStep {
    type V = FileStepView;

    open spec fn deep_view(&self) -> FileStepView {
        match self {
            FileStep::RemoveIfPresent(path) => FileStepView::RemoveIfPresent(path@),
            FileStep::RenameOrRemove { from, to } => FileStepView::RenameOrRemove {
                from: from@,
                to: to@,
            },
            FileStep::Remove(path) => FileStepView::Remove(path@),
            FileStep::RemoveTreeIfPresent(path) => FileStepView::RemoveTreeIfPresent(path@),
        }
    }
}

/// The quarantine backup of a database file: the file's path with the
/// extension `db.legacy`.
pub open spec fn backup_text(db_path: Seq<char>) -> Seq<char> {
    extension_replaced(db_path, "db.legacy"@)
}

/// The replication-metadata directory of a database file: beside the file,
/// named like it with `-sync` behind.
pub open spec fn sync_dir_text(dir: Seq<char>, file_name: Seq<char>) -> Seq<char> {
    joined_path(dir, file_name + "-sync"@)
}

/// The quarantine of a database file, step by step, given the paths of its
/// side files: the backup of an earlier quarantine goes, the database file
/// becomes the backup, its write-ahead log and shared-memory file go, and so
/// does the replication metadata.
pub open spec fn quarantine_plan_of(
    db_path: Seq<char>,
    backup: Seq<char>,
    wal: Seq<char>,
    shm: Seq<char>,
    sync_dir: Seq<char>,
) -> Seq<FileStepView> {
    seq![
        FileStepView::RemoveIfPresent(backup),
        FileStepView::RenameOrRemove { from: db_path, to: backup },
        FileStepView::Remove(wal),
        FileStepView::Remove(shm),
        FileStepView::RemoveTreeIfPresent(sync_dir),
    ]
}

/// Puts the quarantine steps in their order, given the paths of the side
/// files.
pub fn quarantine_plan(db_path: &str, backup: &str, wal: &str, shm: &str, sync_dir: &str) -> (out:
    Vec<FileStep>)
    ensures
        out.deep_view() == quarantine_plan_of(db_path@, backup@, wal@, shm@, sync_dir@),
{
    let mut steps: Vec<FileStep> = Vec::new();
    steps.push(FileStep::RemoveIfPresent(String::from_str(backup)));
    steps.push(
        FileStep::RenameOrRemove { from: String::from_str(db_path), to: String::from_str(backup) },
    );
    steps.push(FileStep::Remove(String::from_str(wal)));
    steps.push(FileStep::Remove(String::from_str(shm)));
    steps.push(FileStep::RemoveTreeIfPresent(String::from_str(sync_dir)));
    proof {
        assert(steps.deep_view() =~= quarantine_plan_of(db_path@, backup@, wal@, shm@, sync_dir@));
    }
    steps
}

/// The quarantine of a database file: the steps of [`quarantine_plan_of`]
/// with the backup, the write-ahead log and the shared-memory file beside
/// the database file under the extensions `db.legacy`, `db-wal` and
/// `db-shm`, and the replication metadata beside it under the file's name
/// with `-sync` behind. None for a path that lies in no directory or names
/// no file.
pub open spec fn quarantine_of(db_path: Seq<char>) -> Option<Seq<FileStepView>> {
    match (parent_text(db_path), file_name_text(db_path)) {
        (Some(dir), Some(file_name)) => Some(
            quarantine_plan_of(
                db_path,
                backup_text(db_path),
                extension_replaced(db_path, "db-wal"@),
                extension_replaced(db_path, "db-shm"@),
                sync_dir_text(dir, file_name),
            ),
        ),
        _ => None,
    }
}

/// No character of the three extensions is a path separator.
proof fn lemma_extensions_have_no_separator()
    ensures
        !has_separator("db.legacy"@),
        !has_separator("db-wal"@),
        !has_separator("db-shm"@),
{
    reveal_strlit("db.legacy");
    reveal_strlit("db-wal");
    reveal_strlit("db-shm");
}

/// Plans the quarantine of a database file.
pub fn quarantine_steps(db_path: &str) -> (out: Option<Vec<FileStep>>)
    ensures
        out.deep_view() == quarantine_of(db_path@),
{
    let dir = match parent_dir(db_path) {
        Some(dir) => dir,
        None => {
            return None;
        },
    };
    let mut dir_name = match file_name_of(db_path) {
        Some(name) => name,
        None => {
            return None;
        },
    };
    proof {
        lemma_extensions_have_no_separator();
    }
    dir_name.append("-sync");
    let backup = with_extension(db_path, "db.legacy");
    let wal = with_extension(db_path, "db-wal");
    let shm = with_extension(db_path, "db-shm");
    let sync_dir = join_path(dir.as_str(), dir_name.as_str());
    Some(
        quarantine_plan(db_path, backup.as_str(), wal.as_str(), shm.as_str(), sync_dir.as_str()),
    )
}

/// Where the bootstrap stands: what it is waiting for.
#[derive(Clone, Copy, Debug, PartialEq, Eq)]
pub enum BootPhase {
    /// The remote side is being asked whether it is there and takes the
    /// token.
    Validating,
    /// The replicated database is being built and synced for the first time.
    Attaching,
    /// The old local replica is being moved out of the way.
    Quarantining,
    /// The replicated database is being built again, on a clean state.
    Reattaching,
    /// A purely local database is being opened.
    OpeningLocal,
    /// Foreign keys are being switched on and the migrations run.
    Preparing,
    /// The bootstrap is over.
    Finished,
}

/// What the caller reports back.
#[derive(Debug, PartialEq, Eq)]
pub enum BootEvent {
    /// The outcome of the validation.
    Validated(Result<(), String>),
    /// The outcome of building the replicated database and its first sync.
    Attached(Result<(), String>),
    /// The quarantine steps were gone through.
    Quarantined,
    /// The outcome of opening the local database.
    Opened(Result<(), String>),
    /// The outcome of switching on foreign keys and running the migrations.
    Prepared(Result<(), String>),
}

/// A [`BootEvent`] as contracts see it.
pub enum BootEventView {
    Validated(Result<(), Seq<char>>),
    Attached(Result<(), Seq<char>>),
    Quarantined,
    Opened(Result<(), Seq<char>>),
    Prepared(Result<(), Seq<char>>),
}

/// An outcome as contracts see it.
pub open spec fn outcome_view(outcome: Result<(), String>) -> Result<(), Seq<char>> {
    match outcome {
        Ok(_) => Ok(()),
        Err(message) => Err(message@),
    }
}

impl View for BootEvent {
    type V = BootEventView;

    open spec fn view(&self) -> BootEventView {
        match self {
            BootEvent::Validated(outcome) => BootEventView::Validated(outcome_view(*outcome)),
            BootEvent::Attached(outcome) => BootEventView::Attached(outcome_view(*outcome)),
            BootEvent::Quarantined => BootEventView::Quarantined,
            BootEvent::Opened(outcome) => BootEventView::Opened(outcome_view(*outcome)),
            BootEvent::Prepared(outcome) => BootEventView::Prepared(outcome_view(*outcome)),
        }
    }
}

/// The mode that the database was opened in.
#[derive(Clone, Debug, PartialEq, Eq)]
pub struct OpenMode {
    /// Whether the database is bound to the remote one.
    pub cloud: bool,
    /// The remote address in cloud mode, empty in local-only mode.
    pub url: String,
}

/// What the caller is to do next.
#[derive(Debug, PartialEq, Eq)]
pub enum BootAction {
    /// Send a trivial read statement to the remote side.
    Validate { url: String, token: String },
    /// Build the replicated database bound to the remote side, connect, and
    /// force one full sync.
    Attach { url: String, token: String },
    /// Go through the quarantine steps, in order.
    Quarantine(Vec<FileStep>),
    /// Open a purely local database.
    OpenLocal,
    /// Switch on foreign-key enforcement, then run the migrations.
    Prepare,
    /// Stop: the bootstrap is over, with this outcome.
    Finish(Result<OpenMode, String>),
}

/// A [`BootAction`] as contracts see it.
pub enum BootActionView {
    Validate { url: Seq<char>, token: Seq<char> },
    Attach { url: Seq<char>, token: Seq<char> },
    Quarantine(Seq<FileStepView>),
    OpenLocal,
    Prepare,
    Finish(Result<(bool, Seq<char>), Seq<char>>),
}

impl View for BootAction {
    type V = BootActionView;

    open spec fn view(&self) -> BootActionView {
        match self {
            BootAction::Validate { url, token } => BootActionView::Validate {
                url: url@,
                token: token@,
            },
            BootAction::Attach { url, token } => BootActionView::Attach {
                url: url@,
                token: token@,
            },
            BootAction::Quarantine(steps) => BootActionView::Quarantine(steps.deep_view()),
            BootAction::OpenLocal => BootActionView::OpenLocal,
            BootAction::Prepare => BootActionView::Prepare,
            BootAction::Finish(outcome) => BootActionView::Finish(
                match outcome {
                    Ok(mode) => Ok((mode.cloud, mode.url@)),
                    Err(message) => Err(message@),
                },
            ),
        }
    }
}

/// A bootstrap as contracts see it.
pub struct BootView {
    pub db_path: Seq<char>,
    pub url: Seq<char>,
    pub token: Seq<char>,
    pub phase: BootPhase,
    /// Whether the database that is being prepared is bound to the remote
    /// one.
    pub cloud: bool,
}

impl BootView {
    /// The same bootstrap in another phase.
    pub open spec fn at(self, phase: BootPhase) -> BootView {
        BootView { phase, ..self }
    }
}

/// The message of a bootstrap that was handed an event it did not ask for.
pub open spec fn unexpected_boot_text() -> Seq<char> {
    "Unexpected event for this phase of the bootstrap"@
}

/// The bootstrap gives up the remote side and opens a local database.
pub open spec fn falling_back(b: BootView) -> (BootView, BootActionView) {
    (b.at(BootPhase::OpeningLocal), BootActionView::OpenLocal)
}

/// The bootstrap ends with an error.
pub open spec fn boot_failed(b: BootView, message: Seq<char>) -> (BootView, BootActionView) {
    (b.at(BootPhase::Finished), BootActionView::Finish(Err(message)))
}

/// The first state of a bootstrap and its first action: with cloud mode on,
/// validate the remote side; else open a local database.
pub open spec fn boot_begun(db_path: Seq<char>, config: Option<SyncConfig>) -> (
    BootView,
    BootActionView,
) {
    match config {
        Some(c) => if cloud_configured(config) {
            (
                BootView {
                    db_path,
                    url: c.url@,
                    token: c.token@,
                    phase: BootPhase::Validating,
                    cloud: false,
                },
                BootActionView::Validate { url: c.url@, token: c.token@ },
            )
        } else {
            (
                BootView {
                    db_path,
                    url: c.url@,
                    token: c.token@,
                    phase: BootPhase::OpeningLocal,
                    cloud: false,
                },
                BootActionView::OpenLocal,
            )
        },
        None => (
            BootView {
                db_path,
                url: Seq::empty(),
                token: Seq::empty(),
                phase: BootPhase::OpeningLocal,
                cloud: false,
            },
            BootActionView::OpenLocal,
        ),
    }
}

/// The state and the action that follow an event.
pub open spec fn boot_next(b: BootView, event: BootEventView) -> (BootView, BootActionView) {
    match (b.phase, event) {
        (BootPhase::Validating, BootEventView::Validated(Ok(_))) => (
            b.at(BootPhase::Attaching),
            BootActionView::Attach { url: b.url, token: b.token },
        ),
        (BootPhase::Validating, BootEventView::Validated(Err(_))) => falling_back(b),
        (BootPhase::Attaching, BootEventView::Attached(Ok(_))) => (
            BootView { cloud: true, ..b }.at(BootPhase::Preparing),
            BootActionView::Prepare,
        ),
        (BootPhase::Attaching, BootEventView::Attached(Err(message))) => {
            if recoverable(message) {
                match quarantine_of(b.db_path) {
                    Some(steps) => (
                        b.at(BootPhase::Quarantining),
                        BootActionView::Quarantine(steps),
                    ),
                    None => falling_back(b),
                }
            } else {
                falling_back(b)
            }
        },
        (BootPhase::Quarantining, BootEventView::Quarantined) => (
            b.at(BootPhase::Reattaching),
            BootActionView::Attach { url: b.url, token: b.token },
        ),
        (BootPhase::Reattaching, BootEventView::Attached(Ok(_))) => (
            BootView { cloud: true, ..b }.at(BootPhase::Preparing),
            BootActionView::Prepare,
        ),
        (BootPhase::Reattaching, BootEventView::Attached(Err(_))) => falling_back(b),
        (BootPhase::OpeningLocal, BootEventView::Opened(Ok(_))) => (
            BootView { cloud: false, ..b }.at(BootPhase::Preparing),
            BootActionView::Prepare,
        ),
        (BootPhase::OpeningLocal, BootEventView::Opened(Err(message))) => boot_failed(b, message),
        (BootPhase::Preparing, BootEventView::Prepared(Ok(_))) => (
            b.at(BootPhase::Finished),
            BootActionView::Finish(
                Ok(
                    (
                        b.cloud,
                        if b.cloud {
                            b.url
                        } else {
                            Seq::empty()
                        },
                    ),
                ),
            ),
        ),
        (BootPhase::Preparing, BootEventView::Prepared(Err(message))) => boot_failed(b, message),
        _ => boot_failed(b, unexpected_boot_text()),
    }
}

/// Opening the database, decision by decision.
pub struct Bootstrap {
    db_path: String,
    url: String,
    token: String,
    phase: BootPhase,
    cloud: bool,
}

impl View for Bootstrap {
    type V = BootView;

    closed spec fn view(&self) -> BootView {
        BootView {
            db_path: self.db_path@,
            url: self.url@,
            token: self.token@,
            phase: self.phase,
            cloud: self.cloud,
        }
    }
}

impl Bootstrap {
    /// Begins to open the database at `db_path` with the configuration that
    /// the sidecar file held, if it held one, and says what to do first.
    pub fn start(db_path: String, config: Option<SyncConfig>) -> (out: (Bootstrap, BootAction))
        ensures
            out.0@ == boot_begun(db_path@, config).0,
            out.1@ == boot_begun(db_path@, config).1,
    {
        let cloud_mode = is_cloud_configured(&config);
        match config {
            Some(c) => {
                if cloud_mode {
                    let action = BootAction::Validate { url: c.url.clone(), token: c.token.clone() };
                    (
                        Bootstrap {
                            db_path,
                            url: c.url,
                            token: c.token,
                            phase: BootPhase::Validating,
                            cloud: false,
                        },
                        action,
                    )
                } else {
                    (
                        Bootstrap {
                            db_path,
                            url: c.url,
                            token: c.token,
                            phase: BootPhase::OpeningLocal,
                            cloud: false,
                        },
                        BootAction::OpenLocal,
                    )
                }
            },
            None => (
                Bootstrap {
                    db_path,
                    url: String::new(),
                    token: String::new(),
                    phase: BootPhase::OpeningLocal,
                    cloud: false,
                },
                BootAction::OpenLocal,
            ),
        }
    }

    /// Where the bootstrap stands.
    pub fn phase(&self) -> (out: BootPhase)
        ensures
            out == self@.phase,
    {
        self.phase
    }

    fn fall_back(&mut self) -> (action: BootAction)
        ensures
            final(self)@ == falling_back(old(self)@).0,
            action@ == falling_back(old(self)@).1,
    {
        self.phase = BootPhase::OpeningLocal;
        BootAction::OpenLocal
    }

    fn fail(&mut self, message: String) -> (action: BootAction)
        ensures
            final(self)@ == boot_failed(old(self)@, message@).0,
            action@ == boot_failed(old(self)@, message@).1,
    {
        self.phase = BootPhase::Finished;
        BootAction::Finish(Err(message))
    }

    fn attach(&mut self, phase: BootPhase) -> (action: BootAction)
        ensures
            final(self)@ == old(self)@.at(phase),
            action@ == (BootActionView::Attach { url: old(self)@.url, token: old(self)@.token }),
    {
        self.phase = phase;
        BootAction::Attach { url: self.url.clone(), token: self.token.clone() }
    }

    fn prepare(&mut self, cloud: bool) -> (action: BootAction)
        ensures
            final(self)@ == (BootView { cloud, ..old(self)@ }).at(BootPhase::Preparing),
            action@ == BootActionView::Prepare,
    {
        self.cloud = cloud;
        self.phase = BootPhase::Preparing;
        BootAction::Prepare
    }

    /// Takes what came of the last action and says what to do next.
    pub fn step(&mut self, event: BootEvent) -> (action: BootAction)
        ensures
            final(self)@ == boot_next(old(self)@, event@).0,
            action@ == boot_next(old(self)@, event@).1,
    {
        match self.phase {
            BootPhase::Validating => match event {
                BootEvent::Validated(Ok(_)) => self.attach(BootPhase::Attaching),
                BootEvent::Validated(Err(_)) => self.fall_back(),
                _ => self.fail(
                    String::from_str("Unexpected event for this phase of the bootstrap"),
                ),
            },
            BootPhase::Attaching => match event {
                BootEvent::Attached(Ok(_)) => self.prepare(true),
                BootEvent::Attached(Err(message)) => {
                    if is_recoverable(message.as_str()) {
                        match quarantine_steps(self.db_path.as_str()) {
                            Some(steps) => {
                                self.phase = BootPhase::Quarantining;
                                BootAction::Quarantine(steps)
                            },
                            None => self.fall_back(),
                        }
                    } else {
                        self.fall_back()
                    }
                },
                _ => self.fail(
                    String::from_str("Unexpected event for this phase of the bootstrap"),
                ),
            },
            BootPhase::Quarantining => match event {
                BootEvent::Quarantined => self.attach(BootPhase::Reattaching),
                _ => self.fail(
                    String::from_str("Unexpected event for this phase of the bootstrap"),
                ),
            },
            BootPhase::Reattaching => match event {
                BootEvent::Attached(Ok(_)) => self.prepare(true),
                BootEvent::Attached(Err(_)) => self.fall_back(),
                _ => self.fail(
                    String::from_str("Unexpected event for this phase of the bootstrap"),
                ),
            },
            BootPhase::OpeningLocal => match event {
                BootEvent::Opened(Ok(_)) => self.prepare(false),
                BootEvent::Opened(Err(message)) => self.fail(message),
                _ => self.fail(
                    String::from_str("Unexpected event for this phase of the bootstrap"),
                ),
            },
            BootPhase::Preparing => match event {
                BootEvent::Prepared(Ok(_)) => {
                    let url = if self.cloud {
                        self.url.clone()
                    } else {
                        String::new()
                    };
                    self.phase = BootPhase::Finished;
                    BootAction::Finish(Ok(OpenMode { cloud: self.cloud, url }))
                },
                BootEvent::Prepared(Err(message)) => self.fail(message),
                _ => self.fail(
                    String::from_str("Unexpected event for this phase of the bootstrap"),
                ),
            },
            BootPhase::Finished => self.fail(
                String::from_str("Unexpected event for this phase of the bootstrap"),
            ),
        }
    }
}

} // verus!
