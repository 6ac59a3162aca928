//! Schema migrations.

use crate::config::optional_text;
use crate::db::embedded::{copy_of, files_of, EmbeddedFileView};
use crate::db::lock::{statement_on_lock, LockAttempt, LockAttemptView, RELEASE_LOCK};
use crate::db::pending::{pending_scripts, Script};
use crate::db::protocol;
use crate::db::protocol::{
    Queried, RecordKey, RecordKeyView, Request, RequestView, Statement, StatementView,
};
use crate::db::run::{MigrationRun, MigrationRunView, RunStage};
use crate::db::{DBError, DBErrorView, SurrealError};
use include_dir::Dir;
use time::OffsetDateTime;
use vstd::prelude::*;

verus! {

/// Why the schema was not brought up to date.
#[derive(Debug)]
pub enum MigrationError {
    DBError { source: Box<SurrealError> },
    SchemaError(Box<DBError>),
    ScriptFailed { id: String, source: Box<SurrealError> },
    LockFailed(String),
    InvalidId(String),
    InvalidUtf8(String),
}

pub enum MigrationErrorView {
    DBError { source: Seq<char> },
    SchemaError(DBErrorView),
    ScriptFailed { id: Seq<char>, source: Seq<char> },
    LockFailed(Seq<char>),
    InvalidId(Seq<char>),
    InvalidUtf8(Seq<char>),
}

impl View for MigrationError {
    type V = MigrationErrorView;

    open spec fn view(&self) -> MigrationErrorView {
        match self {
            MigrationError::DBError { source } => MigrationErrorView::DBError { source: source@ },
            MigrationError::SchemaError(error) => MigrationErrorView::SchemaError(error@),
            MigrationError::ScriptFailed { id, source } => MigrationErrorView::ScriptFailed {
                id: id@,
                source: source@,
            },
            MigrationError::LockFailed(reason) => MigrationErrorView::LockFailed(reason@),
            MigrationError::InvalidId(path) => MigrationErrorView::InvalidId(path@),
            MigrationError::InvalidUtf8(path) => MigrationErrorView::InvalidUtf8(path@),
        }
    }
}

impl MigrationErrorView {
    /// The error as its user reads it.
    pub open spec fn text(self) -> Seq<char> {
        match self {
            MigrationErrorView::DBError { source } => "Database error during migration: "@ + source,
            MigrationErrorView::SchemaError(error) => "Failed to create table from Schema: "@
                + error.text(),
            MigrationErrorView::ScriptFailed { id, source } => "Migration script failed: "@ + id
                + ", "@ + source,
            MigrationErrorView::LockFailed(reason) => "Failed to acquire migration lock: "@
                + reason,
            MigrationErrorView::InvalidId(path) => "Could not parse migration ID from filename: "@
                + path,
            MigrationErrorView::InvalidUtf8(path) => "Migration file content is not valid UTF-8: "@
                + path,
        }
    }
}

impl MigrationError {
    /// The error as its user reads it.
    pub fn message(&self) -> (r: String)
        ensures
            r@ == self@.text(),
    {
        match self {
            MigrationError::DBError { source } => {
                "Database error during migration: ".to_string().concat(source.message.as_str())
            },
            MigrationError::SchemaError(error) => {
                "Failed to create table from Schema: ".to_string().concat(error.message().as_str())
            },
            MigrationError::ScriptFailed { id, source } => {
                "Migration script failed: ".to_string().concat(id.as_str()).concat(", ").concat(
                    source.message.as_str(),
                )
            },
            MigrationError::LockFailed(reason) => {
                "Failed to acquire migration lock: ".to_string().concat(reason.as_str())
            },
            MigrationError::InvalidId(path) => {
                "Could not parse migration ID from filename: ".to_string().concat(path.as_str())
            },
            MigrationError::InvalidUtf8(path) => {
                "Migration file content is not valid UTF-8: ".to_string().concat(path.as_str())
            },
        }
    }
}

impl From<Box<DBError>> for MigrationError {
    fn from(error: Box<DBError>) -> (r: Self) {
        MigrationError::SchemaError(error)
    }
}

impl vstd::std_specs::convert::FromSpecImpl<Box<DBError>> for MigrationError {
    open spec fn obeys_from_spec() -> bool {
        true
    }

    open spec fn from_spec(error: Box<DBError>) -> Self {
        MigrationError::SchemaError(error)
    }
}

/// What a migration step returned.
pub open spec fn migration_result<T>(r: Result<T, MigrationError>) -> Result<
    T,
    MigrationErrorView,
> {
    match r {
        Ok(value) => Ok(value),
        Err(error) => Err(error@),
    }
}

/// A moment, of the `time` crate.
#[verifier::external_type_specification]
#[verifier::external_body]
pub struct ExOffsetDateTime(time::OffsetDateTime);

/// The record that locks the schema: its table and its key.
pub const LOCK_ID: (&'static str, &'static str) = ("schema_lock", "singleton");

/// A migration that the database has on record as applied.
#[derive(Debug)]
pub struct AppliedMigration {
    pub migration: String,
}

impl View for AppliedMigration {
    type V = Seq<char>;

    open spec fn view(&self) -> Seq<char> {
        self.migration@
    }
}

/// The lock that keeps two instances from migrating at once.
#[derive(Debug)]
pub struct SchemaLock {
    pub id: RecordKey,
    pub locked: bool,
    pub locked_at: Option<OffsetDateTime>,
    pub instance_id: Option<String>,
}

pub struct SchemaLockView {
    pub id: RecordKeyView,
    pub locked: bool,
    pub locked_at: Option<OffsetDateTime>,
    pub instance_id: Option<Seq<char>>,
}

impl View for SchemaLock {
    type V = SchemaLockView;

    open spec fn view(&self) -> SchemaLockView {
        SchemaLockView {
            id: self.id@,
            locked: self.locked,
            locked_at: self.locked_at,
            instance_id: optional_text(self.instance_id),
        }
    }
}

/// The record that locks the schema.
pub open spec fn lock_record() -> RecordKeyView {
    RecordKeyView { table: "schema_lock"@, key: "singleton"@ }
}

/// A lock that nobody has taken yet.
pub open spec fn fresh_lock() -> SchemaLockView {
    SchemaLockView { id: lock_record(), locked: false, locked_at: None, instance_id: None }
}

/// The record that locks the schema.
pub fn lock_id() -> (r: RecordKey)
    ensures
        r@ == lock_record(),
{
    RecordKey { table: LOCK_ID.0.to_string(), key: LOCK_ID.1.to_string() }
}

impl Default for SchemaLock {
    fn default() -> (r: Self)
        ensures
            r@ == fresh_lock(),
            r.id.table@ == "schema_lock"@,
            r.id.key@ == "singleton"@,
            !r.locked,
            r.locked_at is None,
            r.instance_id is None,
    {
        SchemaLock { id: lock_id(), locked: false, locked_at: None, instance_id: None }
    }
}

/// The statement that reads which migration was applied last.
pub const LAST_APPLIED: &'static str =
    "SELECT * FROM schema_migration ORDER BY applied_at DESC LIMIT 1;";

/// The statement that reads which migration was applied last.
pub open spec fn last_applied_statement() -> StatementView {
    StatementView { sql: LAST_APPLIED@, bindings: seq![] }
}

/// The migration that was applied last, if one was.
pub open spec fn last_applied_result(reply: protocol::QueriedView<Seq<Seq<char>>>) -> Result<
    Option<Seq<char>>,
    MigrationErrorView,
> {
    match reply {
        Ok(Ok(list)) => Ok(
            if list.len() > 0 {
                Some(list[0])
            } else {
                None
            },
        ),
        Ok(Err(error)) => Err(MigrationErrorView::DBError { source: error }),
        Err(error) => Err(MigrationErrorView::DBError { source: error }),
    }
}

/// Whether giving the lock back failed: only if the database could not be asked.
pub open spec fn release_result(reply: protocol::QueriedView<()>) -> Result<
    (),
    MigrationErrorView,
> {
    match reply {
        Ok(_) => Ok(()),
        Err(error) => Err(MigrationErrorView::DBError { source: error }),
    }
}

/// A migration that was applied last, if one was, or why that is not known.
pub open spec fn id_result(r: Result<Option<String>, MigrationError>) -> Result<
    Option<Seq<char>>,
    MigrationErrorView,
> {
    match r {
        Ok(id) => Ok(optional_text(id)),
        Err(error) => Err(error@),
    }
}

/// Whether migrations are pending, given what the database answered about the last applied one.
pub open spec fn has_pending(
    files: Seq<EmbeddedFileView>,
    reply: protocol::QueriedView<Seq<Seq<char>>>,
) -> Result<bool, MigrationErrorView> {
    match last_applied_result(reply) {
        Err(error) => Err(error),
        Ok(last_applied) => match crate::db::pending::pending(files, last_applied) {
            Err(error) => Err(error),
            Ok(scripts) => Ok(scripts.len() > 0),
        },
    }
}

/// The migrations that are embedded in the program.
pub struct Migrations {
    migrations_dir: Dir<'static>,
}

impl View for Migrations {
    type V = Seq<EmbeddedFileView>;

    closed spec fn view(&self) -> Seq<EmbeddedFileView> {
        crate::db::embedded::files_in(self.migrations_dir)
    }
}

impl Clone for Migrations {
    fn clone(&self) -> (r: Self)
        ensures
            r@ == self@,
    {
        Migrations { migrations_dir: copy_of(&self.migrations_dir) }
    }
}

impl Migrations {
    /// The migrations in the directory.
    pub fn new(migrations_dir: Dir<'static>) -> (r: Migrations)
        ensures
            r@ == crate::db::embedded::files_in(migrations_dir),
    {
        Migrations { migrations_dir }
    }

    /// Applies the pending migrations.
    pub fn run_migrations(self, instance_id: String) -> (r: MigrationRun)
        ensures
            r@ == MigrationRunView::start(self@, instance_id@),
    {
        MigrationRun { migrations: self, instance_id, stage: RunStage::Reading }
    }

    /// Whether migrations are pending, given what the database answered about the last applied one.
    pub fn has_pending_migrations(&self, reply: Queried<Vec<AppliedMigration>>) -> (r: Result<
        bool,
        MigrationError,
    >)
        ensures
            migration_result(r) == has_pending(self@, protocol::applied_view(reply)),
    {
        match Self::get_last_applied_migration(reply) {
            Err(error) => Err(error),
            Ok(last_applied) => match self.get_pending_migrations(&last_applied) {
                Err(error) => Err(error),
                Ok(scripts) => Ok(scripts.len() > 0),
            },
        }
    }

    /// The migrations that come after the last applied one, in the order in which they are to be
    /// applied.
    pub fn get_pending_migrations(&self, last_applied_id: &Option<String>) -> (r: Result<
        Vec<Script>,
        MigrationError,
    >)
        ensures
            crate::db::pending::scripts_view(r) == crate::db::pending::pending(
                self@,
                optional_text(*last_applied_id),
            ),
    {
        pending_scripts(&files_of(&self.migrations_dir), last_applied_id)
    }

    /// Asks the database for the migration that was applied last.
    pub fn get_last_applied_migration_request() -> (r: Request)
        ensures
            r@ == RequestView::FetchApplied(last_applied_statement()),
    {
        let bindings = Vec::new();
        assert(bindings@.map_values(|b: protocol::Binding| b@) =~= seq![]);
        Request::FetchApplied(Statement { sql: LAST_APPLIED.to_string(), bindings })
    }

    /// The migration that was applied last, if one was.
    pub fn get_last_applied_migration(reply: Queried<Vec<AppliedMigration>>) -> (r: Result<
        Option<String>,
        MigrationError,
    >)
        ensures
            id_result(r) == last_applied_result(protocol::applied_view(reply)),
    {
        match reply {
            Ok(Ok(list)) => {
                if list.len() > 0 {
                    Ok(Some(list[0].migration.clone()))
                } else {
                    Ok(None)
                }
            },
            Ok(Err(error)) => Err(MigrationError::DBError { source: Box::new(error) }),
            Err(error) => Err(MigrationError::DBError { source: Box::new(error) }),
        }
    }

    /// Takes the migration lock for the instance, waiting for it a while.
    pub fn acquire_lock(instance_id: &str) -> (r: LockAttempt)
        ensures
            r@ == LockAttemptView::start(instance_id@),
    {
        LockAttempt::new(instance_id)
    }

    /// Asks the database to give back the migration lock, if the instance holds it.
    pub fn release_lock_request(instance_id: &str) -> (r: Request)
        ensures
            r@ == crate::db::lock::release_lock(instance_id@),
    {
        Request::Execute(statement_on_lock(RELEASE_LOCK, instance_id))
    }

    /// What the reply to that means. An error in the response is no failure.
    pub fn release_lock(reply: Queried<()>) -> (r: Result<(), MigrationError>)
        ensures
            migration_result(r) == release_result(protocol::executed_view(reply)),
    {
        match reply {
            Ok(_) => Ok(()),
            Err(error) => Err(MigrationError::DBError { source: Box::new(error) }),
        }
    }
}

} // verus!
