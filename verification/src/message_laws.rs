//! What the messages of errors hold: what is reported is reported whole.

use crate::config::{ConfigErrorView, DatabaseConfigView};
use crate::db::connect;
use crate::db::migrations::{MigrationErrorView, SchemaLockView};
use crate::db::DBErrorView;
use crate::maintenance::MaintenanceErrorView;
use crate::startup::StartErrorView;
use crate::text;
use vstd::prelude::*;

verus! {

/// A message of the database holds the reason whole, behind what kind of failure it was.
pub proof fn database_errors_hold_the_reason(reason: Seq<char>)
    ensures
        text::is_made_of(
            DBErrorView::Database(reason).text(),
            seq!["Database error: "@, reason],
        ),
        text::is_made_of(
            DBErrorView::Surreal(reason).text(),
            seq!["SurrealDB error: "@, reason],
        ),
        text::is_made_of(
            DBErrorView::NotFound(reason).text(),
            seq!["Item not found: "@, reason],
        ),
        text::is_made_of(
            DBErrorView::OperationFailed(reason).text(),
            seq!["Database operation failed: "@, reason],
        ),
        text::is_made_of(
            DBErrorView::HealthFailed(reason).text(),
            seq!["Health check failed: "@, reason],
        ),
        DBErrorView::HealthTimeout.text() == "Health check timed out"@,
{
    text::two_parts("Database error: "@, reason);
    text::two_parts("SurrealDB error: "@, reason);
    text::two_parts("Item not found: "@, reason);
    text::two_parts("Database operation failed: "@, reason);
    text::two_parts("Health check failed: "@, reason);
}

/// A message about migrations holds the reason whole, and the id of a script that failed.
pub proof fn migration_errors_hold_the_reason(
    reason: Seq<char>,
    id: Seq<char>,
    error: DBErrorView,
)
    ensures
        text::is_made_of(
            (MigrationErrorView::DBError { source: reason }).text(),
            seq!["Database error during migration: "@, reason],
        ),
        text::is_made_of(
            MigrationErrorView::SchemaError(error).text(),
            seq!["Failed to create table from Schema: "@, error.text()],
        ),
        text::is_made_of(
            (MigrationErrorView::ScriptFailed { id, source: reason }).text(),
            seq!["Migration script failed: "@, id, ", "@, reason],
        ),
        text::is_made_of(
            MigrationErrorView::LockFailed(reason).text(),
            seq!["Failed to acquire migration lock: "@, reason],
        ),
        text::is_made_of(
            MigrationErrorView::InvalidId(reason).text(),
            seq!["Could not parse migration ID from filename: "@, reason],
        ),
        text::is_made_of(
            MigrationErrorView::InvalidUtf8(reason).text(),
            seq!["Migration file content is not valid UTF-8: "@, reason],
        ),
{
    text::two_parts("Database error during migration: "@, reason);
    text::two_parts("Failed to create table from Schema: "@, error.text());
    text::four_parts("Migration script failed: "@, id, ", "@, reason);
    text::two_parts("Failed to acquire migration lock: "@, reason);
    text::two_parts("Could not parse migration ID from filename: "@, reason);
    text::two_parts("Migration file content is not valid UTF-8: "@, reason);
}

/// A message about the configuration holds the reason whole.
pub proof fn config_errors_hold_the_reason(reason: Seq<char>)
    ensures
        text::is_made_of(
            ConfigErrorView::LoadError(reason).text(),
            seq!["Failed to load configuration: "@, reason],
        ),
        ConfigErrorView::NotFound(reason).text() == reason,
        ConfigErrorView::Config(reason).text() == reason,
{
    text::two_parts("Failed to load configuration: "@, reason);
}

/// A message about a start holds the reason whole, and the address that could not be listened on.
pub proof fn start_errors_hold_the_reason(
    connection: DBErrorView,
    migration: MigrationErrorView,
    address: Seq<char>,
    reason: Seq<char>,
)
    ensures
        text::is_made_of(
            StartErrorView::Connection(connection).text(),
            seq!["Failed to connect to database: "@, connection.text()],
        ),
        StartErrorView::OutOfDate.text() == "Database is not up to date"@,
        text::is_made_of(
            StartErrorView::Migrations(migration).text(),
            seq!["Failed to check database migrations: "@, migration.text()],
        ),
        text::is_made_of(
            (StartErrorView::Bind { address, reason }).text(),
            seq!["Failed to bind to address "@, address, ": "@, reason],
        ),
        text::is_made_of(
            StartErrorView::Server(reason).text(),
            seq!["Server error: "@, reason],
        ),
{
    text::two_parts("Failed to connect to database: "@, connection.text());
    text::two_parts("Failed to check database migrations: "@, migration.text());
    text::four_parts("Failed to bind to address "@, address, ": "@, reason);
    text::two_parts("Server error: "@, reason);
}

/// A message about maintenance is that of what failed.
pub proof fn maintenance_errors_hold_the_reason(
    database: DBErrorView,
    migration: MigrationErrorView,
)
    ensures
        MaintenanceErrorView::Database(database).text() == database.text(),
        MaintenanceErrorView::Migration(migration).text() == migration.text(),
        MaintenanceErrorView::Locked.text() == "Database is locked. Use --force to unlock."@,
{
}

/// Whether the error is one of the database, with a message that is made of these parts.
pub open spec fn is_database_error(error: DBErrorView, parts: Seq<Seq<char>>) -> bool {
    error matches DBErrorView::Database(message) && text::is_made_of(message, parts)
}

/// What is reported of a connection that could not be opened names where to, and holds the reason
/// whole.
pub proof fn connection_errors_hold_the_reason(config: DatabaseConfigView, reason: Seq<char>)
    ensures
        is_database_error(
            connect::open_failed(config, reason),
            seq!["Failed to connect to SurrealDB URL '"@, config.url, "': "@, reason],
        ),
        is_database_error(
            connect::sign_in_failed(reason),
            seq!["Failed to sign in to SurrealDB: "@, reason],
        ),
        is_database_error(
            connect::select_failed(config, reason),
            seq![
                "Failed to select namespace '"@,
                config.namespace,
                "' or database '"@,
                config.database,
                "': "@,
                reason,
            ],
        ),
{
    text::four_parts("Failed to connect to SurrealDB URL '"@, config.url, "': "@, reason);
    text::two_parts("Failed to sign in to SurrealDB: "@, reason);
    text::six_parts(
        "Failed to select namespace '"@,
        config.namespace,
        "' or database '"@,
        config.database,
        "': "@,
        reason,
    );
}

/// The first lock on record tells whether the lock is held, and a lock that does not exist is not
/// held. What fails is reported whole.
pub proof fn first_lock_tells(locks: Seq<SchemaLockView>, reason: Seq<char>)
    ensures
        locks.len() == 0 ==> crate::db::is_locked_result(Ok(Ok(locks))) == Ok::<bool, DBErrorView>(
            false,
        ),
        locks.len() > 0 ==> crate::db::is_locked_result(Ok(Ok(locks))) == Ok::<bool, DBErrorView>(
            locks[0].locked,
        ),
        crate::db::is_locked_result(Err(reason)) == Err::<bool, DBErrorView>(
            DBErrorView::Surreal(reason),
        ),
        crate::db::is_locked_result(Ok(Err(reason))) matches Err(error) && is_database_error(
            error,
            seq!["Failed to fetch schema lock status: "@, reason],
        ),
{
    text::two_parts("Failed to fetch schema lock status: "@, reason);
}

/// The lock is freed if the database says so. What fails is reported whole.
pub proof fn freeing_succeeds_if_the_database_says_so(reason: Seq<char>)
    ensures
        crate::db::force_unlock_result(Ok(Ok(()))) is Ok,
        crate::db::force_unlock_result(Err(reason)) == Err::<(), DBErrorView>(
            DBErrorView::Surreal(reason),
        ),
        crate::db::force_unlock_result(Ok(Err(reason))) matches Err(error) && is_database_error(
            error,
            seq!["Failed to unlock database migration lock: "@, reason],
        ),
{
    text::two_parts("Failed to unlock database migration lock: "@, reason);
}

/// The lock is given back unless the database could not be asked, which is reported whole.
pub proof fn release_fails_if_it_cannot_be_asked_for(reason: Seq<char>)
    ensures
        crate::db::migrations::release_result(Ok(Ok(()))) is Ok,
        crate::db::migrations::release_result(Ok(Err(reason))) is Ok,
        crate::db::migrations::release_result(Err(reason)) == Err::<(), MigrationErrorView>(
            MigrationErrorView::DBError { source: reason },
        ),
{
}

/// The lock is read from its table, and freed there whoever holds it.
pub proof fn lock_is_read_and_freed_in_its_table()
    ensures
        crate::db::read_lock_statement().sql == "SELECT * FROM schema_lock"@,
        crate::db::read_lock_statement().bindings.len() == 0,
        crate::db::force_unlock_statement().sql == "UPDATE schema_lock SET locked = false"@,
        crate::db::force_unlock_statement().bindings.len() == 0,
{
}

} // verus!
