//! The database: how it is reached, what is asked of it, and how its failures read.

use crate::db::migrations::SchemaLock;
use crate::db::protocol::{Queried, Request, RequestView, Statement, StatementView};
use vstd::prelude::*;

pub mod connect;
pub mod connect_laws;
pub mod embedded;
pub mod exclusion_laws;
pub mod lock;
pub mod lock_laws;
pub mod lock_status_laws;
pub mod migrations;
pub mod pending;
pub mod pending_laws;
pub mod protocol;
pub mod run;
pub mod run_laws;
pub mod selection_laws;
pub mod statement_laws;

verus! {

/// What the database driver reports when a call fails, as text.
#[derive(Debug)]
pub struct SurrealError {
    pub message: String,
}

/// Why a database operation failed.
#[derive(Debug)]
pub enum DBError {
    Database(String),
    Surreal(SurrealError),
    NotFound(String),
    OperationFailed(String),
    /// The health check took too long.
    HealthTimeout,
    /// The database reported an error during the health check.
    HealthFailed(String),
}

pub enum DBErrorView {
    Database(Seq<char>),
    Surreal(Seq<char>),
    NotFound(Seq<char>),
    OperationFailed(Seq<char>),
    HealthTimeout,
    HealthFailed(Seq<char>),
}

impl View for SurrealError {
    type V = Seq<char>;

    open spec fn view(&self) -> Seq<char> {
        self.message@
    }
}

impl View for DBError {
    type V = DBErrorView;

    open spec fn view(&self) -> DBErrorView {
        match self {
            DBError::Database(reason) => DBErrorView::Database(reason@),
            DBError::Surreal(error) => DBErrorView::Surreal(error@),
            DBError::NotFound(item) => DBErrorView::NotFound(item@),
            DBError::OperationFailed(reason) => DBErrorView::OperationFailed(reason@),
            DBError::HealthTimeout => DBErrorView::HealthTimeout,
            DBError::HealthFailed(reason) => DBErrorView::HealthFailed(reason@),
        }
    }
}

impl DBErrorView {
    /// The error as its user reads it.
    pub open spec fn text(self) -> Seq<char> {
        match self {
            DBErrorView::Database(reason) => "Database error: "@ + reason,
            DBErrorView::Surreal(error) => "SurrealDB error: "@ + error,
            DBErrorView::NotFound(item) => "Item not found: "@ + item,
            DBErrorView::OperationFailed(reason) => "Database operation failed: "@ + reason,
            DBErrorView::HealthTimeout => "Health check timed out"@,
            DBErrorView::HealthFailed(reason) => "Health check failed: "@ + reason,
        }
    }
}

impl DBError {
    /// The error as its user reads it.
    pub fn message(&self) -> (r: String)
        ensures
            r@ == self@.text(),
    {
        match self {
            DBError::Database(reason) => "Database error: ".to_string().concat(reason.as_str()),
            DBError::Surreal(error) => "SurrealDB error: ".to_string().concat(
                error.message.as_str(),
            ),
            DBError::NotFound(item) => "Item not found: ".to_string().concat(item.as_str()),
            DBError::OperationFailed(reason) => "Database operation failed: ".to_string().concat(
                reason.as_str(),
            ),
            DBError::HealthTimeout => "Health check timed out".to_string(),
            DBError::HealthFailed(reason) => "Health check failed: ".to_string().concat(
                reason.as_str(),
            ),
        }
    }
}

impl From<SurrealError> for DBError {
    fn from(error: SurrealError) -> (r: Self) {
        DBError::Surreal(error)
    }
}

impl vstd::std_specs::convert::FromSpecImpl<SurrealError> for DBError {
    open spec fn obeys_from_spec() -> bool {
        true
    }

    open spec fn from_spec(error: SurrealError) -> Self {
        DBError::Surreal(error)
    }
}

/// What a database operation returned.
pub open spec fn db_result<T>(r: Result<T, DBError>) -> Result<T, DBErrorView> {
    match r {
        Ok(value) => Ok(value),
        Err(error) => Err(error@),
    }
}

/// The database.
pub struct Database {}

/// How many seconds a health check may take.
pub const HEALTH_TIMEOUT_SECS: u64 = 3;

/// The statement that reads the lock.
pub open spec fn read_lock_statement() -> StatementView {
    StatementView { sql: "SELECT * FROM schema_lock"@, bindings: seq![] }
}

/// The statement that unlocks whoever holds the lock.
pub open spec fn force_unlock_statement() -> StatementView {
    StatementView { sql: "UPDATE schema_lock SET locked = false"@, bindings: seq![] }
}

impl Database {
    /// Asks the database whether it is well.
    pub fn check_health_request() -> (r: Request)
        ensures
            r@ == (RequestView::Health { timeout_secs: HEALTH_TIMEOUT_SECS }),
    {
        Request::Health { timeout_secs: HEALTH_TIMEOUT_SECS }
    }

    /// What the reply to the health check means; there is none where the time ran out.
    pub fn check_health(reply: Option<Result<(), SurrealError>>) -> (r: Result<
        &'static str,
        DBError,
    >)
        ensures
            match reply {
                Some(Ok(_)) => r matches Ok(text) && text@ == "OK"@,
                Some(Err(error)) => r matches Err(e) && e@ == DBErrorView::HealthFailed(error@),
                None => r matches Err(e) && e@ == DBErrorView::HealthTimeout,
            },
    {
        match reply {
            Some(Ok(_)) => Ok("OK"),
            Some(Err(error)) => Err(DBError::HealthFailed(error.message)),
            None => Err(DBError::HealthTimeout),
        }
    }

    /// Asks the database to give up the migration lock, whoever holds it.
    pub fn force_unlock_request() -> (r: Request)
        ensures
            r@ == RequestView::Execute(force_unlock_statement()),
    {
        let bindings = Vec::new();
        assert(bindings@.map_values(|b: protocol::Binding| b@) =~= seq![]);
        Request::Execute(
            Statement { sql: "UPDATE schema_lock SET locked = false".to_string(), bindings },
        )
    }

    /// What the reply to the forced unlocking means.
    pub fn force_unlock(reply: Queried<()>) -> (r: Result<(), DBError>)
        ensures
            db_result(r) == force_unlock_result(protocol::executed_view(reply)),
    {
        match reply {
            Ok(Ok(_)) => Ok(()),
            Ok(Err(error)) => Err(
                DBError::Database(
                    "Failed to unlock database migration lock: ".to_string().concat(
                        error.message.as_str(),
                    ),
                ),
            ),
            Err(error) => Err(DBError::from(error)),
        }
    }

    /// Asks the database for the migration lock.
    pub fn is_locked_request() -> (r: Request)
        ensures
            r@ == RequestView::FetchLocks(read_lock_statement()),
    {
        let bindings = Vec::new();
        assert(bindings@.map_values(|b: protocol::Binding| b@) =~= seq![]);
        Request::FetchLocks(Statement { sql: "SELECT * FROM schema_lock".to_string(), bindings })
    }

    /// Whether the migration lock is held. A lock that does not exist is not held.
    pub fn is_locked(reply: Queried<Vec<SchemaLock>>) -> (r: Result<bool, DBError>)
        ensures
            db_result(r) == is_locked_result(protocol::locks_view(reply)),
    {
        match reply {
            Ok(Ok(locks)) => {
                if locks.len() > 0 {
                    Ok(locks[0].locked)
                } else {
                    Ok(false)
                }
            },
            Ok(Err(error)) => Err(
                DBError::Database(
                    "Failed to fetch schema lock status: ".to_string().concat(
                        error.message.as_str(),
                    ),
                ),
            ),
            Err(error) => Err(DBError::from(error)),
        }
    }

    /// Asks the database whether the user that is signed in has the permission.
    pub fn user_has_permission_request(permission: &str) -> (r: Request)
        ensures
            r@ == (RequestView::RunFunction {
                name: "fn::auth_user_has_permission"@,
                argument: permission@,
            }),
    {
        Request::RunFunction {
            name: "fn::auth_user_has_permission".to_string(),
            argument: permission.to_string(),
        }
    }

    /// Whether the user has the permission.
    pub fn user_has_permission(reply: Result<bool, SurrealError>) -> (r: Result<bool, DBError>)
        ensures
            db_result(r) == match protocol::driver_view(reply) {
                Ok(has_permission) => Ok::<bool, DBErrorView>(has_permission),
                Err(error) => Err(DBErrorView::Surreal(error)),
            },
    {
        match reply {
            Ok(has_permission) => Ok(has_permission),
            Err(error) => Err(DBError::from(error)),
        }
    }
}

/// What the reply to the forced unlocking means.
pub open spec fn force_unlock_result(reply: protocol::QueriedView<()>) -> Result<(), DBErrorView> {
    match reply {
        Ok(Ok(_)) => Ok(()),
        Ok(Err(error)) => Err(
            DBErrorView::Database("Failed to unlock database migration lock: "@ + error),
        ),
        Err(error) => Err(DBErrorView::Surreal(error)),
    }
}

/// Whether the migration lock is held: the first lock on record decides.
pub open spec fn is_locked_result(
    reply: protocol::QueriedView<Seq<crate::db::migrations::SchemaLockView>>,
) -> Result<bool, DBErrorView> {
    match reply {
        Ok(Ok(locks)) => Ok(locks.len() > 0 && locks[0].locked),
        Ok(Err(error)) => Err(
            DBErrorView::Database("Failed to fetch schema lock status: "@ + error),
        ),
        Err(error) => Err(DBErrorView::Surreal(error)),
    }
}

} // verus!
