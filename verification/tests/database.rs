use keystone::config::DatabaseConfig;
use keystone::db::connect::{Connecting, ConnectingStage};
use keystone::db::migrations::SchemaLock;
use keystone::db::protocol::{RecordKey, Reply, Request};
use keystone::db::{DBError, Database, SurrealError};

fn create_test_config() -> DatabaseConfig {
    DatabaseConfig {
        url: "memory".to_string(), // Use in-memory database for tests
        username: "root".to_string(),
        password: "root".to_string(),
        namespace: "test".to_string(),
        database: "test".to_string(),
    }
}

fn error(message: &str) -> SurrealError {
    SurrealError { message: message.to_string() }
}

fn lock(locked: bool) -> SchemaLock {
    SchemaLock {
        id: RecordKey { table: "schema_lock".to_string(), key: "singleton".to_string() },
        locked,
        locked_at: Some(time::OffsetDateTime::UNIX_EPOCH),
        instance_id: None,
    }
}

/// Tells the replies one by one; what was asked for before each, and the end.
fn talk(mut connecting: Connecting, replies: Vec<Reply>) -> (Vec<String>, Connecting) {
    let mut asked = vec![];
    for reply in replies {
        asked.push(format!("{:?}", connecting.request().unwrap()));
        connecting = connecting.resume(reply);
    }
    (asked, connecting)
}

fn message(connecting: Connecting) -> String {
    match connecting.stage {
        ConnectingStage::Finished(Ok(())) => "connected".to_string(),
        ConnectingStage::Finished(Err(e)) => e.message(),
        _ => "on the way".to_string(),
    }
}

#[test]
fn test_db_error_display() {
    let db_error = DBError::Database("Test error".to_string());
    assert_eq!(db_error.message(), "Database error: Test error");

    let not_found_error = DBError::NotFound("Item".to_string());
    assert_eq!(not_found_error.message(), "Item not found: Item");

    let operation_failed_error = DBError::OperationFailed("Operation".to_string());
    assert_eq!(operation_failed_error.message(), "Database operation failed: Operation");

    let health_timeout_error = DBError::HealthTimeout;
    assert_eq!(health_timeout_error.message(), "Health check timed out");

    let health_failed_error = DBError::HealthFailed("Connection lost".to_string());
    assert_eq!(health_failed_error.message(), "Health check failed: Connection lost");
}

#[test]
fn test_db_error_from_surreal_error() {
    // Test that SurrealDB errors are properly converted
    let surreal_error = SurrealError { message: "Test DB error".to_string() };
    let db_error: DBError = surreal_error.into();
    assert!(matches!(db_error, DBError::Surreal(_)));
    assert_eq!(db_error.message(), "SurrealDB error: Test DB error");
}

#[test]
fn test_database_config_validation() {
    let config = create_test_config();
    assert_eq!(config.url, "memory");
    assert_eq!(config.username, "root");
    assert_eq!(config.password, "root");
    assert_eq!(config.namespace, "test");
    assert_eq!(config.database, "test");
}

#[test]
fn connecting_goes_through_its_steps() {
    let (asked, end) = talk(
        Database::connect(&create_test_config()),
        vec![Reply::Done(Ok(())), Reply::Done(Ok(())), Reply::Done(Ok(()))],
    );
    assert_eq!(
        asked,
        vec![
            "Connect { url: \"memory\" }".to_string(),
            "SignIn { username: \"root\", password: \"root\" }".to_string(),
            "Select { namespace: \"test\", database: \"test\" }".to_string(),
        ]
    );
    assert!(end.request().is_none());
    assert_eq!(message(end), "connected");
}

#[test]
fn unauthorized_connection_is_only_opened() {
    let (asked, end) =
        talk(Database::new_unauthorized(&create_test_config()), vec![Reply::Done(Ok(()))]);
    assert_eq!(asked, vec!["Connect { url: \"memory\" }".to_string()]);
    assert_eq!(message(end), "connected");
}

#[test]
fn connection_to_an_invalid_url() {
    let mut config = create_test_config();
    config.url = "invalid://url".to_string();
    for start in [Database::connect(&config), Database::new_unauthorized(&config)] {
        let (_, end) = talk(start, vec![Reply::Done(Err(error("unsupported scheme")))]);
        assert!(matches!(end.stage, ConnectingStage::Finished(Err(DBError::Database(_)))));
        assert_eq!(
            message(end),
            "Database error: Failed to connect to SurrealDB URL 'invalid://url': unsupported scheme"
        );
    }
}

#[test]
fn connection_with_wrong_credentials() {
    let (_, end) = talk(
        Database::connect(&create_test_config()),
        vec![Reply::Done(Ok(())), Reply::Done(Err(error("denied")))],
    );
    assert!(end.request().is_none());
    assert_eq!(message(end), "Database error: Failed to sign in to SurrealDB: denied");
}

#[test]
fn connection_to_a_missing_namespace() {
    let (_, end) = talk(
        Database::connect(&create_test_config()),
        vec![Reply::Done(Ok(())), Reply::Done(Ok(())), Reply::Done(Err(error("gone")))],
    );
    assert_eq!(
        message(end),
        "Database error: Failed to select namespace 'test' or database 'test': gone"
    );
}

#[test]
fn connecting_ignores_what_it_did_not_ask_for() {
    let (_, end) = talk(Database::connect(&create_test_config()), vec![Reply::Slept]);
    assert!(matches!(end.request(), Some(Request::Connect { .. })));
    assert_eq!(message(end), "on the way");
}

#[test]
fn health_of_the_database() {
    assert!(matches!(Database::check_health_request(), Request::Health { timeout_secs: 3 }));
    assert_eq!(Database::check_health(Some(Ok(()))).unwrap(), "OK");
    let failed = Database::check_health(Some(Err(error("ill")))).unwrap_err();
    assert_eq!(failed.message(), "Health check failed: ill");
    let late = Database::check_health(None).unwrap_err();
    assert!(matches!(late, DBError::HealthTimeout));
}

#[test]
fn forced_unlocking() {
    assert_eq!(
        format!("{:?}", Database::force_unlock_request()),
        "Execute(Statement { sql: \"UPDATE schema_lock SET locked = false\", bindings: [] })"
    );
    assert!(Database::force_unlock(Ok(Ok(()))).is_ok());
    assert_eq!(
        Database::force_unlock(Ok(Err(error("no table")))).unwrap_err().message(),
        "Database error: Failed to unlock database migration lock: no table"
    );
    assert_eq!(
        Database::force_unlock(Err(error("no network"))).unwrap_err().message(),
        "SurrealDB error: no network"
    );
}

#[test]
fn first_lock_on_record_decides() {
    assert_eq!(
        format!("{:?}", Database::is_locked_request()),
        "FetchLocks(Statement { sql: \"SELECT * FROM schema_lock\", bindings: [] })"
    );
    assert!(!Database::is_locked(Ok(Ok(vec![]))).unwrap());
    assert!(Database::is_locked(Ok(Ok(vec![lock(true)]))).unwrap());
    assert!(!Database::is_locked(Ok(Ok(vec![lock(false), lock(true)]))).unwrap());
    assert_eq!(
        Database::is_locked(Ok(Err(error("odd")))).unwrap_err().message(),
        "Database error: Failed to fetch schema lock status: odd"
    );
    assert_eq!(
        Database::is_locked(Err(error("no network"))).unwrap_err().message(),
        "SurrealDB error: no network"
    );
}

#[test]
fn permission_of_the_user() {
    assert_eq!(
        format!("{:?}", Database::user_has_permission_request("edit")),
        "RunFunction { name: \"fn::auth_user_has_permission\", argument: \"edit\" }"
    );
    assert!(Database::user_has_permission(Ok(true)).unwrap());
    assert!(!Database::user_has_permission(Ok(false)).unwrap());
    assert!(matches!(
        Database::user_has_permission(Err(error("no such function"))),
        Err(DBError::Surreal(e)) if e.message == "no such function"
    ));
}
