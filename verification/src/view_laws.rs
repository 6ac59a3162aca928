//! What the values that go in and out are seen as: nothing in them is left out.

use crate::application::Route;
use crate::config;
use crate::config::{
    ConfigError, ConfigErrorView, ConfigSource, ConfigSourceView, DatabaseConfig, SecurityConfig,
    ServerConfig, Surroundings,
};
use crate::db::embedded;
use crate::db::embedded::EmbeddedFile;
use crate::db::migrations;
use crate::db::migrations::{
    AppliedMigration, MigrationError, MigrationErrorView, SchemaLock, SchemaLockView,
};
use crate::db::pending;
use crate::db::pending::Script;
use crate::db::protocol;
use crate::db::protocol::{Queried, Statement, Value, ValueView};
use crate::db::{DBError, DBErrorView, SurrealError};
use include_dir::Dir;
use vstd::prelude::*;
use vstd::utf8::{decode_utf8, valid_utf8};

verus! {

/// A list of texts is seen text by text.
pub proof fn texts_are_seen_one_by_one(list: Vec<String>)
    ensures
        protocol::texts(list).len() == list@.len(),
        forall|i: int| 0 <= i < list@.len() ==> #[trigger] protocol::texts(list)[i] == list@[i]@,
{
}

/// A text that may be missing is seen as it is.
pub proof fn missing_text_is_seen_as_missing(s: Option<String>)
    ensures
        config::optional_text(s) is Some <==> s is Some,
        s is Some ==> config::optional_text(s)->0 == s->0@,
{
}

/// A statement is seen with its whole text and all of its parameters.
pub proof fn statement_is_seen_whole(statement: Statement)
    ensures
        statement@.sql == statement.sql@,
        statement@.bindings.len() == statement.bindings@.len(),
        forall|i: int|
            0 <= i < statement.bindings@.len() ==> {
                &&& (#[trigger] statement@.bindings[i]).name == statement.bindings@[i].name@
                &&& match statement.bindings@[i].value {
                    Value::Text(text) => statement@.bindings[i].value == ValueView::Text(text@),
                    Value::Record(record) => statement@.bindings[i].value matches ValueView::Record(
                        seen,
                    ) && seen.table == record.table@ && seen.key == record.key@,
                }
            },
{
}

/// The scripts that are handed out are seen one by one, each with its id and its content.
pub proof fn scripts_are_seen_one_by_one(list: Vec<Script>, error: MigrationError)
    ensures
        pending::scripts_view(Ok(list)) matches Ok(seen) && {
            &&& seen.len() == list@.len()
            &&& forall|i: int|
                0 <= i < list@.len() ==> (#[trigger] seen[i]).id == list@[i].id@ && seen[i].content
                    == list@[i].content@
        },
        pending::scripts_view(Err(error)) matches Err(seen) && seen == error@,
{
}

/// The applied migrations that the database tells of are seen one by one.
pub proof fn applied_migrations_are_seen_one_by_one(
    list: Vec<AppliedMigration>,
    error: SurrealError,
)
    ensures
        protocol::applied_view(Ok(Ok(list))) matches Ok(Ok(seen)) && {
            &&& seen.len() == list@.len()
            &&& forall|i: int| 0 <= i < list@.len() ==> #[trigger] seen[i] == list@[i].migration@
        },
        protocol::applied_view(Ok(Err(error))) == Ok::<
            Result<Seq<Seq<char>>, Seq<char>>,
            Seq<char>,
        >(Err(error.message@)),
        protocol::applied_view(Err(error)) == Err::<
            Result<Seq<Seq<char>>, Seq<char>>,
            Seq<char>,
        >(error.message@),
{
}

/// The locks that the database tells of are seen one by one.
pub proof fn locks_are_seen_one_by_one(list: Vec<SchemaLock>, reply: Queried<Vec<SchemaLock>>)
    ensures
        protocol::locks_view(Ok(Ok(list))) matches Ok(Ok(seen)) && {
            &&& seen.len() == list@.len()
            &&& forall|i: int|
                0 <= i < list@.len() ==> {
                    &&& (#[trigger] seen[i]).locked == list@[i].locked
                    &&& seen[i].instance_id is Some <==> list@[i].instance_id is Some
                    &&& list@[i].instance_id is Some ==> seen[i].instance_id->0
                        == list@[i].instance_id->0@
                    &&& seen[i].locked_at == list@[i].locked_at
                }
        },
        reply is Err ==> protocol::locks_view(reply) == Err::<
            Result<Seq<SchemaLockView>, Seq<char>>,
            Seq<char>,
        >(reply->Err_0.message@),
{
}

/// The sources that a configuration is read from are seen one by one.
pub proof fn sources_are_seen_one_by_one(list: Vec<ConfigSource>, error: ConfigError)
    ensures
        config::sources_view(Ok(list)) matches Ok(seen) && {
            &&& seen.len() == list@.len()
            &&& forall|i: int|
                0 <= i < list@.len() ==> #[trigger] seen[i] == match list@[i] {
                    ConfigSource::File(path) => ConfigSourceView::File(path@),
                    ConfigSource::Environment {
                        prefix,
                        separator,
                    } => ConfigSourceView::Environment { prefix: prefix@, separator: separator@ },
                }
        },
        config::sources_view(Err(error)) matches Err(seen) && seen == error@,
{
}

/// A path that was found is seen as it is, and so is the reason why there is none.
pub proof fn path_is_seen_as_it_is(path: String, reason: String)
    ensures
        config::path_view(Ok(path)) == Ok::<Seq<char>, ConfigErrorView>(path@),
        config::path_view(Err(ConfigError::NotFound(reason))) == Err::<Seq<char>, ConfigErrorView>(
            ConfigErrorView::NotFound(reason@),
        ),
        config::path_view(Err(ConfigError::LoadError(reason))) == Err::<Seq<char>, ConfigErrorView>(
            ConfigErrorView::LoadError(reason@),
        ),
        config::path_view(Err(ConfigError::Config(reason))) == Err::<Seq<char>, ConfigErrorView>(
            ConfigErrorView::Config(reason@),
        ),
{
}

/// The surroundings are seen as they are.
pub proof fn surroundings_are_seen_as_they_are(surroundings: Surroundings)
    ensures
        surroundings@.config_path is Some <==> surroundings.config_path is Some,
        surroundings.config_path is Some ==> surroundings@.config_path->0
            == surroundings.config_path->0@,
        surroundings@.config_path_exists == surroundings.config_path_exists,
        surroundings@.system_path_exists == surroundings.system_path_exists,
        surroundings@.mode is Some <==> surroundings.mode is Some,
        surroundings.mode is Some ==> surroundings@.mode->0 == surroundings.mode->0@,
        surroundings@.local_path_exists == surroundings.local_path_exists,
{
}

/// A configuration is seen with all of its settings.
pub proof fn configuration_is_seen_whole(
    server: ServerConfig,
    database: DatabaseConfig,
    security: SecurityConfig,
)
    ensures
        server@.host == server.host@,
        server@.port == server.port,
        database@.url == database.url@,
        database@.username == database.username@,
        database@.password == database.password@,
        database@.namespace == database.namespace@,
        database@.database == database.database@,
        security@.enable_hsts == security.enable_hsts,
        security@.hsts_max_age == security.hsts_max_age,
        security@.hsts_include_subdomains == security.hsts_include_subdomains,
        security@.hsts_preload == security.hsts_preload,
        security@.content_security_policy is Some <==> security.content_security_policy is Some,
        security.content_security_policy is Some ==> security@.content_security_policy->0
            == security.content_security_policy->0@,
        security@.cors_origins.len() == security.cors_origins@.len(),
        forall|i: int|
            0 <= i < security.cors_origins@.len() ==> #[trigger] security@.cors_origins[i]
                == security.cors_origins@[i]@,
        security@.enable_security_headers == security.enable_security_headers,
{
}

/// The errors of the database are seen with their reasons.
pub proof fn database_errors_are_seen_whole(reason: String, error: SurrealError)
    ensures
        DBError::Database(reason)@ == DBErrorView::Database(reason@),
        DBError::Surreal(error)@ == DBErrorView::Surreal(error.message@),
        DBError::NotFound(reason)@ == DBErrorView::NotFound(reason@),
        DBError::OperationFailed(reason)@ == DBErrorView::OperationFailed(reason@),
        DBError::HealthTimeout@ == DBErrorView::HealthTimeout,
        DBError::HealthFailed(reason)@ == DBErrorView::HealthFailed(reason@),
{
}

/// The errors of migrations are seen with their reasons.
pub proof fn migration_errors_are_seen_whole(
    reason: String,
    id: String,
    source: Box<SurrealError>,
    error: Box<DBError>,
)
    ensures
        (MigrationError::DBError { source })@ == (MigrationErrorView::DBError {
            source: source.message@,
        }),
        MigrationError::SchemaError(error)@ == MigrationErrorView::SchemaError(error@),
        (MigrationError::ScriptFailed { id, source })@ == (MigrationErrorView::ScriptFailed {
            id: id@,
            source: source.message@,
        }),
        MigrationError::LockFailed(reason)@ == MigrationErrorView::LockFailed(reason@),
        MigrationError::InvalidId(reason)@ == MigrationErrorView::InvalidId(reason@),
        MigrationError::InvalidUtf8(reason)@ == MigrationErrorView::InvalidUtf8(reason@),
{
}

/// What came of an operation is seen as it is: success as success, with its value, and failure as
/// failure.
pub proof fn results_are_seen_as_they_are<T>(
    value: T,
    id: Option<String>,
    database: DBError,
    migration: MigrationError,
)
    ensures
        crate::db::db_result(Ok::<T, DBError>(value)) == Ok::<T, DBErrorView>(value),
        crate::db::db_result(Err::<T, DBError>(database)) == Err::<T, DBErrorView>(database@),
        migrations::migration_result(Ok::<T, MigrationError>(value)) == Ok::<
            T,
            MigrationErrorView,
        >(value),
        migrations::migration_result(Err::<T, MigrationError>(migration)) == Err::<
            T,
            MigrationErrorView,
        >(migration@),
        migrations::id_result(Ok(id)) == Ok::<Option<Seq<char>>, MigrationErrorView>(
            match id {
                None => None,
                Some(id) => Some(id@),
            },
        ),
        migrations::id_result(Err(migration)) == Err::<Option<Seq<char>>, MigrationErrorView>(
            migration@,
        ),
{
}

/// An embedded file is seen with its path and its text.
pub proof fn embedded_file_is_seen_whole(file: EmbeddedFile)
    ensures
        file@.path == file.path@,
        file@.text is Some <==> file.text is Some,
        file.text is Some ==> file@.text->0 == file.text->0@,
{
}

/// The files of a directory are read one by one, each under its path, and as the text that its bytes
/// encode, where they encode one.
pub proof fn files_are_read_one_by_one(dir: Dir<'static>)
    ensures
        embedded::files_in(dir).len() == embedded::dir_files(dir).len(),
        forall|i: int|
            0 <= i < embedded::dir_files(dir).len() ==> {
                let (path, bytes) = embedded::dir_files(dir)[i];
                &&& (#[trigger] embedded::files_in(dir)[i]).path == path
                &&& embedded::files_in(dir)[i].text is Some <==> valid_utf8(bytes)
                &&& valid_utf8(bytes) ==> embedded::files_in(dir)[i].text->0 == decode_utf8(bytes)
            },
{
}

/// A route is kept with its path.
pub proof fn routes_are_seen_by_their_paths<M>(routes: Seq<Route<M>>)
    ensures
        crate::application::route_paths(routes).len() == routes.len(),
        forall|i: int|
            0 <= i < routes.len() ==> #[trigger] crate::application::route_paths(routes)[i]
                == routes[i].path@,
{
}

} // verus!
