//! What the machines, their requests and the replies to them are seen as: nothing in them is left out.

use crate::config::{ConfigError, ConfigErrorView};
use crate::db::connect::{Connecting, ConnectingStage, ConnectingStageView};
use crate::db::lock::{LockAttempt, LockStage, LockStageView};
use crate::db::migrations::{
    AppliedMigration, MigrationError, MigrationErrorView, Migrations, SchemaLock,
};
use crate::db::pending::Script;
use crate::db::protocol;
use crate::db::protocol::{Queried, RecordKey, Reply, ReplyView, Request, RequestView, Statement};
use crate::db::run::{MigrationRun, RunStage, RunStageView};
use crate::db::{DBError, DBErrorView, SurrealError};
use crate::maintenance;
use crate::maintenance::{
    MaintenanceError, MaintenanceErrorView, Migrating, MigratingView, Unlocking, UnlockingView,
};
use crate::startup;
use crate::startup::{Service, StartError, StartErrorView, Startup, StartupView};
use vstd::prelude::*;

verus! {

/// A request is seen as what it asks for, with all that it carries.
pub proof fn requests_are_seen_whole(
    a: String,
    b: String,
    n: u64,
    record: RecordKey,
    statement: Statement,
    paths: Vec<String>,
)
    ensures
        (Request::Connect { url: a })@ == (RequestView::Connect { url: a@ }),
        (Request::SignIn { username: a, password: b })@ == (RequestView::SignIn {
            username: a@,
            password: b@,
        }),
        (Request::Select { namespace: a, database: b })@ == (RequestView::Select {
            namespace: a@,
            database: b@,
        }),
        (Request::Health { timeout_secs: n })@ == (RequestView::Health { timeout_secs: n }),
        (Request::RunFunction { name: a, argument: b })@ == (RequestView::RunFunction {
            name: a@,
            argument: b@,
        }),
        Request::Upsert(record)@ matches RequestView::Upsert(seen) && seen.table == record.table@
            && seen.key == record.key@,
        Request::Execute(statement)@ == RequestView::Execute(statement@),
        Request::FetchApplied(statement)@ == RequestView::FetchApplied(statement@),
        Request::FetchLocks(statement)@ == RequestView::FetchLocks(statement@),
        Request::UpdateLock(statement)@ == RequestView::UpdateLock(statement@),
        Request::StartClock@ == RequestView::StartClock,
        Request::ReadClock@ == RequestView::ReadClock,
        (Request::Sleep { seconds: n })@ == (RequestView::Sleep { seconds: n }),
        (Request::Bind { address: a })@ == (RequestView::Bind { address: a@ }),
        (Request::Serve { paths })@ matches RequestView::Serve { paths: seen } && {
            &&& seen.len() == paths@.len()
            &&& forall|i: int| 0 <= i < paths@.len() ==> #[trigger] seen[i] == paths@[i]@
        },
{
}

/// Whether there is a request is seen as it is.
pub proof fn missing_request_is_seen_as_missing(request: Option<Request>)
    ensures
        protocol::optional_request(request) is Some <==> request is Some,
        request is Some ==> protocol::optional_request(request)->0 == request->0@,
{
}

/// The result of an execution is seen as it is.
pub proof fn executions_are_seen_as_they_are(error: SurrealError)
    ensures
        protocol::executed_view(Ok(Ok(()))) == Ok::<Result<(), Seq<char>>, Seq<char>>(Ok(())),
        protocol::executed_view(Ok(Err(error))) == Ok::<Result<(), Seq<char>>, Seq<char>>(
            Err(error.message@),
        ),
        protocol::executed_view(Err(error)) == Err::<Result<(), Seq<char>>, Seq<char>>(
            error.message@,
        ),
{
}

/// A reply is seen as what it tells, with all that it carries.
pub proof fn replies_are_seen_whole(
    error: SurrealError,
    yes: bool,
    executed: Queried<()>,
    applied: Queried<Vec<AppliedMigration>>,
    locks: Queried<Vec<SchemaLock>>,
    lock: SchemaLock,
    nanos: u128,
    reason: String,
)
    ensures
        Reply::Done(Ok(()))@ == ReplyView::Done(Ok(())),
        Reply::Done(Err(error))@ == ReplyView::Done(Err(error.message@)),
        Reply::Health(None)@ == ReplyView::Health(None),
        Reply::Health(Some(Ok(())))@ == ReplyView::Health(Some(Ok(()))),
        Reply::Health(Some(Err(error)))@ == ReplyView::Health(Some(Err(error.message@))),
        Reply::Answer(Ok(yes))@ == ReplyView::Answer(Ok(yes)),
        Reply::Answer(Err(error))@ == ReplyView::Answer(Err(error.message@)),
        Reply::Executed(executed)@ == ReplyView::Executed(protocol::executed_view(executed)),
        Reply::Applied(applied)@ == ReplyView::Applied(protocol::applied_view(applied)),
        Reply::Locks(locks)@ == ReplyView::Locks(protocol::locks_view(locks)),
        Reply::Lock(Ok(Ok(Some(lock))))@ == ReplyView::Lock(Ok(Ok(Some(lock@)))),
        Reply::Lock(Ok(Ok(None)))@ == ReplyView::Lock(Ok(Ok(None))),
        Reply::Lock(Ok(Err(error)))@ == ReplyView::Lock(Ok(Err(error.message@))),
        Reply::Lock(Err(error))@ == ReplyView::Lock(Err(error.message@)),
        Reply::ClockStarted@ == ReplyView::ClockStarted,
        (Reply::Elapsed { nanos })@ == (ReplyView::Elapsed { nanos }),
        Reply::Slept@ == ReplyView::Slept,
        Reply::Bound(Ok(()))@ == ReplyView::Bound(Ok(())),
        Reply::Bound(Err(reason))@ == ReplyView::Bound(Err(reason@)),
        Reply::Served(Ok(()))@ == ReplyView::Served(Ok(())),
        Reply::Served(Err(reason))@ == ReplyView::Served(Err(reason@)),
{
}

/// The errors of a start, of maintenance and of the configuration are seen with their reasons.
pub proof fn errors_are_seen_whole(
    database: DBError,
    migration: MigrationError,
    address: String,
    reason: String,
)
    ensures
        StartError::Connection(database)@ == StartErrorView::Connection(database@),
        StartError::OutOfDate@ == StartErrorView::OutOfDate,
        StartError::Migrations(migration)@ == StartErrorView::Migrations(migration@),
        (StartError::Bind { address, reason })@ == (StartErrorView::Bind {
            address: address@,
            reason: reason@,
        }),
        StartError::Server(reason)@ == StartErrorView::Server(reason@),
        MaintenanceError::Database(database)@ == MaintenanceErrorView::Database(database@),
        MaintenanceError::Migration(migration)@ == MaintenanceErrorView::Migration(migration@),
        MaintenanceError::Locked@ == MaintenanceErrorView::Locked,
        ConfigError::LoadError(reason)@ == ConfigErrorView::LoadError(reason@),
        ConfigError::NotFound(reason)@ == ConfigErrorView::NotFound(reason@),
        ConfigError::Config(reason)@ == ConfigErrorView::Config(reason@),
{
}

/// What a start or maintenance came to is seen as it is.
pub proof fn outcomes_are_seen_as_they_are(start: StartError, failure: MaintenanceError)
    ensures
        startup::start_result(Ok(())) == Ok::<(), StartErrorView>(()),
        startup::start_result(Err(start)) == Err::<(), StartErrorView>(start@),
        maintenance::maintenance_result(Ok(())) == Ok::<(), MaintenanceErrorView>(()),
        maintenance::maintenance_result(Err(failure)) == Err::<(), MaintenanceErrorView>(failure@),
{
}

/// What an application has for its start is seen as it is.
pub proof fn parts_of_a_start_are_seen_whole(
    migrations: Option<Migrations>,
    service: Option<Service>,
)
    ensures
        startup::optional_migrations(migrations) is Some <==> migrations is Some,
        migrations is Some ==> startup::optional_migrations(migrations)->0 == migrations->0@,
        startup::optional_service(service) is Some <==> service is Some,
        service is Some ==> {
            let seen = startup::optional_service(service)->0;
            &&& seen.address == service->0.address@
            &&& seen.paths.len() == service->0.paths@.len()
            &&& forall|i: int|
                0 <= i < seen.paths.len() ==> #[trigger] seen.paths[i] == service->0.paths@[i]@
        },
{
}

/// The opening of a connection is seen with its configuration and how far it has come.
pub proof fn connecting_is_seen_whole(now: Connecting, error: DBError)
    ensures
        now@.config == now.config@,
        now@.authorize == now.authorize,
        now@.stage == now.stage@,
        ConnectingStage::Opening@ == ConnectingStageView::Opening,
        ConnectingStage::SigningIn@ == ConnectingStageView::SigningIn,
        ConnectingStage::Selecting@ == ConnectingStageView::Selecting,
        ConnectingStage::Finished(Ok(()))@ == ConnectingStageView::Finished(
            Ok::<(), DBErrorView>(()),
        ),
        ConnectingStage::Finished(Err(error))@ == ConnectingStageView::Finished(Err(error@)),
{
}

/// An attempt to take the lock is seen with its instance and how far it has come.
pub proof fn attempt_is_seen_whole(now: LockAttempt, taken: bool, error: MigrationError)
    ensures
        now@.instance_id == now.instance_id@,
        now@.stage == now.stage@,
        LockStage::Creating@ == LockStageView::Creating,
        LockStage::StartingClock@ == LockStageView::StartingClock,
        LockStage::Trying@ == LockStageView::Trying,
        LockStage::Timing@ == LockStageView::Timing,
        LockStage::Sleeping@ == LockStageView::Sleeping,
        LockStage::Finished(Ok(taken))@ == LockStageView::Finished(
            Ok::<bool, MigrationErrorView>(taken),
        ),
        LockStage::Finished(Err(error))@ == LockStageView::Finished(Err(error@)),
{
}

/// A run is seen with its migrations, its instance and how far it has come, down to the scripts that
/// are still to be applied.
pub proof fn run_is_seen_whole(
    now: MigrationRun,
    last_applied: String,
    attempt: LockAttempt,
    locked: bool,
    current: Script,
    rest: Vec<Script>,
    error: MigrationError,
)
    ensures
        now@.files == now.migrations@,
        now@.instance_id == now.instance_id@,
        now@.stage == now.stage@,
        RunStage::Reading@ == RunStageView::Reading,
        (RunStage::Acquiring { last_applied, attempt })@ == (RunStageView::Acquiring {
            last_applied: last_applied@,
            attempt: attempt@,
        }),
        (RunStage::Applying { locked, current, rest })@ matches RunStageView::Applying {
            locked: l,
            current: c,
            rest: seen,
        } && {
            &&& l == locked
            &&& c.id == current.id@
            &&& c.content == current.content@
            &&& seen.len() == rest@.len()
            &&& forall|i: int|
                0 <= i < rest@.len() ==> (#[trigger] seen[i]).id == rest@[i].id@
                    && seen[i].content == rest@[i].content@
        },
        (RunStage::Releasing { result: Ok(()) })@ == (RunStageView::Releasing {
            result: Ok::<(), MigrationErrorView>(()),
        }),
        (RunStage::Releasing { result: Err(error) })@ == (RunStageView::Releasing {
            result: Err(error@),
        }),
        RunStage::Finished(Ok(()))@ == RunStageView::Finished(Ok::<(), MigrationErrorView>(())),
        RunStage::Finished(Err(error))@ == RunStageView::Finished(Err(error@)),
{
}

/// A start is seen as how far it has come.
pub proof fn start_is_seen_whole(
    connecting: Connecting,
    to_check: Option<Migrations>,
    migrations: Migrations,
    service: Option<Service>,
    serves: Service,
    paths: Vec<String>,
    error: StartError,
)
    ensures
        (Startup::Connecting { connecting, to_check, service })@ == (StartupView::Connecting {
            connecting: connecting@,
            to_check: startup::optional_migrations(to_check),
            service: startup::optional_service(service),
        }),
        (Startup::Checking { migrations, service })@ == (StartupView::Checking {
            migrations: migrations@,
            service: startup::optional_service(service),
        }),
        Startup::Binding(serves)@ == StartupView::Binding(serves@),
        (Startup::Serving { paths })@ == (StartupView::Serving { paths: protocol::texts(paths) }),
        Startup::Finished(Ok(()))@ == StartupView::Finished(Ok::<(), StartErrorView>(())),
        Startup::Finished(Err(error))@ == StartupView::Finished(Err(error@)),
{
}

/// Maintenance is seen as how far it has come.
pub proof fn maintenance_is_seen_whole(
    connecting: Connecting,
    migrations: Migrations,
    instance_id: Option<String>,
    run: MigrationRun,
    force: bool,
    error: MaintenanceError,
)
    ensures
        (Migrating::Connecting { connecting, migrations, instance_id })@ == (
        MigratingView::Connecting {
            connecting: connecting@,
            migrations: migrations@,
            instance_id: match instance_id {
                None => None,
                Some(id) => Some(id@),
            },
        }),
        Migrating::Running(run)@ == MigratingView::Running(run@),
        Migrating::Finished(Ok(()))@ == MigratingView::Finished(
            Ok::<(), MaintenanceErrorView>(()),
        ),
        Migrating::Finished(Err(error))@ == MigratingView::Finished(Err(error@)),
        (Unlocking::Connecting { connecting, force })@ == (UnlockingView::Connecting {
            connecting: connecting@,
            force,
        }),
        (Unlocking::Reading { force })@ == (UnlockingView::Reading { force }),
        Unlocking::Freeing@ == UnlockingView::Freeing,
        Unlocking::Finished(Ok(()))@ == UnlockingView::Finished(
            Ok::<(), MaintenanceErrorView>(()),
        ),
        Unlocking::Finished(Err(error))@ == UnlockingView::Finished(Err(error@)),
{
}

} // verus!
