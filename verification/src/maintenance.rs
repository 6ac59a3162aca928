//! Keeping the schema up to date, and freeing its lock.

use crate::config::{DatabaseConfig, DatabaseConfigView};
use crate::db::connect::{Connecting, ConnectingStage, ConnectingView};
use crate::db::embedded::EmbeddedFileView;
use crate::db::migrations::{MigrationError, MigrationErrorView, Migrations};
use crate::db::protocol;
use crate::db::protocol::{Machine, Reply, ReplyView, Request, RequestView};
use crate::db::run::{MigrationRun, MigrationRunView};
use crate::db::{DBError, DBErrorView, Database};
use vstd::prelude::*;

verus! {

/// Why the schema was not kept up to date, or its lock not freed.
#[derive(Debug)]
pub enum MaintenanceError {
    Database(DBError),
    Migration(MigrationError),
    /// The lock is held, and was not to be freed by force.
    Locked,
}

pub enum MaintenanceErrorView {
    Database(DBErrorView),
    Migration(MigrationErrorView),
    Locked,
}

impl View for MaintenanceError {
    type V = MaintenanceErrorView;

    open spec fn view(&self) -> MaintenanceErrorView {
        match self {
            MaintenanceError::Database(error) => MaintenanceErrorView::Database(error@),
            MaintenanceError::Migration(error) => MaintenanceErrorView::Migration(error@),
            MaintenanceError::Locked => MaintenanceErrorView::Locked,
        }
    }
}

impl MaintenanceErrorView {
    /// The error as its user reads it.
    pub open spec fn text(self) -> Seq<char> {
        match self {
            MaintenanceErrorView::Database(error) => error.text(),
            MaintenanceErrorView::Migration(error) => error.text(),
            MaintenanceErrorView::Locked => "Database is locked. Use --force to unlock."@,
        }
    }
}

impl MaintenanceError {
    /// The error as its user reads it.
    pub fn message(&self) -> (r: String)
        ensures
            r@ == self@.text(),
    {
        match self {
            MaintenanceError::Database(error) => error.message(),
            MaintenanceError::Migration(error) => error.message(),
            MaintenanceError::Locked => "Database is locked. Use --force to unlock.".to_string(),
        }
    }
}

/// What the maintenance came to.
pub open spec fn maintenance_result(r: Result<(), MaintenanceError>) -> Result<
    (),
    MaintenanceErrorView,
> {
    match r {
        Ok(value) => Ok(value),
        Err(error) => Err(error@),
    }
}

/// The bringing up to date of the schema: the database is connected to, and then the migrations are
/// run, if the instance has an id.
pub enum Migrating {
    Connecting { connecting: Connecting, migrations: Migrations, instance_id: Option<String> },
    Running(MigrationRun),
    Finished(Result<(), MaintenanceError>),
}

pub enum MigratingView {
    Connecting {
        connecting: ConnectingView,
        migrations: Seq<EmbeddedFileView>,
        instance_id: Option<Seq<char>>,
    },
    Running(MigrationRunView),
    Finished(Result<(), MaintenanceErrorView>),
}

impl View for Migrating {
    type V = MigratingView;

    open spec fn view(&self) -> MigratingView {
        match self {
            Migrating::Connecting {
                connecting,
                migrations,
                instance_id,
            } => MigratingView::Connecting {
                connecting: connecting@,
                migrations: migrations@,
                instance_id: crate::config::optional_text(*instance_id),
            },
            Migrating::Running(run) => MigratingView::Running(run@),
            Migrating::Finished(r) => MigratingView::Finished(maintenance_result(*r)),
        }
    }
}

impl MigratingView {
    /// A bringing up to date that has not begun.
    pub open spec fn start(
        database: DatabaseConfigView,
        migrations: Seq<EmbeddedFileView>,
        instance_id: Option<Seq<char>>,
    ) -> MigratingView {
        MigratingView::Connecting {
            connecting: ConnectingView::start(database, true),
            migrations,
            instance_id,
        }
    }

    /// The outcome, once there is one.
    pub open spec fn outcome(self) -> Option<Result<(), MaintenanceErrorView>> {
        match self {
            MigratingView::Finished(r) => Some(r),
            _ => None,
        }
    }

    /// The state once the opening of the connection has come to `connecting`.
    pub open spec fn after_connecting(
        connecting: ConnectingView,
        migrations: Seq<EmbeddedFileView>,
        instance_id: Option<Seq<char>>,
    ) -> MigratingView {
        match connecting.outcome() {
            None => MigratingView::Connecting { connecting, migrations, instance_id },
            Some(Err(error)) => MigratingView::Finished(
                Err(MaintenanceErrorView::Database(error)),
            ),
            Some(Ok(_)) => match instance_id {
                None => MigratingView::Finished(Ok(())),
                Some(id) => MigratingView::Running(MigrationRunView::start(migrations, id)),
            },
        }
    }

    /// The state once the run of the migrations has come to `run`.
    pub open spec fn after_running(run: MigrationRunView) -> MigratingView {
        match run.outcome() {
            None => MigratingView::Running(run),
            Some(Ok(_)) => MigratingView::Finished(Ok(())),
            Some(Err(error)) => MigratingView::Finished(
                Err(MaintenanceErrorView::Migration(error)),
            ),
        }
    }
}

impl Machine for MigratingView {
    open spec fn request(self) -> Option<RequestView> {
        match self {
            MigratingView::Connecting { connecting, .. } => connecting.request(),
            MigratingView::Running(run) => run.request(),
            MigratingView::Finished(_) => None,
        }
    }

    open spec fn resume(self, reply: ReplyView) -> MigratingView {
        match self {
            MigratingView::Connecting {
                connecting,
                migrations,
                instance_id,
            } => MigratingView::after_connecting(
                connecting.resume(reply),
                migrations,
                instance_id,
            ),
            MigratingView::Running(run) => MigratingView::after_running(run.resume(reply)),
            MigratingView::Finished(_) => self,
        }
    }
}

impl Migrating {
    /// The bringing up to date of the schema on the database.
    pub fn new(
        database: &DatabaseConfig,
        migrations: Migrations,
        instance_id: Option<String>,
    ) -> (r: Migrating)
        ensures
            r@ == MigratingView::start(
                database@,
                migrations@,
                crate::config::optional_text(instance_id),
            ),
    {
        Migrating::Connecting { connecting: Database::connect(database), migrations, instance_id }
    }

    /// What is to be done next; nothing once the outcome is known.
    pub fn request(&self) -> (r: Option<Request>)
        ensures
            protocol::optional_request(r) == self@.request(),
    {
        match self {
            Migrating::Connecting { connecting, .. } => connecting.request(),
            Migrating::Running(run) => run.request(),
            Migrating::Finished(_) => None,
        }
    }

    /// Takes the reply to the request. A reply that does not answer it changes nothing.
    pub fn resume(self, reply: Reply) -> (r: Migrating)
        ensures
            r@ == self@.resume(reply@),
    {
        match self {
            Migrating::Connecting { connecting, migrations, instance_id } => {
                let connecting = connecting.resume(reply);
                match connecting.stage {
                    ConnectingStage::Finished(Err(error)) => Migrating::Finished(
                        Err(MaintenanceError::Database(error)),
                    ),
                    ConnectingStage::Finished(Ok(_)) => match instance_id {
                        None => Migrating::Finished(Ok(())),
                        Some(id) => Migrating::Running(migrations.run_migrations(id)),
                    },
                    stage => Migrating::Connecting {
                        connecting: Connecting {
                            config: connecting.config,
                            authorize: connecting.authorize,
                            stage,
                        },
                        migrations,
                        instance_id,
                    },
                }
            },
            Migrating::Running(run) => {
                match run.resume(reply).outcome() {
                    Ok(Ok(_)) => Migrating::Finished(Ok(())),
                    Ok(Err(error)) => Migrating::Finished(Err(MaintenanceError::Migration(error))),
                    Err(run) => Migrating::Running(run),
                }
            },
            Migrating::Finished(r) => Migrating::Finished(r),
        }
    }

    /// The outcome, once there is one; else the state itself.
    pub fn outcome(self) -> (r: Result<Result<(), MaintenanceError>, Migrating>)
        ensures
            match r {
                Ok(result) => self@.outcome() == Some(maintenance_result(result)),
                Err(migrating) => self@.outcome() is None && migrating@ == self@,
            },
    {
        match self {
            Migrating::Finished(result) => Ok(result),
            migrating => Err(migrating),
        }
    }
}

/// The freeing of the migration lock: the database is connected to and asked for the lock, and a
/// lock that is held is freed, but only by force.
pub enum Unlocking {
    Connecting { connecting: Connecting, force: bool },
    Reading { force: bool },
    Freeing,
    Finished(Result<(), MaintenanceError>),
}

pub enum UnlockingView {
    Connecting { connecting: ConnectingView, force: bool },
    Reading { force: bool },
    Freeing,
    Finished(Result<(), MaintenanceErrorView>),
}

impl View for Unlocking {
    type V = UnlockingView;

    open spec fn view(&self) -> UnlockingView {
        match self {
            Unlocking::Connecting { connecting, force } => UnlockingView::Connecting {
                connecting: connecting@,
                force: *force,
            },
            Unlocking::Reading { force } => UnlockingView::Reading { force: *force },
            Unlocking::Freeing => UnlockingView::Freeing,
            Unlocking::Finished(r) => UnlockingView::Finished(maintenance_result(*r)),
        }
    }
}

impl UnlockingView {
    /// A freeing that has not begun.
    pub open spec fn start(database: DatabaseConfigView, force: bool) -> UnlockingView {
        UnlockingView::Connecting { connecting: ConnectingView::start(database, true), force }
    }

    /// The outcome, once there is one.
    pub open spec fn outcome(self) -> Option<Result<(), MaintenanceErrorView>> {
        match self {
            UnlockingView::Finished(r) => Some(r),
            _ => None,
        }
    }

    /// The state once the opening of the connection has come to `connecting`.
    pub open spec fn after_connecting(connecting: ConnectingView, force: bool) -> UnlockingView {
        match connecting.outcome() {
            None => UnlockingView::Connecting { connecting, force },
            Some(Err(error)) => UnlockingView::Finished(
                Err(MaintenanceErrorView::Database(error)),
            ),
            Some(Ok(_)) => UnlockingView::Reading { force },
        }
    }

    /// The state once it is known whether the lock is held.
    pub open spec fn after_reading(
        is_locked: Result<bool, DBErrorView>,
        force: bool,
    ) -> UnlockingView {
        match is_locked {
            Err(error) => UnlockingView::Finished(Err(MaintenanceErrorView::Database(error))),
            Ok(false) => UnlockingView::Finished(Ok(())),
            Ok(true) => if force {
                UnlockingView::Freeing
            } else {
                UnlockingView::Finished(Err(MaintenanceErrorView::Locked))
            },
        }
    }

    /// The state once the lock was freed, or not.
    pub open spec fn after_freeing(freed: Result<(), DBErrorView>) -> UnlockingView {
        match freed {
            Err(error) => UnlockingView::Finished(Err(MaintenanceErrorView::Database(error))),
            Ok(_) => UnlockingView::Finished(Ok(())),
        }
    }
}

impl Machine for UnlockingView {
    open spec fn request(self) -> Option<RequestView> {
        match self {
            UnlockingView::Connecting { connecting, .. } => connecting.request(),
            UnlockingView::Reading { .. } => Some(
                RequestView::FetchLocks(crate::db::read_lock_statement()),
            ),
            UnlockingView::Freeing => Some(
                RequestView::Execute(crate::db::force_unlock_statement()),
            ),
            UnlockingView::Finished(_) => None,
        }
    }

    open spec fn resume(self, reply: ReplyView) -> UnlockingView {
        match (self, reply) {
            (
                UnlockingView::Connecting { connecting, force },
                _,
            ) => UnlockingView::after_connecting(connecting.resume(reply), force),
            (
                UnlockingView::Reading { force },
                ReplyView::Locks(r),
            ) => UnlockingView::after_reading(crate::db::is_locked_result(r), force),
            (UnlockingView::Freeing, ReplyView::Executed(r)) => UnlockingView::after_freeing(
                crate::db::force_unlock_result(r),
            ),
            _ => self,
        }
    }
}

impl Unlocking {
    /// The freeing of the migration lock in the database.
    pub fn new(database: &DatabaseConfig, force: bool) -> (r: Unlocking)
        ensures
            r@ == UnlockingView::start(database@, force),
    {
        Unlocking::Connecting { connecting: Database::connect(database), force }
    }

    /// What is to be done next; nothing once the outcome is known.
    pub fn request(&self) -> (r: Option<Request>)
        ensures
            protocol::optional_request(r) == self@.request(),
    {
        match self {
            Unlocking::Connecting { connecting, .. } => connecting.request(),
            Unlocking::Reading { .. } => Some(Database::is_locked_request()),
            Unlocking::Freeing => Some(Database::force_unlock_request()),
            Unlocking::Finished(_) => None,
        }
    }

    /// Takes the reply to the request. A reply that does not answer it changes nothing.
    pub fn resume(self, reply: Reply) -> (r: Unlocking)
        ensures
            r@ == self@.resume(reply@),
    {
        match (self, reply) {
            (Unlocking::Connecting { connecting, force }, reply) => {
                let connecting = connecting.resume(reply);
                match connecting.stage {
                    ConnectingStage::Finished(Err(error)) => Unlocking::Finished(
                        Err(MaintenanceError::Database(error)),
                    ),
                    ConnectingStage::Finished(Ok(_)) => Unlocking::Reading { force },
                    stage => Unlocking::Connecting {
                        connecting: Connecting {
                            config: connecting.config,
                            authorize: connecting.authorize,
                            stage,
                        },
                        force,
                    },
                }
            },
            (Unlocking::Reading { force }, Reply::Locks(reply)) => {
                match Database::is_locked(reply) {
                    Err(error) => Unlocking::Finished(Err(MaintenanceError::Database(error))),
                    Ok(false) => Unlocking::Finished(Ok(())),
                    Ok(true) => {
                        if force {
                            Unlocking::Freeing
                        } else {
                            Unlocking::Finished(Err(MaintenanceError::Locked))
                        }
                    },
                }
            },
            (Unlocking::Freeing, Reply::Executed(reply)) => {
                match Database::force_unlock(reply) {
                    Err(error) => Unlocking::Finished(Err(MaintenanceError::Database(error))),
                    Ok(_) => Unlocking::Finished(Ok(())),
                }
            },
            (unlocking, _) => unlocking,
        }
    }

    /// The outcome, once there is one; else the state itself.
    pub fn outcome(self) -> (r: Result<Result<(), MaintenanceError>, Unlocking>)
        ensures
            match r {
                Ok(result) => self@.outcome() == Some(maintenance_result(result)),
                Err(unlocking) => self@.outcome() is None && unlocking@ == self@,
            },
    {
        match self {
            Unlocking::Finished(result) => Ok(result),
            unlocking => Err(unlocking),
        }
    }
}

} // verus!
