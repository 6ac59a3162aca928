//! A run of the migrations.

use crate::db::embedded::EmbeddedFileView;
use crate::db::lock::{LockAttempt, LockAttemptView, LockStage};
use crate::db::migrations::{MigrationError, MigrationErrorView, Migrations};
use crate::db::pending::{Script, ScriptView};
use crate::db::protocol;
use crate::db::protocol::{
    Binding, BindingView, Machine, Reply, ReplyView, Request, RequestView, Statement,
    StatementView, Value, ValueView,
};
use crate::db::SurrealError;
use vstd::prelude::*;

verus! {

/// The statement that runs a script and records the migration, both or neither.
pub open spec fn apply_statement(script: ScriptView) -> StatementView {
    StatementView {
        sql: "BEGIN;"@ + script.content
            + " CREATE schema_migration SET migration=$migration, applied_at=time::now(); COMMIT; "@,
        bindings: seq![BindingView { name: "migration"@, value: ValueView::Text(script.id) }],
    }
}

/// The statement that runs a script and records the migration.
pub fn statement_to_apply(script: &Script) -> (r: Statement)
    ensures
        r@ == apply_statement(script@),
        r.sql@.len() == script.content@.len() + 89,
        r.sql@.subrange(6, 6 + script.content@.len() as int) == script.content@,
{
    let sql = "BEGIN;".to_string().concat(script.content.as_str()).concat(
        " CREATE schema_migration SET migration=$migration, applied_at=time::now(); COMMIT; ",
    );
    let bindings = vec![
        Binding { name: "migration".to_string(), value: Value::Text(script.id.clone()) },
    ];
    assert(bindings@.map_values(|b: Binding| b@) =~= seq![bindings@[0]@]);
    proof {
        reveal_strlit("BEGIN;");
        reveal_strlit(
            " CREATE schema_migration SET migration=$migration, applied_at=time::now(); COMMIT; ",
        );
        assert(sql@.subrange(6, 6 + script.content@.len() as int) =~= script.content@);
    }
    Statement { sql, bindings }
}

/// How far a run has come.
#[derive(Debug)]
pub enum RunStage {
    /// Asking for the migration that was applied last.
    Reading,
    /// Taking the lock, on a schema that `last_applied` was applied to.
    Acquiring { last_applied: String, attempt: LockAttempt },
    /// Applying `current`, with `rest` still to come.
    Applying { locked: bool, current: Script, rest: Vec<Script> },
    /// Giving the lock back, the run having come to `result`.
    Releasing { result: Result<(), MigrationError> },
    Finished(Result<(), MigrationError>),
}

pub enum RunStageView {
    Reading,
    Acquiring { last_applied: Seq<char>, attempt: LockAttemptView },
    Applying { locked: bool, current: ScriptView, rest: Seq<ScriptView> },
    Releasing { result: Result<(), MigrationErrorView> },
    Finished(Result<(), MigrationErrorView>),
}

/// A run of the pending migrations, in order. On a schema that was migrated before, the lock is held
/// meanwhile; a schema that was never migrated has no lock yet. That the lock could not be given back
/// does not change what the run came to.
pub struct MigrationRun {
    pub migrations: Migrations,
    pub instance_id: String,
    pub stage: RunStage,
}

pub struct MigrationRunView {
    pub files: Seq<EmbeddedFileView>,
    pub instance_id: Seq<char>,
    pub stage: RunStageView,
}

impl View for RunStage {
    type V = RunStageView;

    open spec fn view(&self) -> RunStageView {
        match self {
            RunStage::Reading => RunStageView::Reading,
            RunStage::Acquiring { last_applied, attempt } => RunStageView::Acquiring {
                last_applied: last_applied@,
                attempt: attempt@,
            },
            RunStage::Applying { locked, current, rest } => RunStageView::Applying {
                locked: *locked,
                current: current@,
                rest: rest@.map_values(|s: Script| s@),
            },
            RunStage::Releasing { result } => RunStageView::Releasing {
                result: crate::db::migrations::migration_result(*result),
            },
            RunStage::Finished(result) => RunStageView::Finished(
                crate::db::migrations::migration_result(*result),
            ),
        }
    }
}

impl View for MigrationRun {
    type V = MigrationRunView;

    open spec fn view(&self) -> MigrationRunView {
        MigrationRunView {
            files: self.migrations@,
            instance_id: self.instance_id@,
            stage: self.stage@,
        }
    }
}

/// The end of the applying: a lock that was taken is given back, whatever the result.
pub open spec fn conclude(locked: bool, result: Result<(), MigrationErrorView>) -> RunStageView {
    if locked {
        RunStageView::Releasing { result }
    } else {
        RunStageView::Finished(result)
    }
}

/// The beginning of the applying, with nothing to do if no migration is pending.
pub open spec fn begin(
    files: Seq<EmbeddedFileView>,
    last_applied: Option<Seq<char>>,
    locked: bool,
) -> RunStageView {
    match crate::db::pending::pending(files, last_applied) {
        Err(error) => conclude(locked, Err(error)),
        Ok(scripts) => if scripts.len() == 0 {
            conclude(locked, Ok(()))
        } else {
            RunStageView::Applying { locked, current: scripts[0], rest: scripts.drop_first() }
        },
    }
}

/// The error of a run that did not get the lock in time.
pub open spec fn lock_timed_out() -> MigrationErrorView {
    MigrationErrorView::LockFailed("Timed out waiting for migration lock"@)
}

impl MigrationRunView {
    /// A run that has not begun.
    pub open spec fn start(
        files: Seq<EmbeddedFileView>,
        instance_id: Seq<char>,
    ) -> MigrationRunView {
        MigrationRunView { files, instance_id, stage: RunStageView::Reading }
    }

    /// The outcome, once there is one.
    pub open spec fn outcome(self) -> Option<Result<(), MigrationErrorView>> {
        match self.stage {
            RunStageView::Finished(result) => Some(result),
            _ => None,
        }
    }

    /// The stage once the last applied migration is known.
    pub open spec fn after_reading(
        self,
        last_applied: Result<Option<Seq<char>>, MigrationErrorView>,
    ) -> RunStageView {
        match last_applied {
            Err(error) => RunStageView::Finished(Err(error)),
            Ok(None) => begin(self.files, None, false),
            Ok(Some(id)) => RunStageView::Acquiring {
                last_applied: id,
                attempt: LockAttemptView::start(self.instance_id),
            },
        }
    }

    /// The stage once the attempt to take the lock has come to `attempt`.
    pub open spec fn after_attempt(
        self,
        last_applied: Seq<char>,
        attempt: LockAttemptView,
    ) -> RunStageView {
        match attempt.outcome() {
            None => RunStageView::Acquiring { last_applied, attempt },
            Some(Ok(true)) => begin(self.files, Some(last_applied), true),
            Some(Ok(false)) => RunStageView::Finished(Err(lock_timed_out())),
            Some(Err(error)) => RunStageView::Finished(Err(error)),
        }
    }

    /// The stage once `current` was run.
    pub open spec fn after_script(
        locked: bool,
        current: ScriptView,
        rest: Seq<ScriptView>,
        reply: protocol::QueriedView<()>,
    ) -> RunStageView {
        match reply {
            Ok(Ok(_)) => if rest.len() == 0 {
                conclude(locked, Ok(()))
            } else {
                RunStageView::Applying { locked, current: rest[0], rest: rest.drop_first() }
            },
            Ok(Err(error)) => conclude(
                locked,
                Err(MigrationErrorView::ScriptFailed { id: current.id, source: error }),
            ),
            Err(error) => conclude(
                locked,
                Err(MigrationErrorView::ScriptFailed { id: current.id, source: error }),
            ),
        }
    }
}

impl Machine for MigrationRunView {
    open spec fn request(self) -> Option<RequestView> {
        match self.stage {
            RunStageView::Reading => Some(
                RequestView::FetchApplied(crate::db::migrations::last_applied_statement()),
            ),
            RunStageView::Acquiring { attempt, .. } => attempt.request(),
            RunStageView::Applying { current, .. } => Some(
                RequestView::Execute(apply_statement(current)),
            ),
            RunStageView::Releasing { .. } => Some(
                crate::db::lock::release_lock(self.instance_id),
            ),
            RunStageView::Finished(_) => None,
        }
    }

    open spec fn resume(self, reply: ReplyView) -> MigrationRunView {
        let stage = match (self.stage, reply) {
            (RunStageView::Reading, ReplyView::Applied(r)) => self.after_reading(
                crate::db::migrations::last_applied_result(r),
            ),
            (RunStageView::Acquiring { last_applied, attempt }, _) => self.after_attempt(
                last_applied,
                attempt.resume(reply),
            ),
            (
                RunStageView::Applying { locked, current, rest },
                ReplyView::Executed(r),
            ) => MigrationRunView::after_script(locked, current, rest, r),
            // Whether the lock could be given back or not, what the scripts came to stands.
            (RunStageView::Releasing { result }, ReplyView::Executed(_)) => RunStageView::Finished(
                result,
            ),
            (stage, _) => stage,
        };
        MigrationRunView { stage, ..self }
    }
}

/// The end of the applying.
fn concluded(locked: bool, result: Result<(), MigrationError>) -> (r: RunStage)
    ensures
        r@ == conclude(locked, crate::db::migrations::migration_result(result)),
{
    if locked {
        RunStage::Releasing { result }
    } else {
        RunStage::Finished(result)
    }
}

/// The scripts, one by one.
fn applying(locked: bool, mut scripts: Vec<Script>) -> (r: RunStage)
    ensures
        ({
            let list = scripts@.map_values(|s: Script| s@);
            r@ == if list.len() == 0 {
                conclude(locked, Ok(()))
            } else {
                RunStageView::Applying { locked, current: list[0], rest: list.drop_first() }
            }
        }),
{
    let ghost list = scripts@.map_values(|s: Script| s@);
    if scripts.len() == 0 {
        concluded(locked, Ok(()))
    } else {
        let current = scripts.remove(0);
        assert(scripts@.map_values(|s: Script| s@) =~= list.drop_first());
        RunStage::Applying { locked, current, rest: scripts }
    }
}

/// The beginning of the applying.
fn begun(migrations: &Migrations, last_applied: Option<String>, locked: bool) -> (r: RunStage)
    ensures
        r@ == begin(migrations@, crate::config::optional_text(last_applied), locked),
{
    match migrations.get_pending_migrations(&last_applied) {
        Err(error) => concluded(locked, Err(error)),
        Ok(scripts) => applying(locked, scripts),
    }
}

fn script_failed(locked: bool, script: Script, error: SurrealError) -> (r: RunStage)
    ensures
        r@ == conclude(
            locked,
            Err(MigrationErrorView::ScriptFailed { id: script@.id, source: error@ }),
        ),
{
    concluded(
        locked,
        Err(MigrationError::ScriptFailed { id: script.id, source: Box::new(error) }),
    )
}

impl MigrationRun {
    /// What is to be done next; nothing once the outcome is known.
    pub fn request(&self) -> (r: Option<Request>)
        ensures
            protocol::optional_request(r) == self@.request(),
    {
        match &self.stage {
            RunStage::Reading => Some(Migrations::get_last_applied_migration_request()),
            RunStage::Acquiring { attempt, .. } => attempt.request(),
            RunStage::Applying { current, .. } => Some(
                Request::Execute(statement_to_apply(current)),
            ),
            RunStage::Releasing { .. } => Some(
                Migrations::release_lock_request(self.instance_id.as_str()),
            ),
            RunStage::Finished(_) => None,
        }
    }

    /// Takes the reply to the request. A reply that does not answer it changes nothing.
    pub fn resume(self, reply: Reply) -> (r: MigrationRun)
        ensures
            r@ == self@.resume(reply@),
    {
        let stage = match (self.stage, reply) {
            (RunStage::Reading, Reply::Applied(reply)) => {
                match Migrations::get_last_applied_migration(reply) {
                    Err(error) => RunStage::Finished(Err(error)),
                    Ok(None) => begun(&self.migrations, None, false),
                    Ok(Some(last_applied)) => RunStage::Acquiring {
                        last_applied,
                        attempt: Migrations::acquire_lock(self.instance_id.as_str()),
                    },
                }
            },
            (RunStage::Acquiring { last_applied, attempt }, reply) => {
                let attempt = attempt.resume(reply);
                match attempt.stage {
                    LockStage::Finished(Ok(true)) => begun(
                        &self.migrations,
                        Some(last_applied),
                        true,
                    ),
                    LockStage::Finished(Ok(false)) => RunStage::Finished(
                        Err(
                            MigrationError::LockFailed(
                                "Timed out waiting for migration lock".to_string(),
                            ),
                        ),
                    ),
                    LockStage::Finished(Err(error)) => RunStage::Finished(Err(error)),
                    stage => RunStage::Acquiring {
                        last_applied,
                        attempt: LockAttempt { instance_id: attempt.instance_id, stage },
                    },
                }
            },
            (RunStage::Applying { locked, current, rest }, Reply::Executed(reply)) => {
                match reply {
                    Ok(Ok(_)) => applying(locked, rest),
                    Ok(Err(error)) => script_failed(locked, current, error),
                    Err(error) => script_failed(locked, current, error),
                }
            },
            (RunStage::Releasing { result }, Reply::Executed(_)) => RunStage::Finished(result),
            (stage, _) => stage,
        };
        MigrationRun { migrations: self.migrations, instance_id: self.instance_id, stage }
    }

    /// The outcome, once there is one; else the run itself.
    pub fn outcome(self) -> (r: Result<Result<(), MigrationError>, MigrationRun>)
        ensures
            match r {
                Ok(result) => self@.outcome() == Some(
                    crate::db::migrations::migration_result(result),
                ),
                Err(run) => self@.outcome() is None && run@ == self@,
            },
    {
        match self.stage {
            RunStage::Finished(result) => Ok(result),
            stage => Err(
                MigrationRun { migrations: self.migrations, instance_id: self.instance_id, stage },
            ),
        }
    }
}

} // verus!
