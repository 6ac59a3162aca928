//! The lock that keeps two instances from migrating the schema at once.

use crate::db::migrations::{MigrationError, MigrationErrorView};
use crate::db::protocol;
use crate::db::protocol::{
    Binding, BindingView, Machine, Reply, ReplyView, Request, RequestView, Statement,
    StatementView, Value, ValueView,
};
use crate::db::SurrealError;
use vstd::prelude::*;

verus! {

/// How many seconds to wait before the lock is tried again.
pub const LOCK_RETRY_DELAY_SECS: u64 = 1;

/// How long to wait for the lock, in nanoseconds: one minute.
pub const LOCK_MAX_WAIT_NANOS: u128 = 60_000_000_000;

/// The statement that takes the lock if it is free, and records when and by whom it was taken.
pub const TAKE_LOCK: &'static str =
    "UPDATE $lock_id SET locked=true, locked_at=time::now(), instance_id=$instance_id WHERE locked = false;";

/// The statement that gives the lock back if the instance holds it.
pub const RELEASE_LOCK: &'static str =
    "\n            UPDATE $lock_id SET locked = false WHERE locked = true AND instance_id = $instance_id;\n        ";

/// A statement about the lock and an instance.
pub open spec fn lock_statement(sql: Seq<char>, instance_id: Seq<char>) -> StatementView {
    StatementView {
        sql,
        bindings: seq![
            BindingView {
                name: "lock_id"@,
                value: ValueView::Record(crate::db::migrations::lock_record()),
            },
            BindingView { name: "instance_id"@, value: ValueView::Text(instance_id) },
        ],
    }
}

/// The request to take the lock if it is free.
pub open spec fn take_lock(instance_id: Seq<char>) -> RequestView {
    RequestView::UpdateLock(lock_statement(TAKE_LOCK@, instance_id))
}

/// The request to give the lock back if the instance holds it.
pub open spec fn release_lock(instance_id: Seq<char>) -> RequestView {
    RequestView::Execute(lock_statement(RELEASE_LOCK@, instance_id))
}

/// A statement about the lock and an instance.
pub fn statement_on_lock(sql: &str, instance_id: &str) -> (r: Statement)
    ensures
        r@ == lock_statement(sql@, instance_id@),
{
    let bindings = vec![
        Binding {
            name: "lock_id".to_string(),
            value: Value::Record(crate::db::migrations::lock_id()),
        },
        Binding { name: "instance_id".to_string(), value: Value::Text(instance_id.to_string()) },
    ];
    assert(bindings@.map_values(|b: Binding| b@) =~= seq![bindings@[0]@, bindings@[1]@]);
    Statement { sql: sql.to_string(), bindings }
}

/// How far an attempt to take the lock has come.
#[derive(Debug)]
pub enum LockStage {
    Creating,
    StartingClock,
    Trying,
    Timing,
    Sleeping,
    Finished(Result<bool, MigrationError>),
}

pub enum LockStageView {
    Creating,
    StartingClock,
    Trying,
    Timing,
    Sleeping,
    Finished(Result<bool, MigrationErrorView>),
}

/// An attempt to take the lock. It comes to true if the lock was taken, and to false if the time ran
/// out.
#[derive(Debug)]
pub struct LockAttempt {
    pub instance_id: String,
    pub stage: LockStage,
}

pub struct LockAttemptView {
    pub instance_id: Seq<char>,
    pub stage: LockStageView,
}

impl View for LockStage {
    type V = LockStageView;

    open spec fn view(&self) -> LockStageView {
        match self {
            LockStage::Creating => LockStageView::Creating,
            LockStage::StartingClock => LockStageView::StartingClock,
            LockStage::Trying => LockStageView::Trying,
            LockStage::Timing => LockStageView::Timing,
            LockStage::Sleeping => LockStageView::Sleeping,
            LockStage::Finished(r) => LockStageView::Finished(
                crate::db::migrations::migration_result(*r),
            ),
        }
    }
}

impl View for LockAttempt {
    type V = LockAttemptView;

    open spec fn view(&self) -> LockAttemptView {
        LockAttemptView { instance_id: self.instance_id@, stage: self.stage@ }
    }
}

/// The outcome of an attempt during which the database failed.
pub open spec fn failed(error: Seq<char>) -> LockStageView {
    LockStageView::Finished(Err(MigrationErrorView::DBError { source: error }))
}

impl LockAttemptView {
    /// An attempt that has not begun.
    pub open spec fn start(instance_id: Seq<char>) -> LockAttemptView {
        LockAttemptView { instance_id, stage: LockStageView::Creating }
    }

    /// The outcome, once there is one.
    pub open spec fn outcome(self) -> Option<Result<bool, MigrationErrorView>> {
        match self.stage {
            LockStageView::Finished(r) => Some(r),
            _ => None,
        }
    }

    /// The stage behind the current one. The lock is tried until it is taken or the time has run
    /// out, with a pause before each new try.
    pub open spec fn next(self, reply: ReplyView) -> LockStageView {
        match (self.stage, reply) {
            (LockStageView::Creating, ReplyView::Done(Ok(_))) => LockStageView::StartingClock,
            (LockStageView::Creating, ReplyView::Done(Err(error))) => failed(error),
            (LockStageView::StartingClock, ReplyView::ClockStarted) => LockStageView::Trying,
            (LockStageView::Trying, ReplyView::Lock(Ok(Ok(Some(_))))) => LockStageView::Finished(
                Ok(true),
            ),
            (LockStageView::Trying, ReplyView::Lock(Ok(Ok(None)))) => LockStageView::Timing,
            (LockStageView::Trying, ReplyView::Lock(Ok(Err(error)))) => failed(error),
            (LockStageView::Trying, ReplyView::Lock(Err(error))) => failed(error),
            (LockStageView::Timing, ReplyView::Elapsed { nanos }) => if nanos
                > LOCK_MAX_WAIT_NANOS {
                LockStageView::Finished(Ok(false))
            } else {
                LockStageView::Sleeping
            },
            (LockStageView::Sleeping, ReplyView::Slept) => LockStageView::Trying,
            (stage, _) => stage,
        }
    }
}

impl Machine for LockAttemptView {
    open spec fn request(self) -> Option<RequestView> {
        match self.stage {
            LockStageView::Creating => Some(
                RequestView::Upsert(crate::db::migrations::lock_record()),
            ),
            LockStageView::StartingClock => Some(RequestView::StartClock),
            LockStageView::Trying => Some(take_lock(self.instance_id)),
            LockStageView::Timing => Some(RequestView::ReadClock),
            LockStageView::Sleeping => Some(
                RequestView::Sleep { seconds: LOCK_RETRY_DELAY_SECS },
            ),
            LockStageView::Finished(_) => None,
        }
    }

    open spec fn resume(self, reply: ReplyView) -> LockAttemptView {
        LockAttemptView { stage: self.next(reply), ..self }
    }
}

fn database_failed(error: SurrealError) -> (r: LockStage)
    ensures
        r@ == failed(error@),
{
    LockStage::Finished(Err(MigrationError::DBError { source: Box::new(error) }))
}

impl LockAttempt {
    /// An attempt to take the lock for the instance.
    pub fn new(instance_id: &str) -> (r: LockAttempt)
        ensures
            r@ == LockAttemptView::start(instance_id@),
    {
        LockAttempt { instance_id: instance_id.to_string(), stage: LockStage::Creating }
    }

    /// What is to be done next; nothing once the outcome is known.
    pub fn request(&self) -> (r: Option<Request>)
        ensures
            protocol::optional_request(r) == self@.request(),
    {
        match &self.stage {
            LockStage::Creating => Some(Request::Upsert(crate::db::migrations::lock_id())),
            LockStage::StartingClock => Some(Request::StartClock),
            LockStage::Trying => Some(
                Request::UpdateLock(statement_on_lock(TAKE_LOCK, self.instance_id.as_str())),
            ),
            LockStage::Timing => Some(Request::ReadClock),
            LockStage::Sleeping => Some(Request::Sleep { seconds: LOCK_RETRY_DELAY_SECS }),
            LockStage::Finished(_) => None,
        }
    }

    /// Takes the reply to the request. A reply that does not answer it changes nothing.
    pub fn resume(self, reply: Reply) -> (r: LockAttempt)
        ensures
            r@ == self@.resume(reply@),
    {
        let stage = match (self.stage, reply) {
            (LockStage::Creating, Reply::Done(Ok(_))) => LockStage::StartingClock,
            (LockStage::Creating, Reply::Done(Err(error))) => database_failed(error),
            (LockStage::StartingClock, Reply::ClockStarted) => LockStage::Trying,
            (LockStage::Trying, Reply::Lock(Ok(Ok(Some(_))))) => LockStage::Finished(Ok(true)),
            (LockStage::Trying, Reply::Lock(Ok(Ok(None)))) => LockStage::Timing,
            (LockStage::Trying, Reply::Lock(Ok(Err(error)))) => database_failed(error),
            (LockStage::Trying, Reply::Lock(Err(error))) => database_failed(error),
            (LockStage::Timing, Reply::Elapsed { nanos }) => {
                if nanos > LOCK_MAX_WAIT_NANOS {
                    LockStage::Finished(Ok(false))
                } else {
                    LockStage::Sleeping
                }
            },
            (LockStage::Sleeping, Reply::Slept) => LockStage::Trying,
            (stage, _) => stage,
        };
        LockAttempt { instance_id: self.instance_id, stage }
    }
}

} // verus!
