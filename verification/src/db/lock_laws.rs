//! What holds of every attempt to take the lock, whatever the database and the clock answer.

use crate::db::lock;
use crate::db::lock::{LockAttemptView, LockStageView};
use crate::db::migrations;
use crate::db::protocol;
use crate::db::protocol::{Machine, ReplyView, RequestView};
use crate::db::run_laws;
use vstd::prelude::*;

verus! {

/// The request that an attempt makes with number `i`, as long as it goes on: the lock is created,
/// the clock is started, and then the lock is tried, the clock is read and a pause is made, again and
/// again.
pub open spec fn scheduled(id: Seq<char>, i: int) -> RequestView {
    if i == 0 {
        RequestView::Upsert(migrations::lock_record())
    } else if i == 1 {
        RequestView::StartClock
    } else if i % 3 == 2 {
        lock::take_lock(id)
    } else if i % 3 == 0 {
        RequestView::ReadClock
    } else {
        RequestView::Sleep { seconds: lock::LOCK_RETRY_DELAY_SECS }
    }
}

/// The error of the database that the reply reports, if it reports one.
pub open spec fn reported(reply: ReplyView) -> Option<Seq<char>> {
    match reply {
        ReplyView::Done(Err(error)) => Some(error),
        ReplyView::Lock(Ok(Err(error))) => Some(error),
        ReplyView::Lock(Err(error)) => Some(error),
        _ => None,
    }
}

/// Whether the reply says that the time has run out.
pub open spec fn is_timeout(reply: ReplyView) -> bool {
    reply matches ReplyView::Elapsed { nanos } && nanos > lock::LOCK_MAX_WAIT_NANOS
}

/// What an attempt came to with its last reply.
pub open spec fn concluded_by(reply: ReplyView) -> Option<
    Result<bool, migrations::MigrationErrorView>,
> {
    match reported(reply) {
        Some(error) => Some(Err(migrations::MigrationErrorView::DBError { source: error })),
        None => if run_laws::is_grant(reply) {
            Some(Ok(true))
        } else if is_timeout(reply) {
            Some(Ok(false))
        } else {
            None
        },
    }
}

/// An attempt keeps to its schedule.
pub proof fn attempt_keeps_to_its_schedule(id: Seq<char>, replies: Seq<ReplyView>, i: int)
    requires
        protocol::is_conversation(LockAttemptView::start(id), replies),
        0 <= i < replies.len(),
    ensures
        protocol::asked(LockAttemptView::start(id), replies)[i] == scheduled(id, i),
{
    protocol::conversation_beginning(LockAttemptView::start(id), replies, i);
    stage_of_attempt(id, replies.take(i));
}

/// An attempt ends with the first reply that says that the lock was taken, that the time has run out
/// or that the database failed, and with no other.
pub proof fn attempt_ends_when_decided(id: Seq<char>, replies: Seq<ReplyView>)
    requires
        protocol::is_conversation(LockAttemptView::start(id), replies),
        replies.len() > 0,
    ensures
        protocol::after(LockAttemptView::start(id), replies).outcome() == concluded_by(
            replies.last(),
        ),
        forall|i: int| 0 <= i < replies.len() - 1 ==> concluded_by(#[trigger] replies[i]) is None,
{
    let start = LockAttemptView::start(id);
    protocol::conversation_prefix(start, replies);
    stage_of_attempt(id, replies.drop_last());
    assert forall|i: int| 0 <= i < replies.len() - 1 implies concluded_by(
        #[trigger] replies[i],
    ) is None by {
        protocol::conversation_beginning(start, replies, i);
        stage_of_attempt(id, replies.take(i));
        protocol::after_one_more(start, replies, i);
        protocol::conversation_beginning(start, replies, i + 1);
    }
}

/// With a clock that counts at least the pauses, an attempt makes at most 62 tries.
pub proof fn attempt_ends_in_time(id: Seq<char>, replies: Seq<ReplyView>)
    requires
        protocol::is_conversation(LockAttemptView::start(id), replies),
        forall|i: int|
            3 <= i < replies.len() && i % 3 == 0 ==> (#[trigger] replies[i])->nanos >= (i - 3) / 3
                * 1_000_000_000,
    ensures
        replies.len() <= 3 * 62 + 1,
{
    if replies.len() > 3 * 62 + 1 {
        let start = LockAttemptView::start(id);
        let i: int = 186;
        attempt_keeps_to_its_schedule(id, replies, i);
        protocol::conversation_beginning(start, replies, i);
        assert(is_timeout(replies[i]));
        let longer = replies.take(i + 1);
        protocol::conversation_beginning(start, replies, i + 1);
        attempt_ends_when_decided(id, longer);
        assert(longer.last() == replies[i]);
    }
}

/// A reply that does not answer what is asked changes nothing.
pub proof fn attempt_ignores_what_it_did_not_ask_for(now: LockAttemptView, reply: ReplyView)
    requires
        now.request() matches Some(request) ==> !protocol::answers(request, reply),
    ensures
        now.resume(reply) == now,
{
}

/// The stage of an attempt, by the number of replies it was told.
proof fn stage_of_attempt(id: Seq<char>, replies: Seq<ReplyView>)
    requires
        protocol::is_conversation(LockAttemptView::start(id), replies),
    ensures
        ({
            let now = protocol::after(LockAttemptView::start(id), replies);
            let n = replies.len() as int;
            &&& now.instance_id == id
            &&& match now.stage {
                LockStageView::Creating => n == 0,
                LockStageView::StartingClock => n == 1,
                LockStageView::Trying => n >= 2 && n % 3 == 2,
                LockStageView::Timing => n >= 3 && n % 3 == 0,
                LockStageView::Sleeping => n >= 4 && n % 3 == 1,
                LockStageView::Finished(_) => n >= 1,
            }
        }),
    decreases replies.len(),
{
    if replies.len() > 0 {
        protocol::conversation_prefix(LockAttemptView::start(id), replies);
        stage_of_attempt(id, replies.drop_last());
    }
}

} // verus!
