//! What the lock is found to be once it was taken, given back or freed.
//!
//! These laws are about a database that does what the statements about the lock say. Its lock table
//! holds at most the one record that locks the schema.

use crate::db::embedded::EmbeddedFileView;
use crate::db::exclusion_laws;
use crate::db::exclusion_laws::Instance;
use crate::db::lock;
use crate::db::lock::LockAttemptView;
use crate::db::lock_laws;
use crate::db::migrations;
use crate::db::migrations::{MigrationErrorView, SchemaLockView};
use crate::db::protocol;
use crate::db::protocol::{Machine, QueriedView, ReplyView, RequestView};
use crate::db::run;
use crate::db::run::{MigrationRunView, RunStageView};
use crate::db::run_laws;
use crate::db::DBErrorView;
use time::OffsetDateTime;
use vstd::prelude::*;

verus! {

/// The records in the lock table.
pub open spec fn rows(table: Option<SchemaLockView>) -> Seq<SchemaLockView> {
    match table {
        None => seq![],
        Some(lock) => seq![lock],
    }
}

/// The lock, taken by the instance `id` at the moment `at`.
pub open spec fn taken(lock: SchemaLockView, id: Seq<char>, at: OffsetDateTime) -> SchemaLockView {
    SchemaLockView { locked: true, locked_at: Some(at), instance_id: Some(id), ..lock }
}

/// Whether the instance `id` took the lock between `before` and `after`: it was free, and it is the
/// instance's now, which is on record with the moment.
pub open spec fn is_taken(
    id: Seq<char>,
    before: Option<SchemaLockView>,
    after: Option<SchemaLockView>,
) -> bool {
    &&& before matches Some(lock)
    &&& !lock.locked
    &&& after matches Some(new)
    &&& new.locked_at matches Some(at)
    &&& new == taken(lock, id, at)
}

/// The lock table once the instance `id` gave the lock back, if it held it.
pub open spec fn released(table: Option<SchemaLockView>, id: Seq<char>) -> Option<SchemaLockView> {
    match table {
        Some(lock) if lock.locked && lock.instance_id == Some(id) => Some(
            SchemaLockView { locked: false, ..lock },
        ),
        _ => table,
    }
}

/// The lock table once the lock was freed, whoever held it.
pub open spec fn freed(table: Option<SchemaLockView>) -> Option<SchemaLockView> {
    match table {
        Some(lock) => Some(SchemaLockView { locked: false, ..lock }),
        None => None,
    }
}

/// The lock table once the lock exists.
pub open spec fn created(table: Option<SchemaLockView>) -> Option<SchemaLockView> {
    match table {
        Some(lock) => Some(lock),
        None => Some(migrations::fresh_lock()),
    }
}

/// Whether `found` is what a database answers that is asked for the lock, and does not fail.
pub open spec fn reads(
    table: Option<SchemaLockView>,
    found: QueriedView<Seq<SchemaLockView>>,
) -> bool {
    found == Ok::<Result<Seq<SchemaLockView>, Seq<char>>, Seq<char>>(Ok(rows(table)))
}

/// Whether a database performs the request of the instance `id`, giving `reply` and turning the lock
/// table from `before` into `after`. A statement that is reported to have failed may or may not have
/// had its effect.
pub open spec fn performs(
    id: Seq<char>,
    request: RequestView,
    before: Option<SchemaLockView>,
    reply: ReplyView,
    after: Option<SchemaLockView>,
) -> bool {
    if request == lock::take_lock(id) {
        match reply {
            ReplyView::Lock(Ok(Ok(Some(new)))) => is_taken(id, before, after) && after == Some(new),
            ReplyView::Lock(Ok(Ok(None))) => {
                &&& before matches Some(lock) ==> lock.locked
                &&& after == before
            },
            _ => after == before || is_taken(id, before, after),
        }
    } else if request == lock::release_lock(id) {
        match reply {
            ReplyView::Executed(Ok(Ok(_))) => after == released(before, id),
            _ => after == before || after == released(before, id),
        }
    } else if request == RequestView::Execute(crate::db::force_unlock_statement()) {
        match reply {
            ReplyView::Executed(Ok(Ok(_))) => after == freed(before),
            _ => after == before || after == freed(before),
        }
    } else if request == RequestView::FetchLocks(crate::db::read_lock_statement()) {
        &&& after == before
        &&& reply matches ReplyView::Locks(Ok(Ok(list))) ==> reads(before, Ok(Ok(list)))
    } else if request == RequestView::Upsert(migrations::lock_record()) {
        match reply {
            ReplyView::Done(Ok(_)) => after == created(before),
            _ => after == before || after == created(before),
        }
    } else {
        after == before
    }
}

/// Whether a database performs all that a machine asks for on behalf of the instance `id`, with
/// nobody else writing to the lock table. `tables` is what the table holds before each reply, and at
/// the end.
pub open spec fn performs_all<M: Machine>(
    id: Seq<char>,
    machine: M,
    replies: Seq<ReplyView>,
    tables: Seq<Option<SchemaLockView>>,
) -> bool {
    &&& protocol::is_conversation(machine, replies)
    &&& tables.len() == replies.len() + 1
    &&& forall|i: int|
        0 <= i < replies.len() ==> performs(
            id,
            protocol::asked(machine, replies)[i],
            tables[i],
            #[trigger] replies[i],
            tables[i + 1],
        )
}

/// Whether the instance `id` holds the lock.
pub open spec fn is_held(table: Option<SchemaLockView>, id: Seq<char>) -> bool {
    table matches Some(lock) && lock.locked && lock.instance_id == Some(id)
}

/// The lock is found held once an attempt to take it succeeded. It is on record as taken by the
/// instance, with the moment.
pub proof fn taken_lock_is_found_held(
    id: Seq<char>,
    replies: Seq<ReplyView>,
    tables: Seq<Option<SchemaLockView>>,
    found: QueriedView<Seq<SchemaLockView>>,
)
    requires
        performs_all(id, LockAttemptView::start(id), replies, tables),
        protocol::after(LockAttemptView::start(id), replies).outcome() == Some(
            Ok::<bool, MigrationErrorView>(true),
        ),
        reads(tables.last(), found),
    ensures
        crate::db::is_locked_result(found) == Ok::<bool, DBErrorView>(true),
        is_held(tables.last(), id),
        tables.last()->0.locked_at is Some,
{
    attempt_takes_the_lock(id, replies, tables);
}

/// An attempt on a lock that is locked, by whomever, the same instance included, leaves it as it is at
/// every step. Unless the database fails, such an attempt comes to nothing but a timeout.
pub proof fn locked_lock_is_not_taken(
    id: Seq<char>,
    replies: Seq<ReplyView>,
    tables: Seq<Option<SchemaLockView>>,
)
    requires
        performs_all(id, LockAttemptView::start(id), replies, tables),
        tables[0] matches Some(lock) && lock.locked,
    ensures
        forall|i: int| 0 <= i < tables.len() ==> #[trigger] tables[i] == tables[0],
        (forall|i: int|
            0 <= i < replies.len() ==> lock_laws::reported(#[trigger] replies[i]) is None) ==> (
        protocol::after(LockAttemptView::start(id), replies).outcome() matches Some(r) ==> r == Ok::<
            bool,
            MigrationErrorView,
        >(false)),
    decreases replies.len(),
{
    let start = LockAttemptView::start(id);
    if replies.len() > 0 {
        let front = replies.drop_last();
        performs_all_but_the_last(id, start, replies, tables);
        locked_lock_is_not_taken(id, front, tables.drop_last());
        the_last_is_performed(id, start, replies, tables);
        lock_laws::attempt_keeps_to_its_schedule(id, replies, replies.len() - 1);
        lock_laws::attempt_ends_when_decided(id, replies);
        protocol::conversation_prefix(start, replies);
        assert(tables.drop_last().last() == tables[0]);
        assert(tables.last() == tables[0]);
        assert forall|i: int| 0 <= i < tables.len() implies #[trigger] tables[i] == tables[0] by {
            if i < tables.len() - 1 {
                assert(tables.drop_last()[i] == tables.drop_last()[0]);
            }
        }
        assert(!run_laws::is_grant(replies.last()));
        assert(replies.last() == replies[replies.len() - 1]);
    }
}

/// The lock is found free once the instance that took it gave it back.
pub proof fn released_lock_is_found_free(
    id: Seq<char>,
    replies: Seq<ReplyView>,
    tables: Seq<Option<SchemaLockView>>,
    after: Option<SchemaLockView>,
    found: QueriedView<Seq<SchemaLockView>>,
)
    requires
        performs_all(id, LockAttemptView::start(id), replies, tables),
        protocol::after(LockAttemptView::start(id), replies).outcome() == Some(
            Ok::<bool, MigrationErrorView>(true),
        ),
        performs(
            id,
            lock::release_lock(id),
            tables.last(),
            ReplyView::Executed(Ok(Ok(()))),
            after,
        ),
        reads(after, found),
    ensures
        crate::db::is_locked_result(found) == Ok::<bool, DBErrorView>(false),
{
    attempt_takes_the_lock(id, replies, tables);
}

/// A lock is not given back by an instance that does not hold it: it is found as it was.
pub proof fn lock_of_another_is_not_released(
    id: Seq<char>,
    before: Option<SchemaLockView>,
    reply: ReplyView,
    after: Option<SchemaLockView>,
)
    requires
        !is_held(before, id),
        performs(id, lock::release_lock(id), before, reply, after),
    ensures
        after == before,
{
}

/// The lock is found free once it was freed by force, whoever held it and whether it existed or not.
pub proof fn forced_lock_is_found_free(
    id: Seq<char>,
    before: Option<SchemaLockView>,
    after: Option<SchemaLockView>,
    found: QueriedView<Seq<SchemaLockView>>,
)
    requires
        performs(
            id,
            RequestView::Execute(crate::db::force_unlock_statement()),
            before,
            ReplyView::Executed(Ok(Ok(()))),
            after,
        ),
        reads(after, found),
    ensures
        crate::db::is_locked_result(found) == Ok::<bool, DBErrorView>(false),
{
    force_is_not_about_an_instance(id);
}

/// The lock is found free once a run that took it has ended, if the database did not fail to take it
/// back.
pub proof fn lock_is_found_free_after_a_run(
    files: Seq<EmbeddedFileView>,
    id: Seq<char>,
    replies: Seq<ReplyView>,
    tables: Seq<Option<SchemaLockView>>,
    found: QueriedView<Seq<SchemaLockView>>,
)
    requires
        performs_all(id, MigrationRunView::start(files, id), replies, tables),
        protocol::after(MigrationRunView::start(files, id), replies).outcome() is Some,
        run_laws::lock_taken(replies),
        replies.last() == ReplyView::Executed(Ok(Ok(()))),
        reads(tables.last(), found),
    ensures
        crate::db::is_locked_result(found) == Ok::<bool, DBErrorView>(false),
{
    let start = MigrationRunView::start(files, id);
    run_laws::taken_lock_is_released(files, id, replies);
    the_last_is_performed(id, start, replies, tables);
    performs_all_but_the_last(id, start, replies, tables);
    lock_is_held_while_applying(files, id, replies.drop_last(), tables.drop_last());
    releases_while_releasing(files, id, replies);
}

/// Who holds the lock.
pub open spec fn holder(table: Option<SchemaLockView>) -> Option<Seq<char>> {
    match table {
        Some(lock) if lock.locked => lock.instance_id,
        _ => None,
    }
}

/// On a database that does what the statements say, the lock behaves as it must for two instances not
/// to migrate at once, as long as it is not freed by force.
pub proof fn performed_lock_behaves(
    id: Seq<char>,
    request: RequestView,
    before: Option<SchemaLockView>,
    reply: ReplyView,
    after: Option<SchemaLockView>,
)
    requires
        performs(id, request, before, reply, after),
        request != RequestView::Execute(crate::db::force_unlock_statement()),
    ensures
        exclusion_laws::lock_behaves(id, request, reply, holder(before), holder(after)),
{
}

pub(crate) proof fn force_is_not_about_an_instance(id: Seq<char>)
    ensures
        RequestView::Execute(crate::db::force_unlock_statement()) != lock::release_lock(id),
{
    assert(crate::db::force_unlock_statement().bindings.len() == 0);
    assert(lock::lock_statement(lock::RELEASE_LOCK@, id).bindings.len() == 2);
}

proof fn attempt_takes_the_lock(
    id: Seq<char>,
    replies: Seq<ReplyView>,
    tables: Seq<Option<SchemaLockView>>,
)
    requires
        performs_all(id, LockAttemptView::start(id), replies, tables),
        protocol::after(LockAttemptView::start(id), replies).outcome() == Some(
            Ok::<bool, MigrationErrorView>(true),
        ),
    ensures
        is_held(tables.last(), id),
        tables.last()->0.locked_at is Some,
{
    let start = LockAttemptView::start(id);
    let n = replies.len() - 1;
    lock_laws::attempt_ends_when_decided(id, replies);
    lock_laws::attempt_keeps_to_its_schedule(id, replies, n);
    protocol::conversation_prefix(start, replies);
    the_last_is_performed(id, start, replies, tables);
}

proof fn performs_all_but_the_last<M: Machine>(
    id: Seq<char>,
    machine: M,
    replies: Seq<ReplyView>,
    tables: Seq<Option<SchemaLockView>>,
)
    requires
        performs_all(id, machine, replies, tables),
        replies.len() > 0,
    ensures
        performs_all(id, machine, replies.drop_last(), tables.drop_last()),
{
    let front = replies.drop_last();
    protocol::conversation_prefix(machine, replies);
    assert forall|i: int| 0 <= i < front.len() implies performs(
        id,
        protocol::asked(machine, front)[i],
        tables.drop_last()[i],
        #[trigger] front[i],
        tables.drop_last()[i + 1],
    ) by {
        assert(performs(
            id,
            protocol::asked(machine, replies)[i],
            tables[i],
            replies[i],
            tables[i + 1],
        ));
    }
}

pub(crate) proof fn the_last_is_performed<M: Machine>(
    id: Seq<char>,
    machine: M,
    replies: Seq<ReplyView>,
    tables: Seq<Option<SchemaLockView>>,
)
    requires
        performs_all(id, machine, replies, tables),
        replies.len() > 0,
    ensures
        performs(
            id,
            protocol::asked(machine, replies).last(),
            tables.drop_last().last(),
            replies.last(),
            tables.last(),
        ),
{
    let n = replies.len() - 1;
    assert(performs(
        id,
        protocol::asked(machine, replies)[n],
        tables[n],
        replies[n],
        tables[n + 1],
    ));
}

proof fn releases_while_releasing(
    files: Seq<EmbeddedFileView>,
    id: Seq<char>,
    replies: Seq<ReplyView>,
)
    requires
        protocol::is_conversation(MigrationRunView::start(files, id), replies),
        replies.len() > 0,
        protocol::asked(MigrationRunView::start(files, id), replies).last() == lock::release_lock(
            id,
        ),
    ensures
        protocol::after(
            MigrationRunView::start(files, id),
            replies.drop_last(),
        ).stage is Releasing,
{
    let start = MigrationRunView::start(files, id);
    protocol::conversation_prefix(start, replies);
    if let RunStageView::Applying { current, .. } = protocol::after(
        start,
        replies.drop_last(),
    ).stage {
        assert(run::apply_statement(current).bindings.len() == 1);
        assert(lock::lock_statement(lock::RELEASE_LOCK@, id).bindings.len() == 2);
    }
}

/// Whether a run has taken the lock and not given it back, by its own account.
spec fn has_lock(run: MigrationRunView) -> bool {
    match run.stage {
        RunStageView::Applying { locked, .. } => locked,
        RunStageView::Releasing { .. } => true,
        _ => false,
    }
}

proof fn step_keeps_the_lock(
    run: MigrationRunView,
    reply: ReplyView,
    before: Option<SchemaLockView>,
    after: Option<SchemaLockView>,
)
    requires
        run.request() is Some,
        protocol::answers(run.request()->0, reply),
        performs(run.instance_id, run.request()->0, before, reply, after),
        run.stage matches RunStageView::Acquiring { attempt, .. } ==> attempt.instance_id
            == run.instance_id,
        has_lock(run) ==> is_held(before, run.instance_id),
    ensures
        has_lock(run.resume(reply)) ==> is_held(after, run.instance_id),
{
    if let RunStageView::Applying { current, .. } = run.stage {
        assert(run::apply_statement(current).bindings.len() == 1);
        assert(lock::lock_statement(lock::RELEASE_LOCK@, run.instance_id).bindings.len() == 2);
        assert(crate::db::force_unlock_statement().bindings.len() == 0);
    }
}

proof fn lock_is_held_while_applying(
    files: Seq<EmbeddedFileView>,
    id: Seq<char>,
    replies: Seq<ReplyView>,
    tables: Seq<Option<SchemaLockView>>,
)
    requires
        performs_all(id, MigrationRunView::start(files, id), replies, tables),
    ensures
        has_lock(protocol::after(MigrationRunView::start(files, id), replies)) ==> is_held(
            tables.last(),
            id,
        ),
    decreases replies.len(),
{
    let start = MigrationRunView::start(files, id);
    if replies.len() > 0 {
        let front = replies.drop_last();
        let now = protocol::after(start, front);
        performs_all_but_the_last(id, start, replies, tables);
        lock_is_held_while_applying(files, id, front, tables.drop_last());
        exclusion_laws::run_keeps_its_id(Instance { files, id }, front);
        the_last_is_performed(id, start, replies, tables);
        protocol::conversation_prefix(start, replies);
        step_keeps_the_lock(now, replies.last(), tables.drop_last().last(), tables.last());
        assert(protocol::after(start, replies) == now.resume(replies.last()));
    }
}

} // verus!
