//! What holds of every maintenance of the schema, whatever the database answers.

use crate::config::DatabaseConfigView;
use crate::db::connect::ConnectingStageView;
use crate::db::connect_laws;
use crate::db::embedded::EmbeddedFileView;
use crate::db::lock;
use crate::db::lock_status_laws;
use crate::db::migrations::SchemaLockView;
use crate::db::protocol;
use crate::db::protocol::{Machine, QueriedView, ReplyView, RequestView};
use crate::db::run::{MigrationRunView, RunStageView};
use crate::db::run_laws;
use crate::db::DBErrorView;
use crate::maintenance::{MaintenanceErrorView, MigratingView, UnlockingView};
use vstd::prelude::*;

verus! {

/// The steps of freeing the lock.
pub open spec fn unlock_steps(database: DatabaseConfigView) -> Seq<RequestView> {
    connect_laws::steps(database, true) + seq![
        RequestView::FetchLocks(crate::db::read_lock_statement()),
        RequestView::Execute(crate::db::force_unlock_statement()),
    ]
}

/// What the freeing of the lock comes to with the reply to the step with number `i`, if it ends with
/// it.
pub open spec fn unlock_verdict(
    database: DatabaseConfigView,
    force: bool,
    i: int,
    reply: ReplyView,
) -> Option<Result<(), MaintenanceErrorView>> {
    match reply {
        ReplyView::Done(Err(error)) => Some(
            Err(MaintenanceErrorView::Database(connect_laws::step_failed(database, i, error))),
        ),
        ReplyView::Locks(r) => match crate::db::is_locked_result(r) {
            Err(error) => Some(Err(MaintenanceErrorView::Database(error))),
            Ok(false) => Some(Ok(())),
            Ok(true) => if force {
                None
            } else {
                Some(Err(MaintenanceErrorView::Locked))
            },
        },
        ReplyView::Executed(r) => match crate::db::force_unlock_result(r) {
            Err(error) => Some(Err(MaintenanceErrorView::Database(error))),
            Ok(_) => Some(Ok(())),
        },
        _ => None,
    }
}

/// The lock is freed step by step, each step once and in order, up to the first reply that decides.
pub proof fn lock_is_freed_step_by_step(
    database: DatabaseConfigView,
    force: bool,
    replies: Seq<ReplyView>,
)
    requires
        protocol::is_conversation(UnlockingView::start(database, force), replies),
    ensures
        replies.len() <= unlock_steps(database).len(),
        protocol::asked(UnlockingView::start(database, force), replies) == unlock_steps(
            database,
        ).take(replies.len() as int),
        forall|i: int|
            0 <= i < replies.len() - 1 ==> unlock_verdict(
                database,
                force,
                i,
                #[trigger] replies[i],
            ) is None,
        protocol::after(UnlockingView::start(database, force), replies).outcome() == (
        if replies.len() == 0 {
            None
        } else {
            unlock_verdict(database, force, replies.len() - 1, replies.last())
        }),
{
    stage_of_unlocking(database, force, replies);
}

/// Only a lock that was found held is freed, and only by force.
pub proof fn only_a_held_lock_is_freed_by_force(
    database: DatabaseConfigView,
    force: bool,
    replies: Seq<ReplyView>,
    i: int,
)
    requires
        protocol::is_conversation(UnlockingView::start(database, force), replies),
        0 <= i < replies.len(),
        protocol::asked(UnlockingView::start(database, force), replies)[i] is Execute,
    ensures
        i == 4,
        force,
        replies[3] is Locks,
        crate::db::is_locked_result(replies[3]->Locks_0) == Ok::<bool, DBErrorView>(true),
{
    let start = UnlockingView::start(database, force);
    let all = unlock_steps(database);
    lock_is_freed_step_by_step(database, force, replies);
    assert(protocol::asked(start, replies)[i] == all[i]);
    assert(all[0] is Connect && all[1] is SignIn && all[2] is Select && all[3] is FetchLocks);
    assert(protocol::asked(start, replies)[3] == all[3]);
    protocol::conversation_beginning(start, replies, 3);
    assert(unlock_verdict(database, force, 3, replies[3]) is None);
}

/// The lock is found free once unlocking has succeeded, with force or without, on a database that
/// does what the statements about the lock say.
pub proof fn unlocked_lock_is_found_free(
    id: Seq<char>,
    database: DatabaseConfigView,
    force: bool,
    replies: Seq<ReplyView>,
    tables: Seq<Option<SchemaLockView>>,
    found: QueriedView<Seq<SchemaLockView>>,
)
    requires
        lock_status_laws::performs_all(id, UnlockingView::start(database, force), replies, tables),
        protocol::after(UnlockingView::start(database, force), replies).outcome() == Some(
            Ok::<(), MaintenanceErrorView>(()),
        ),
        lock_status_laws::reads(tables.last(), found),
    ensures
        crate::db::is_locked_result(found) == Ok::<bool, DBErrorView>(false),
{
    let start = UnlockingView::start(database, force);
    lock_is_freed_step_by_step(database, force, replies);
    protocol::conversation_prefix(start, replies);
    lock_status_laws::the_last_is_performed(id, start, replies, tables);
    lock_status_laws::force_is_not_about_an_instance(id);
    let all = unlock_steps(database);
    assert(protocol::asked(start, replies).last() == all[replies.len() - 1]);
    assert(all[0] is Connect && all[1] is SignIn && all[2] is Select);
    assert(all[3] == RequestView::FetchLocks(crate::db::read_lock_statement()));
    assert(all[4] == RequestView::Execute(crate::db::force_unlock_statement()));
}

proof fn stage_of_unlocking(database: DatabaseConfigView, force: bool, replies: Seq<ReplyView>)
    requires
        protocol::is_conversation(UnlockingView::start(database, force), replies),
    ensures
        ({
            let start = UnlockingView::start(database, force);
            let all = unlock_steps(database);
            let n = replies.len() as int;
            let last = unlock_verdict(database, force, n - 1, replies.last());
            &&& n <= all.len()
            &&& protocol::asked(start, replies) == all.take(n)
            &&& forall|i: int|
                0 <= i < n - 1 ==> unlock_verdict(
                    database,
                    force,
                    i,
                    #[trigger] replies[i],
                ) is None
            &&& match protocol::after(start, replies) {
                UnlockingView::Connecting { connecting, force: f } => {
                    &&& connecting.config == database
                    &&& connecting.authorize
                    &&& f == force
                    &&& n > 0 ==> last is None
                    &&& match connecting.stage {
                        ConnectingStageView::Opening => n == 0,
                        ConnectingStageView::SigningIn => n == 1,
                        ConnectingStageView::Selecting => n == 2,
                        ConnectingStageView::Finished(_) => false,
                    }
                },
                UnlockingView::Reading { force: f } => f == force && n == 3 && last is None,
                UnlockingView::Freeing => n == 4 && last is None,
                UnlockingView::Finished(result) => n > 0 && last == Some(result),
            }
        }),
    decreases replies.len(),
{
    let start = UnlockingView::start(database, force);
    let all = unlock_steps(database);
    let asked = protocol::asked(start, replies);
    if replies.len() == 0 {
        assert(asked =~= all.take(0));
    } else {
        let front = replies.drop_last();
        let n = front.len() as int;
        protocol::conversation_prefix(start, replies);
        stage_of_unlocking(database, force, front);
        assert(asked =~= protocol::asked(start, front).push(asked.last()));
        assert(asked.last() == all[n]);
        assert(asked =~= all.take(n + 1));
        assert forall|i: int| 0 <= i < n implies unlock_verdict(
            database,
            force,
            i,
            #[trigger] replies[i],
        ) is None by {
            assert(front[i] == replies[i]);
        }
    }
}

/// Without an instance id, nothing is asked of the database but that it be connected to, and all is
/// well once it is.
pub proof fn nameless_instance_only_connects(
    database: DatabaseConfigView,
    files: Seq<EmbeddedFileView>,
    replies: Seq<ReplyView>,
)
    requires
        protocol::is_conversation(MigratingView::start(database, files, None), replies),
    ensures
        replies.len() <= 3,
        protocol::asked(MigratingView::start(database, files, None), replies)
            == connect_laws::steps(database, true).take(replies.len() as int),
        protocol::after(MigratingView::start(database, files, None), replies).outcome() == (
        if replies.len() == 0 {
            None
        } else {
            match replies.last() {
                ReplyView::Done(Err(error)) => Some(
                    Err(
                        MaintenanceErrorView::Database(
                            connect_laws::step_failed(database, replies.len() - 1, error),
                        ),
                    ),
                ),
                _ => if replies.len() == 3 {
                    Some(Ok(()))
                } else {
                    None
                },
            }
        }),
{
    stage_of_migrating(database, files, None, replies);
    match protocol::after(MigratingView::start(database, files, None), replies) {
        MigratingView::Finished(Ok(nothing)) => {
            assert(nothing == ());
        },
        _ => {},
    }
}

/// With an instance id, the migrations are run once the database is connected to, and what the run
/// comes to is what is reported.
pub proof fn migrations_run_once_connected(
    database: DatabaseConfigView,
    files: Seq<EmbeddedFileView>,
    id: Seq<char>,
    replies: Seq<ReplyView>,
)
    requires
        protocol::is_conversation(MigratingView::start(database, files, Some(id)), replies),
        replies.len() >= 3,
        connect_laws::is_done(replies[2]),
    ensures
        protocol::is_conversation(MigrationRunView::start(files, id), replies.skip(3)),
        protocol::asked(MigratingView::start(database, files, Some(id)), replies)
            == connect_laws::steps(database, true) + protocol::asked(
            MigrationRunView::start(files, id),
            replies.skip(3),
        ),
        protocol::after(MigratingView::start(database, files, Some(id)), replies)
            == MigratingView::after_running(
            protocol::after(MigrationRunView::start(files, id), replies.skip(3)),
        ),
        protocol::after(MigratingView::start(database, files, Some(id)), replies).outcome() == (
        match protocol::after(MigrationRunView::start(files, id), replies.skip(3)).outcome() {
            None => None,
            Some(Ok(nothing)) => Some(Ok::<(), MaintenanceErrorView>(nothing)),
            Some(Err(error)) => Some(Err(MaintenanceErrorView::Migration(error))),
        }),
    decreases replies.len(),
{
    let start = MigratingView::start(database, files, Some(id));
    let run = MigrationRunView::start(files, id);
    let asked = protocol::asked(start, replies);
    let rest = replies.skip(3);
    if replies.len() == 3 {
        stage_of_migrating(database, files, Some(id), replies);
        assert(rest =~= seq![]);
        assert(protocol::asked(run, rest) =~= seq![]);
        assert(asked =~= connect_laws::steps(database, true) + protocol::asked(run, rest));
    } else {
        let front = replies.drop_last();
        protocol::conversation_prefix(start, replies);
        assert(front[2] == replies[2]);
        migrations_run_once_connected(database, files, id, front);
        assert(rest.drop_last() =~= front.skip(3));
        let before = protocol::after(run, rest.drop_last());
        assert(before.outcome() is None);
        assert(before.request() == Some(asked.last()));
        assert forall|i: int| 0 <= i < rest.len() implies {
            &&& (#[trigger] protocol::after(run, rest.take(i))).request() is Some
            &&& protocol::answers(protocol::after(run, rest.take(i)).request()->0, rest[i])
        } by {
            if i < rest.len() - 1 {
                assert(rest.take(i) =~= front.skip(3).take(i));
                assert(rest[i] == front.skip(3)[i]);
            } else {
                assert(rest.take(i) =~= front.skip(3));
            }
        }
        protocol::conversation_prefix(run, rest);
        assert(asked =~= protocol::asked(start, front).push(asked.last()));
        assert(protocol::asked(run, rest) =~= protocol::asked(run, front.skip(3)).push(
            asked.last(),
        ));
        assert(asked =~= connect_laws::steps(database, true) + protocol::asked(run, rest));
    }
}

/// Whatever becomes of the migrations, a lock that was taken for them is given back.
pub proof fn migrating_gives_the_lock_back(
    database: DatabaseConfigView,
    files: Seq<EmbeddedFileView>,
    id: Seq<char>,
    replies: Seq<ReplyView>,
)
    requires
        protocol::is_conversation(MigratingView::start(database, files, Some(id)), replies),
        protocol::after(MigratingView::start(database, files, Some(id)), replies).outcome() is Some,
        run_laws::lock_taken(replies),
    ensures
        protocol::asked(MigratingView::start(database, files, Some(id)), replies).last()
            == lock::release_lock(id),
{
    let start = MigratingView::start(database, files, Some(id));
    let k = choose|k: int| 0 <= k < replies.len() && run_laws::is_grant(#[trigger] replies[k]);
    if k < 3 {
        protocol::conversation_beginning(start, replies, k);
        stage_of_migrating(database, files, Some(id), replies.take(k));
    }
    protocol::conversation_beginning(start, replies, 3);
    stage_of_migrating(database, files, Some(id), replies.take(3));
    assert(replies.take(3)[2] == replies[2]);
    migrations_run_once_connected(database, files, id, replies);
    let rest = replies.skip(3);
    assert(run_laws::is_grant(rest[k - 3]));
    run_laws::taken_lock_is_released(files, id, rest);
}

/// An instance that cannot connect asks for nothing more, and reports the step that failed.
pub proof fn failed_connection_ends_the_migrating(
    database: DatabaseConfigView,
    files: Seq<EmbeddedFileView>,
    id: Option<Seq<char>>,
    replies: Seq<ReplyView>,
    i: int,
    error: Seq<char>,
)
    requires
        protocol::is_conversation(MigratingView::start(database, files, id), replies),
        0 <= i < replies.len(),
        i < 3,
        replies[i] == ReplyView::Done(Err(error)),
    ensures
        i == replies.len() - 1,
        protocol::after(MigratingView::start(database, files, id), replies).outcome() == Some(
            Err::<(), MaintenanceErrorView>(
                MaintenanceErrorView::Database(connect_laws::step_failed(database, i, error)),
            ),
        ),
{
    let start = MigratingView::start(database, files, id);
    protocol::conversation_beginning(start, replies, i + 1);
    stage_of_migrating(database, files, id, replies.take(i + 1));
    assert(replies.take(i + 1).last() == replies[i]);
    assert(replies.take(replies.len() as int) =~= replies);
}

/// A reply that does not answer what is asked changes nothing.
pub proof fn migrating_ignores_what_it_did_not_ask_for(now: MigratingView, reply: ReplyView)
    requires
        now.request() matches Some(request) ==> !protocol::answers(request, reply),
        now matches MigratingView::Connecting { connecting, .. } ==> connecting.outcome() is None,
        now matches MigratingView::Running(run) ==> run.outcome() is None,
        now matches MigratingView::Running(run) ==> (
        run.stage matches RunStageView::Acquiring { attempt, .. } ==> attempt.outcome() is None),
    ensures
        now.resume(reply) == now,
{
    if let MigratingView::Running(run) = now {
        run_laws::run_ignores_what_it_did_not_ask_for(run, reply);
    }
}

/// A reply that does not answer what is asked changes nothing.
pub proof fn unlocking_ignores_what_it_did_not_ask_for(now: UnlockingView, reply: ReplyView)
    requires
        now.request() matches Some(request) ==> !protocol::answers(request, reply),
        now matches UnlockingView::Connecting { connecting, .. } ==> connecting.outcome() is None,
    ensures
        now.resume(reply) == now,
{
}

proof fn stage_of_migrating(
    database: DatabaseConfigView,
    files: Seq<EmbeddedFileView>,
    id: Option<Seq<char>>,
    replies: Seq<ReplyView>,
)
    requires
        protocol::is_conversation(MigratingView::start(database, files, id), replies),
        replies.len() <= 3 || id is None,
    ensures
        ({
            let start = MigratingView::start(database, files, id);
            let all = connect_laws::steps(database, true);
            let n = replies.len() as int;
            &&& n <= 3
            &&& protocol::asked(start, replies) == all.take(n)
            &&& match protocol::after(start, replies) {
                MigratingView::Connecting { connecting, migrations, instance_id } => {
                    &&& connecting.config == database
                    &&& connecting.authorize
                    &&& migrations == files
                    &&& instance_id == id
                    &&& n < 3
                    &&& n > 0 ==> connect_laws::is_done(replies.last())
                    &&& match connecting.stage {
                        ConnectingStageView::Opening => n == 0,
                        ConnectingStageView::SigningIn => n == 1,
                        ConnectingStageView::Selecting => n == 2,
                        ConnectingStageView::Finished(_) => false,
                    }
                },
                MigratingView::Running(run) => {
                    &&& n == 3
                    &&& id is Some
                    &&& connect_laws::is_done(replies.last())
                    &&& run == MigrationRunView::start(files, id->0)
                },
                MigratingView::Finished(Ok(_)) => n == 3 && id is None
                    && connect_laws::is_done(replies.last()),
                MigratingView::Finished(Err(e)) => {
                    &&& n > 0
                    &&& replies.last() matches ReplyView::Done(Err(error))
                    &&& e == MaintenanceErrorView::Database(
                        connect_laws::step_failed(database, n - 1, error),
                    )
                },
            }
        }),
    decreases replies.len(),
{
    let start = MigratingView::start(database, files, id);
    let all = connect_laws::steps(database, true);
    let asked = protocol::asked(start, replies);
    if replies.len() == 0 {
        assert(asked =~= all.take(0));
    } else {
        let front = replies.drop_last();
        let n = front.len() as int;
        protocol::conversation_prefix(start, replies);
        stage_of_migrating(database, files, id, front);
        assert(asked =~= protocol::asked(start, front).push(asked.last()));
        assert(asked.last() == all[n]);
        assert(asked =~= all.take(n + 1));
    }
}

} // verus!
