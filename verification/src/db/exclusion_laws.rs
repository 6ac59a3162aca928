//! The lock does what it is for: no two instances migrate a schema at once.

use crate::db::embedded::EmbeddedFileView;
use crate::db::lock;
use crate::db::migrations::MigrationErrorView;
use crate::db::protocol;
use crate::db::protocol::{Machine, ReplyView, RequestView};
use crate::db::run;
use crate::db::run::{MigrationRunView, RunStageView};
use crate::db::run_laws;
use vstd::prelude::*;

verus! {

/// A program that migrates a schema: its migrations, and the id it goes by.
pub struct Instance {
    pub files: Seq<EmbeddedFileView>,
    pub id: Seq<char>,
}

/// A step of one of several instances: which one it was, the reply that it got, and who holds the lock
/// from then on, as the database knows it.
pub struct Event {
    pub by: int,
    pub reply: ReplyView,
    pub holder: Option<Seq<char>>,
}

/// What the instance with number `i` was told.
pub open spec fn told(history: Seq<Event>, i: int) -> Seq<ReplyView>
    decreases history.len(),
{
    if history.len() == 0 {
        seq![]
    } else {
        let before = told(history.drop_last(), i);
        if history.last().by == i {
            before.push(history.last().reply)
        } else {
            before
        }
    }
}

/// Where the run of the instance with number `i` stands after the history.
pub open spec fn run_after(
    instances: Seq<Instance>,
    history: Seq<Event>,
    i: int,
) -> MigrationRunView {
    protocol::after(
        MigrationRunView::start(instances[i].files, instances[i].id),
        told(history, i),
    )
}

/// Who holds the lock after the history, if `holder` held it before.
pub open spec fn holder_after(holder: Option<Seq<char>>, history: Seq<Event>) -> Option<Seq<char>> {
    if history.len() == 0 {
        holder
    } else {
        history.last().holder
    }
}

/// Whether a database behaves as the statements about the lock say, when the instance `id` makes the
/// request: only a free lock is taken, and only who holds it gives it back. Where the lock is not
/// reported as taken, or whatever becomes of giving it back, the statement may or may not have had
/// its effect. Nothing else touches the lock.
pub open spec fn lock_behaves(
    id: Seq<char>,
    request: RequestView,
    reply: ReplyView,
    before: Option<Seq<char>>,
    after: Option<Seq<char>>,
) -> bool {
    if request == lock::take_lock(id) {
        if run_laws::is_grant(reply) {
            before is None && after == Some(id)
        } else {
            after == before || before is None && after == Some(id)
        }
    } else if request == lock::release_lock(id) {
        after == before || before == Some(id) && after is None
    } else {
        after == before
    }
}

/// Whether the instances can have made these steps, in this order, on one database, where `holder`
/// held the lock before.
pub open spec fn is_history(
    instances: Seq<Instance>,
    holder: Option<Seq<char>>,
    history: Seq<Event>,
) -> bool
    decreases history.len(),
{
    history.len() == 0 || {
        let before = history.drop_last();
        let event = history.last();
        let request = run_after(instances, before, event.by).request();
        &&& is_history(instances, holder, before)
        &&& 0 <= event.by < instances.len()
        &&& request is Some
        &&& protocol::answers(request->0, event.reply)
        &&& lock_behaves(
            instances[event.by].id,
            request->0,
            event.reply,
            holder_after(holder, before),
            event.holder,
        )
    }
}

/// Whether a run wants a script applied.
pub open spec fn wants_script(run: MigrationRunView) -> bool {
    run.request() matches Some(request) && run_laws::is_apply()(request)
}

/// Of any number of instances, no two want a script applied at the same time, on a schema that both
/// found to be migrated before. Their ids need not differ.
pub proof fn instances_do_not_migrate_at_once(
    instances: Seq<Instance>,
    holder: Option<Seq<char>>,
    history: Seq<Event>,
    i: int,
    j: int,
)
    requires
        is_history(instances, holder, history),
        0 <= i < instances.len(),
        0 <= j < instances.len(),
        i != j,
        told(history, i).len() > 0,
        told(history, j).len() > 0,
        run_laws::last_before(told(history, i)) matches Ok(Some(_)),
        run_laws::last_before(told(history, j)) matches Ok(Some(_)),
    ensures
        !(wants_script(run_after(instances, history, i)) && wants_script(
            run_after(instances, history, j),
        )),
{
    lock_is_held(instances, holder, history, i, j);
    if wants_script(run_after(instances, history, i)) {
        history_is_conversation(instances, holder, history, i);
        wants_script_while_applying(instances, history, i);
    }
    if wants_script(run_after(instances, history, j)) {
        history_is_conversation(instances, holder, history, j);
        wants_script_while_applying(instances, history, j);
    }
}

/// Whether a run holds the lock by its own account.
spec fn holds_lock(run: MigrationRunView) -> bool {
    match run.stage {
        RunStageView::Applying { locked, .. } => locked,
        RunStageView::Releasing { .. } => true,
        _ => false,
    }
}

proof fn history_is_conversation(
    instances: Seq<Instance>,
    holder: Option<Seq<char>>,
    history: Seq<Event>,
    i: int,
)
    requires
        is_history(instances, holder, history),
    ensures
        protocol::is_conversation(
            MigrationRunView::start(instances[i].files, instances[i].id),
            told(history, i),
        ),
    decreases history.len(),
{
    if history.len() > 0 {
        let before = history.drop_last();
        history_is_conversation(instances, holder, before, i);
        if history.last().by == i {
            protocol::conversation_goes_on(
                MigrationRunView::start(instances[i].files, instances[i].id),
                told(before, i),
                history.last().reply,
            );
        }
    }
}

/// A run that holds the lock by its own account holds it indeed, and is the only one that does.
proof fn lock_is_held(
    instances: Seq<Instance>,
    holder: Option<Seq<char>>,
    history: Seq<Event>,
    i: int,
    j: int,
)
    requires
        is_history(instances, holder, history),
        0 <= i < instances.len(),
        0 <= j < instances.len(),
        i != j,
    ensures
        holds_lock(run_after(instances, history, i)) ==> {
            &&& holder_after(holder, history) == Some(instances[i].id)
            &&& !holds_lock(run_after(instances, history, j))
        },
        holds_lock(run_after(instances, history, j)) ==> holder_after(holder, history) == Some(
            instances[j].id,
        ),
    decreases history.len(),
{
    if history.len() > 0 {
        let before = history.drop_last();
        let event = history.last();
        let k = event.by;
        lock_is_held(instances, holder, before, i, j);
        if k != i {
            lock_is_held(instances, holder, before, i, k);
        }
        if k != j {
            lock_is_held(instances, holder, before, j, k);
        }
        history_is_conversation(instances, holder, before, k);
        let now = run_after(instances, before, k);
        let start = MigrationRunView::start(instances[k].files, instances[k].id);
        protocol::conversation_goes_on(start, told(before, k), event.reply);
        run_keeps_its_id(instances[k], told(before, k));
        if let RunStageView::Applying { current, .. } = now.stage {
            assert(run::apply_statement(current).bindings.len() == 1);
            assert(lock::lock_statement(lock::RELEASE_LOCK@, instances[k].id).bindings.len() == 2);
        }
    }
}

/// A run goes by the id of its instance, and applies scripts under the lock if and only if it found
/// the schema to be migrated before.
pub(crate) proof fn run_keeps_its_id(instance: Instance, replies: Seq<ReplyView>)
    requires
        protocol::is_conversation(
            MigrationRunView::start(instance.files, instance.id),
            replies,
        ),
    ensures
        ({
            let now = protocol::after(
                MigrationRunView::start(instance.files, instance.id),
                replies,
            );
            &&& now.instance_id == instance.id
            &&& match now.stage {
                RunStageView::Reading => replies.len() == 0,
                RunStageView::Acquiring { last_applied, attempt } => {
                    &&& attempt.instance_id == instance.id
                    &&& replies.len() > 0
                    &&& run_laws::last_before(replies) == Ok::<_, MigrationErrorView>(
                        Some(last_applied),
                    )
                },
                RunStageView::Applying { locked, .. } => {
                    &&& replies.len() > 0
                    &&& run_laws::last_before(replies) matches Ok(last)
                    &&& locked == (last is Some)
                },
                _ => replies.len() > 0,
            }
        }),
    decreases replies.len(),
{
    let start = MigrationRunView::start(instance.files, instance.id);
    if replies.len() > 0 {
        let front = replies.drop_last();
        protocol::conversation_prefix(start, replies);
        run_keeps_its_id(instance, front);
        if front.len() > 0 {
            assert(front[0] == replies[0]);
        }
    }
}

proof fn wants_script_while_applying(instances: Seq<Instance>, history: Seq<Event>, i: int)
    requires
        protocol::is_conversation(
            MigrationRunView::start(instances[i].files, instances[i].id),
            told(history, i),
        ),
        told(history, i).len() > 0,
        run_laws::last_before(told(history, i)) matches Ok(Some(_)),
        wants_script(run_after(instances, history, i)),
    ensures
        holds_lock(run_after(instances, history, i)),
{
    run_keeps_its_id(instances[i], told(history, i));
    let now = run_after(instances, history, i);
    let request = now.request()->0;
    let script = choose|script: crate::db::pending::ScriptView|
        request == #[trigger] run_laws::apply_request(script);
    assert(run::apply_statement(script).bindings.len() == 1);
    assert(lock::lock_statement(lock::RELEASE_LOCK@, instances[i].id).bindings.len() == 2);
}

} // verus!
