//! What holds of every run of the migrations, whatever the database answers.

use crate::db::embedded::EmbeddedFileView;
use crate::db::lock;
use crate::db::lock::LockAttemptView;
use crate::db::migrations;
use crate::db::migrations::MigrationErrorView;
use crate::db::pending;
use crate::db::pending::ScriptView;
use crate::db::protocol;
use crate::db::protocol::{Machine, ReplyView, RequestView};
use crate::db::run;
use crate::db::run::{MigrationRunView, RunStageView};
use vstd::prelude::*;

verus! {

/// Whether the reply says that the lock was taken.
pub open spec fn is_grant(reply: ReplyView) -> bool {
    reply matches ReplyView::Lock(Ok(Ok(Some(_))))
}

/// Whether the lock was taken in the course of `replies`.
pub open spec fn lock_taken(replies: Seq<ReplyView>) -> bool {
    exists|k: int| 0 <= k < replies.len() && is_grant(#[trigger] replies[k])
}

/// The request that applies a script.
pub open spec fn apply_request(script: ScriptView) -> RequestView {
    RequestView::Execute(run::apply_statement(script))
}

/// Which requests apply a script.
pub open spec fn is_apply() -> spec_fn(RequestView) -> bool {
    |request: RequestView| exists|script: ScriptView| request == #[trigger] apply_request(script)
}

/// The scripts that were sent to the database before the last of `replies`, in order.
pub open spec fn scripts_sent(start: MigrationRunView, replies: Seq<ReplyView>) -> Seq<
    RequestView,
> {
    protocol::asked(start, replies).filter(is_apply())
}

/// The migration that was applied last before the run, as far as the first reply tells.
pub open spec fn last_before(replies: Seq<ReplyView>) -> Result<
    Option<Seq<char>>,
    MigrationErrorView,
> {
    migrations::last_applied_result(replies[0]->Applied_0)
}

/// Whether `sent` applies the first of `scripts`, as many as it is long.
pub open spec fn are_first(sent: Seq<RequestView>, scripts: Seq<ScriptView>) -> bool {
    &&& sent.len() <= scripts.len()
    &&& forall|i: int|
        0 <= i < sent.len() ==> #[trigger] sent[i] == apply_request(scripts[i])
}

proof fn apply_is_apply(script: ScriptView)
    ensures
        is_apply()(apply_request(script)),
{
}

proof fn lock_request_is_no_apply(sql: Seq<char>, instance_id: Seq<char>)
    ensures
        !is_apply()(RequestView::Execute(lock::lock_statement(sql, instance_id))),
{
    assert forall|script: ScriptView|
        RequestView::Execute(lock::lock_statement(sql, instance_id)) != #[trigger] apply_request(
            script,
        ) by {
        assert(run::apply_statement(script).bindings.len() == 1);
        assert(lock::lock_statement(sql, instance_id).bindings.len() == 2);
    }
}

proof fn taken_with_the_last_reply_or_before(replies: Seq<ReplyView>)
    requires
        replies.len() > 0,
    ensures
        lock_taken(replies) == (lock_taken(replies.drop_last()) || is_grant(replies.last())),
{
    let front = replies.drop_last();
    if lock_taken(front) {
        let k = choose|k: int| 0 <= k < front.len() && is_grant(#[trigger] front[k]);
        assert(is_grant(replies[k]));
    }
    if is_grant(replies.last()) {
        assert(is_grant(replies[replies.len() - 1]));
    }
    if lock_taken(replies) && !is_grant(replies.last()) {
        let k = choose|k: int| 0 <= k < replies.len() && is_grant(#[trigger] replies[k]);
        assert(is_grant(front[k]));
    }
}

/// What holds of a run at each point.
spec fn holds(files: Seq<EmbeddedFileView>, id: Seq<char>, replies: Seq<ReplyView>) -> bool {
    let start = MigrationRunView::start(files, id);
    let now = protocol::after(start, replies);
    let asked = protocol::asked(start, replies);
    let sent = scripts_sent(start, replies);
    let released = exists|i: int|
        0 <= i < asked.len() && #[trigger] asked[i] == lock::release_lock(id);
    &&& now.files == files
    &&& now.instance_id == id
    &&& (now.stage is Reading) == (replies.len() == 0)
    &&& replies.len() > 0 ==> replies[0] is Applied
    &&& match now.stage {
        RunStageView::Reading => sent.len() == 0 && !lock_taken(replies) && !released,
        RunStageView::Acquiring { last_applied, attempt } => {
            &&& last_before(replies) == Ok::<_, MigrationErrorView>(Some(last_applied))
            &&& attempt.instance_id == id
            &&& attempt.outcome() is None
            &&& sent.len() == 0
            &&& !lock_taken(replies)
            &&& !released
        },
        RunStageView::Applying { locked, current, rest } => {
            &&& last_before(replies) matches Ok(last)
            &&& pending::pending(files, last) matches Ok(scripts)
            &&& are_first(sent, scripts)
            &&& scripts.skip(sent.len() as int) == seq![current] + rest
            &&& locked == (last is Some)
            &&& locked == lock_taken(replies)
            &&& !released
        },
        RunStageView::Releasing { result } => {
            &&& last_before(replies) matches Ok(Some(last))
            &&& lock_taken(replies)
            &&& !released
            &&& match pending::pending(files, Some(last)) {
                Ok(scripts) => {
                    &&& are_first(sent, scripts)
                    &&& result is Ok ==> sent.len() == scripts.len()
                },
                Err(error) => sent.len() == 0 && result == Err::<(), _>(error),
            }
        },
        RunStageView::Finished(result) => {
            &&& lock_taken(replies) ==> asked.last() == lock::release_lock(id)
            &&& !lock_taken(replies) ==> !released
            &&& match last_before(replies) {
                Err(error) => sent.len() == 0 && result == Err::<(), _>(error),
                Ok(last) => match pending::pending(files, last) {
                    Ok(scripts) => {
                        &&& are_first(sent, scripts)
                        &&& result is Ok ==> sent.len() == scripts.len()
                        &&& last is Some && !lock_taken(replies) ==> sent.len() == 0
                            && result is Err
                    },
                    Err(error) => {
                        &&& sent.len() == 0
                        &&& result is Err
                        &&& last is None || lock_taken(replies) ==> result == Err::<(), _>(error)
                    },
                },
            }
        },
    }
}

proof fn always_holds(files: Seq<EmbeddedFileView>, id: Seq<char>, replies: Seq<ReplyView>)
    requires
        protocol::is_conversation(MigrationRunView::start(files, id), replies),
    ensures
        holds(files, id, replies),
    decreases replies.len(),
{
    let start = MigrationRunView::start(files, id);
    let asked = protocol::asked(start, replies);
    if replies.len() == 0 {
        assert(asked.filter(is_apply()) =~= seq![]) by {
            reveal(Seq::filter);
        }
    } else {
        let front = replies.drop_last();
        let reply = replies.last();
        protocol::conversation_prefix(start, replies);
        always_holds(files, id, front);
        let before = protocol::after(start, front);
        let asked_before = protocol::asked(start, front);
        let request = asked.last();
        let sent_before = scripts_sent(start, front);
        let sent = scripts_sent(start, replies);
        assert(asked =~= asked_before.push(request));
        asked_before.lemma_filter_push(request, is_apply());
        if front.len() > 0 {
            assert(front[0] == replies[0]);
        }
        taken_with_the_last_reply_or_before(replies);
        let released_before = exists|i: int|
            0 <= i < asked_before.len() && #[trigger] asked_before[i] == lock::release_lock(id);
        let released = exists|i: int|
            0 <= i < asked.len() && #[trigger] asked[i] == lock::release_lock(id);
        assert(released ==> released_before || request == lock::release_lock(id)) by {
            if released {
                let i = choose|i: int|
                    0 <= i < asked.len() && #[trigger] asked[i] == lock::release_lock(id);
                if i < asked_before.len() {
                    assert(asked_before[i] == lock::release_lock(id));
                }
            }
        }
        lock_request_is_no_apply(lock::RELEASE_LOCK@, id);
        match before.stage {
            RunStageView::Applying { locked, current, rest } => {
                apply_is_apply(current);
                assert(request == apply_request(current));
                let scripts = pending::pending(files, last_before(replies)->Ok_0)->Ok_0;
                let n = sent_before.len() as int;
                assert(scripts.skip(n) == seq![current] + rest);
                assert(scripts.skip(n).len() == 1 + rest.len());
                assert(scripts.skip(n)[0] == current);
                assert(scripts[n] == current);
                assert(sent == sent_before.push(request));
                assert(are_first(sent, scripts));
                assert(scripts.skip(n + 1) =~= scripts.skip(n).drop_first());
                assert(scripts.skip(n).drop_first() =~= rest);
                if rest.len() == 0 {
                    assert(sent.len() == scripts.len());
                } else {
                    assert(rest =~= seq![rest[0]] + rest.drop_first());
                }
                assert(request != lock::release_lock(id));
            },
            RunStageView::Reading => {
                assert(replies[0] == reply);
                if let Ok(None) = last_before(replies) {
                    starts_from_the_first(files, None);
                }
            },
            RunStageView::Acquiring { last_applied, attempt } => {
                starts_from_the_first(files, Some(last_applied));
            },
            RunStageView::Releasing { result } => {
                assert(sent == sent_before);
            },
            RunStageView::Finished(_) => {},
        }
    }
}

proof fn starts_from_the_first(files: Seq<EmbeddedFileView>, last: Option<Seq<char>>)
    ensures
        pending::pending(files, last) matches Ok(scripts) ==> {
            &&& scripts.len() > 0 ==> scripts.skip(0) == seq![scripts[0]] + scripts.drop_first()
            &&& are_first(seq![], scripts)
        },
{
    if let Ok(scripts) = pending::pending(files, last) {
        if scripts.len() > 0 {
            assert(scripts.skip(0) =~= seq![scripts[0]] + scripts.drop_first());
        }
    }
}

/// A lock that was taken is given back: the last thing that a finished run asked for is that the
/// lock be released, however the run came out.
pub proof fn taken_lock_is_released(
    files: Seq<EmbeddedFileView>,
    id: Seq<char>,
    replies: Seq<ReplyView>,
)
    requires
        protocol::is_conversation(MigrationRunView::start(files, id), replies),
        protocol::after(MigrationRunView::start(files, id), replies).outcome() is Some,
        lock_taken(replies),
    ensures
        protocol::asked(MigrationRunView::start(files, id), replies).last() == lock::release_lock(
            id,
        ),
{
    always_holds(files, id, replies);
}

/// A run asks for the release of the lock only once it has taken the lock.
pub proof fn only_taken_lock_is_released(
    files: Seq<EmbeddedFileView>,
    id: Seq<char>,
    replies: Seq<ReplyView>,
    i: int,
)
    requires
        protocol::is_conversation(MigrationRunView::start(files, id), replies),
        0 <= i < replies.len(),
        protocol::asked(MigrationRunView::start(files, id), replies)[i] == lock::release_lock(id),
    ensures
        lock_taken(replies.take(i)),
{
    let start = MigrationRunView::start(files, id);
    protocol::conversation_beginning(start, replies, i);
    always_holds(files, id, replies.take(i));
    lock_request_is_no_apply(lock::RELEASE_LOCK@, id);
    if let RunStageView::Applying { current, .. } = protocol::after(
        start,
        replies.take(i),
    ).stage {
        apply_is_apply(current);
    }
}

/// The release of the lock is the last thing that a run asks for, so that it asks for it at most once:
/// whatever becomes of the release, the run is finished.
pub proof fn release_is_the_last_request(
    files: Seq<EmbeddedFileView>,
    id: Seq<char>,
    replies: Seq<ReplyView>,
    i: int,
)
    requires
        protocol::is_conversation(MigrationRunView::start(files, id), replies),
        0 <= i < replies.len(),
        protocol::asked(MigrationRunView::start(files, id), replies)[i] == lock::release_lock(id),
    ensures
        i == replies.len() - 1,
        protocol::after(MigrationRunView::start(files, id), replies).outcome() is Some,
{
    let start = MigrationRunView::start(files, id);
    protocol::conversation_beginning(start, replies, i);
    always_holds(files, id, replies.take(i));
    lock_request_is_no_apply(lock::RELEASE_LOCK@, id);
    if let RunStageView::Applying { current, .. } = protocol::after(
        start,
        replies.take(i),
    ).stage {
        apply_is_apply(current);
    }
    protocol::after_one_more(start, replies, i);
    protocol::conversation_beginning(start, replies, i + 1);
    assert(replies.take(replies.len() as int) =~= replies);
}

/// The scripts that a run sends are the first ones of those pending, each once and in their order.
pub proof fn scripts_are_sent_in_order(
    files: Seq<EmbeddedFileView>,
    id: Seq<char>,
    replies: Seq<ReplyView>,
    scripts: Seq<ScriptView>,
)
    requires
        protocol::is_conversation(MigrationRunView::start(files, id), replies),
        replies.len() > 0,
        last_before(replies) is Ok,
        pending::pending(files, last_before(replies)->Ok_0) == Ok::<_, MigrationErrorView>(scripts),
    ensures
        are_first(scripts_sent(MigrationRunView::start(files, id), replies), scripts),
{
    always_holds(files, id, replies);
    let start = MigrationRunView::start(files, id);
    match protocol::after(start, replies).stage {
        RunStageView::Acquiring { .. } => {},
        _ => {},
    }
}

/// A run that succeeds has sent every pending script.
pub proof fn success_sends_every_script(
    files: Seq<EmbeddedFileView>,
    id: Seq<char>,
    replies: Seq<ReplyView>,
)
    requires
        protocol::is_conversation(MigrationRunView::start(files, id), replies),
        protocol::after(MigrationRunView::start(files, id), replies).outcome() == Some(
            Ok::<(), MigrationErrorView>(()),
        ),
    ensures
        last_before(replies) is Ok,
        pending::pending(files, last_before(replies)->Ok_0) matches Ok(scripts) && {
            let sent = scripts_sent(MigrationRunView::start(files, id), replies);
            sent.len() == scripts.len() && are_first(sent, scripts)
        },
{
    always_holds(files, id, replies);
}

/// Once the database has recorded what a successful run applied, nothing is pending.
pub proof fn success_leaves_nothing_pending(
    files: Seq<EmbeddedFileView>,
    id: Seq<char>,
    replies: Seq<ReplyView>,
    scripts: Seq<ScriptView>,
)
    requires
        protocol::is_conversation(MigrationRunView::start(files, id), replies),
        protocol::after(MigrationRunView::start(files, id), replies).outcome() == Some(
            Ok::<(), MigrationErrorView>(()),
        ),
        pending::pending(files, last_before(replies)->Ok_0) == Ok::<_, MigrationErrorView>(scripts),
    ensures
        pending::pending(
            files,
            if scripts.len() == 0 {
                last_before(replies)->Ok_0
            } else {
                Some(scripts.last().id)
            },
        ) == Ok::<Seq<ScriptView>, MigrationErrorView>(seq![]),
{
    always_holds(files, id, replies);
    if scripts.len() == 0 {
        assert(scripts =~= seq![]);
    } else {
        crate::db::pending_laws::applying_all_leaves_none(files, last_before(replies)->Ok_0);
    }
}

/// A schema that was migrated passes the check that an application makes at its start: once the
/// database reports the last script of a successful run as the one applied last, or the same as
/// before where there was nothing to run, no migration is found pending.
pub proof fn migrated_schema_passes_the_check(
    files: Seq<EmbeddedFileView>,
    id: Seq<char>,
    replies: Seq<ReplyView>,
    scripts: Seq<ScriptView>,
    recorded: Seq<Seq<char>>,
)
    requires
        protocol::is_conversation(MigrationRunView::start(files, id), replies),
        protocol::after(MigrationRunView::start(files, id), replies).outcome() == Some(
            Ok::<(), MigrationErrorView>(()),
        ),
        pending::pending(files, last_before(replies)->Ok_0) == Ok::<_, MigrationErrorView>(scripts),
        migrations::last_applied_result(Ok(Ok(recorded))) == Ok::<_, MigrationErrorView>(
            if scripts.len() == 0 {
                last_before(replies)->Ok_0
            } else {
                Some(scripts.last().id)
            },
        ),
    ensures
        migrations::has_pending(files, Ok(Ok(recorded))) == Ok::<bool, MigrationErrorView>(false),
{
    success_leaves_nothing_pending(files, id, replies, scripts);
}

/// On a schema that was migrated before, a script is sent only while the lock is held: it was taken,
/// and its release has not been asked for.
pub proof fn no_script_without_lock(
    files: Seq<EmbeddedFileView>,
    id: Seq<char>,
    replies: Seq<ReplyView>,
    i: int,
)
    requires
        protocol::is_conversation(MigrationRunView::start(files, id), replies),
        0 <= i < replies.len(),
        last_before(replies) matches Ok(Some(_)),
        is_apply()(protocol::asked(MigrationRunView::start(files, id), replies)[i]),
    ensures
        lock_taken(replies.take(i)),
        forall|j: int|
            0 <= j < i ==> #[trigger] protocol::asked(MigrationRunView::start(files, id), replies)[j]
                != lock::release_lock(id),
{
    let start = MigrationRunView::start(files, id);
    let asked = protocol::asked(start, replies);
    protocol::conversation_beginning(start, replies, i);
    always_holds(files, id, replies.take(i));
    lock_request_is_no_apply(lock::RELEASE_LOCK@, id);
    if i > 0 {
        assert(replies.take(i)[0] == replies[0]);
    }
    assert forall|j: int| 0 <= j < i implies #[trigger] asked[j] != lock::release_lock(id) by {
        assert(protocol::asked(start, replies.take(i))[j] == asked[j]);
    }
}

/// On a schema that was never migrated, a run asks for nothing but its scripts once it knows so: in
/// particular, it neither takes nor releases the lock.
pub proof fn first_run_takes_no_lock(
    files: Seq<EmbeddedFileView>,
    id: Seq<char>,
    replies: Seq<ReplyView>,
    i: int,
)
    requires
        protocol::is_conversation(MigrationRunView::start(files, id), replies),
        0 < i < replies.len(),
        last_before(replies) matches Ok(None),
    ensures
        is_apply()(protocol::asked(MigrationRunView::start(files, id), replies)[i]),
        !lock_taken(replies),
{
    let start = MigrationRunView::start(files, id);
    protocol::conversation_beginning(start, replies, i);
    always_holds(files, id, replies.take(i));
    always_holds(files, id, replies);
    assert(replies.take(i)[0] == replies[0]);
    if let RunStageView::Applying { current, .. } = protocol::after(
        start,
        replies.take(i),
    ).stage {
        apply_is_apply(current);
    }
    if lock_taken(replies) {
        let k = choose|k: int| 0 <= k < replies.len() && is_grant(#[trigger] replies[k]);
        protocol::conversation_beginning(start, replies, k);
        always_holds(files, id, replies.take(k));
        if k > 0 {
            assert(replies.take(k)[0] == replies[0]);
        }
    }
}

/// A run on a migrated schema that did not get the lock fails, without having sent a script.
pub proof fn no_lock_no_migration(
    files: Seq<EmbeddedFileView>,
    id: Seq<char>,
    replies: Seq<ReplyView>,
)
    requires
        protocol::is_conversation(MigrationRunView::start(files, id), replies),
        protocol::after(MigrationRunView::start(files, id), replies).outcome() is Some,
        last_before(replies) matches Ok(Some(_)),
        !lock_taken(replies),
    ensures
        protocol::after(MigrationRunView::start(files, id), replies).outcome()->0 is Err,
        scripts_sent(MigrationRunView::start(files, id), replies).len() == 0,
{
    always_holds(files, id, replies);
}

/// A script that fails is the last one sent. All that may follow is the release of the lock, and the
/// run reports the script, whatever becomes of the release.
pub proof fn failure_stops_the_run(
    files: Seq<EmbeddedFileView>,
    id: Seq<char>,
    replies: Seq<ReplyView>,
    k: int,
    script: ScriptView,
    error: Seq<char>,
)
    requires
        protocol::is_conversation(MigrationRunView::start(files, id), replies),
        0 <= k < replies.len(),
        protocol::asked(MigrationRunView::start(files, id), replies)[k] == apply_request(script),
        replies[k] == ReplyView::Executed(Err(error)) || replies[k] == ReplyView::Executed(
            Ok(Err(error)),
        ),
    ensures
        replies.len() <= k + 2,
        replies.len() == k + 2 ==> protocol::asked(
            MigrationRunView::start(files, id),
            replies,
        )[k + 1] == lock::release_lock(id),
        protocol::after(MigrationRunView::start(files, id), replies).outcome() matches Some(r)
            ==> r == Err::<(), _>(
            MigrationErrorView::ScriptFailed { id: script.id, source: error },
        ),
{
    let start = MigrationRunView::start(files, id);
    protocol::conversation_beginning(start, replies, k);
    always_holds(files, id, replies.take(k));
    protocol::after_one_more(start, replies, k);
    apply_is_apply(script);
    lock_request_is_no_apply(lock::RELEASE_LOCK@, id);
    let before = protocol::after(start, replies.take(k));
    if let RunStageView::Applying { current, .. } = before.stage {
        assert(run::apply_statement(current).bindings[0] == run::apply_statement(
            script,
        ).bindings[0]);
        assert(current.id == script.id);
    }
    if replies.len() > k + 1 {
        protocol::conversation_beginning(start, replies, k + 1);
        protocol::after_one_more(start, replies, k + 1);
        if replies.len() > k + 2 {
            protocol::conversation_beginning(start, replies, k + 2);
        }
        assert(replies.len() == k + 2);
        assert(replies.take(k + 2) =~= replies);
    } else {
        assert(replies.take(k + 1) =~= replies);
    }
}

/// A run asks first which migration was applied last.
pub proof fn run_begins_with_the_last_applied(
    files: Seq<EmbeddedFileView>,
    id: Seq<char>,
    replies: Seq<ReplyView>,
)
    requires
        protocol::is_conversation(MigrationRunView::start(files, id), replies),
        replies.len() > 0,
    ensures
        protocol::asked(MigrationRunView::start(files, id), replies)[0] matches RequestView::FetchApplied(
            statement,
        ) && statement.sql == "SELECT * FROM schema_migration ORDER BY applied_at DESC LIMIT 1;"@
            && statement.bindings.len() == 0,
        replies[0] is Applied,
{
    protocol::conversation_beginning(MigrationRunView::start(files, id), replies, 0);
    assert(replies.take(0) =~= seq![]);
}

/// A run that cannot be told which migration was applied last ends with that, as it was reported.
pub proof fn unknown_state_ends_the_run(
    files: Seq<EmbeddedFileView>,
    id: Seq<char>,
    replies: Seq<ReplyView>,
    error: Seq<char>,
)
    requires
        protocol::is_conversation(MigrationRunView::start(files, id), replies),
        replies.len() > 0,
        replies[0] == ReplyView::Applied(Err(error)) || replies[0] == ReplyView::Applied(
            Ok(Err(error)),
        ),
    ensures
        replies.len() == 1,
        protocol::after(MigrationRunView::start(files, id), replies).outcome() == Some(
            Err::<(), MigrationErrorView>(MigrationErrorView::DBError { source: error }),
        ),
{
    let start = MigrationRunView::start(files, id);
    protocol::after_one_more(start, replies, 0);
    assert(replies.take(0) =~= seq![]);
    protocol::conversation_beginning(start, replies, 1);
    assert(replies.take(replies.len() as int) =~= replies);
}

/// A run whose scripts cannot be read reports that, once it may apply them at all.
pub proof fn unreadable_scripts_are_reported(
    files: Seq<EmbeddedFileView>,
    id: Seq<char>,
    replies: Seq<ReplyView>,
)
    requires
        protocol::is_conversation(MigrationRunView::start(files, id), replies),
        protocol::after(MigrationRunView::start(files, id), replies).outcome() is Some,
        last_before(replies) is Ok,
        last_before(replies)->Ok_0 is None || lock_taken(replies),
        pending::pending(files, last_before(replies)->Ok_0) is Err,
    ensures
        protocol::after(MigrationRunView::start(files, id), replies).outcome() == Some(
            Err::<(), MigrationErrorView>(
                pending::pending(files, last_before(replies)->Ok_0)->Err_0,
            ),
        ),
        scripts_sent(MigrationRunView::start(files, id), replies).len() == 0,
{
    always_holds(files, id, replies);
}

/// A run sends a script only if it knows what was applied last and can read what is pending.
pub proof fn sent_only_if_readable(
    files: Seq<EmbeddedFileView>,
    id: Seq<char>,
    replies: Seq<ReplyView>,
)
    requires
        protocol::is_conversation(MigrationRunView::start(files, id), replies),
        scripts_sent(MigrationRunView::start(files, id), replies).len() > 0,
    ensures
        last_before(replies) is Ok,
        pending::pending(files, last_before(replies)->Ok_0) is Ok,
{
    always_holds(files, id, replies);
}

/// All that a run has executed are its scripts and the release of the lock.
pub proof fn only_scripts_and_the_release_are_executed(
    files: Seq<EmbeddedFileView>,
    id: Seq<char>,
    replies: Seq<ReplyView>,
    i: int,
)
    requires
        protocol::is_conversation(MigrationRunView::start(files, id), replies),
        0 <= i < replies.len(),
        protocol::asked(MigrationRunView::start(files, id), replies)[i] is Execute,
    ensures
        ({
            let request = protocol::asked(MigrationRunView::start(files, id), replies)[i];
            is_apply()(request) || request == lock::release_lock(id)
        }),
{
    let start = MigrationRunView::start(files, id);
    protocol::conversation_beginning(start, replies, i);
    always_holds(files, id, replies.take(i));
    if let RunStageView::Applying { current, .. } = protocol::after(
        start,
        replies.take(i),
    ).stage {
        apply_is_apply(current);
    }
}

/// As long as a run on a migrated schema has not taken the lock, it does what an attempt to take it
/// does. Where the attempt comes to nothing, so does the run, and says why.
pub proof fn run_waits_for_the_lock(
    files: Seq<EmbeddedFileView>,
    id: Seq<char>,
    replies: Seq<ReplyView>,
)
    requires
        protocol::is_conversation(MigrationRunView::start(files, id), replies),
        replies.len() > 0,
        last_before(replies) matches Ok(Some(_)),
        !lock_taken(replies),
    ensures
        protocol::is_conversation(LockAttemptView::start(id), replies.skip(1)),
        protocol::asked(MigrationRunView::start(files, id), replies).skip(1) == protocol::asked(
            LockAttemptView::start(id),
            replies.skip(1),
        ),
        protocol::after(MigrationRunView::start(files, id), replies).outcome() == (
        match protocol::after(LockAttemptView::start(id), replies.skip(1)).outcome() {
            None => None,
            Some(Err(error)) => Some(Err::<(), MigrationErrorView>(error)),
            Some(Ok(_)) => Some(
                Err(MigrationErrorView::LockFailed("Timed out waiting for migration lock"@)),
            ),
        }),
{
    acquiring_is_an_attempt(files, id, replies);
}

proof fn acquiring_is_an_attempt(
    files: Seq<EmbeddedFileView>,
    id: Seq<char>,
    replies: Seq<ReplyView>,
)
    requires
        protocol::is_conversation(MigrationRunView::start(files, id), replies),
        replies.len() > 0,
        last_before(replies) matches Ok(Some(_)),
        !lock_taken(replies),
    ensures
        ({
            let start = MigrationRunView::start(files, id);
            let attempt = LockAttemptView::start(id);
            let rest = replies.skip(1);
            &&& protocol::is_conversation(attempt, rest)
            &&& protocol::asked(start, replies).skip(1) == protocol::asked(attempt, rest)
            &&& match protocol::after(start, replies).stage {
                RunStageView::Acquiring { attempt: now, .. } => {
                    &&& now == protocol::after(attempt, rest)
                    &&& now.outcome() is None
                },
                RunStageView::Finished(result) => match protocol::after(attempt, rest).outcome() {
                    None => false,
                    Some(Err(error)) => result == Err::<(), _>(error),
                    Some(Ok(taken)) => !taken && result == Err::<(), _>(
                        MigrationErrorView::LockFailed("Timed out waiting for migration lock"@),
                    ),
                },
                _ => false,
            }
        }),
    decreases replies.len(),
{
    let start = MigrationRunView::start(files, id);
    let attempt = LockAttemptView::start(id);
    let rest = replies.skip(1);
    let asked = protocol::asked(start, replies);
    if replies.len() == 1 {
        protocol::after_one_more(start, replies, 0);
        assert(replies.take(0) =~= seq![]);
        assert(replies.take(1) =~= replies);
        assert(rest =~= seq![]);
        assert(asked.skip(1) =~= protocol::asked(attempt, rest));
        always_holds(files, id, replies);
    } else {
        let front = replies.drop_last();
        let before = front.skip(1);
        protocol::conversation_prefix(start, replies);
        assert(front[0] == replies[0]);
        taken_with_the_last_reply_or_before(replies);
        acquiring_is_an_attempt(files, id, front);
        assert(rest =~= before.push(replies.last()));
        protocol::conversation_goes_on(attempt, before, replies.last());
        protocol::conversation_prefix(attempt, rest);
        assert(rest.drop_last() =~= before);
        assert(protocol::asked(attempt, rest) =~= protocol::asked(attempt, before).push(
            asked.last(),
        ));
        assert(asked =~= protocol::asked(start, front).push(asked.last()));
        assert(asked.skip(1) =~= protocol::asked(attempt, rest));
    }
}

/// A reply that does not answer what is asked changes nothing.
pub proof fn run_ignores_what_it_did_not_ask_for(now: MigrationRunView, reply: ReplyView)
    requires
        now.request() matches Some(request) ==> !protocol::answers(request, reply),
        now.stage matches RunStageView::Acquiring { attempt, .. } ==> attempt.outcome() is None,
    ensures
        now.resume(reply) == now,
{
    if let RunStageView::Acquiring { attempt, .. } = now.stage {
        crate::db::lock_laws::attempt_ignores_what_it_did_not_ask_for(attempt, reply);
    }
}

/// Whether every script that was sent succeeded.
pub open spec fn scripts_succeeded(start: MigrationRunView, replies: Seq<ReplyView>) -> bool {
    forall|k: int|
        0 <= k < replies.len() && is_apply()(#[trigger] protocol::asked(start, replies)[k])
            ==> replies[k] == ReplyView::Executed(Ok(Ok(())))
}

/// A run whose scripts all succeed succeeds, whatever becomes of the release of the lock: it fails
/// only where the schema or the scripts cannot be read, the lock is not taken, or a script fails.
pub proof fn run_succeeds_with_its_scripts(
    files: Seq<EmbeddedFileView>,
    id: Seq<char>,
    replies: Seq<ReplyView>,
)
    requires
        protocol::is_conversation(MigrationRunView::start(files, id), replies),
        protocol::after(MigrationRunView::start(files, id), replies).outcome() is Some,
        last_before(replies) is Ok,
        pending::pending(files, last_before(replies)->Ok_0) is Ok,
        last_before(replies)->Ok_0 is Some ==> lock_taken(replies),
        scripts_succeeded(MigrationRunView::start(files, id), replies),
    ensures
        protocol::after(MigrationRunView::start(files, id), replies).outcome() == Some(
            Ok::<(), MigrationErrorView>(()),
        ),
{
    no_failure_without_reason(files, id, replies);
    match protocol::after(MigrationRunView::start(files, id), replies).stage {
        RunStageView::Finished(Ok(nothing)) => {
            assert(nothing == ());
        },
        _ => {},
    }
}

proof fn no_failure_without_reason(
    files: Seq<EmbeddedFileView>,
    id: Seq<char>,
    replies: Seq<ReplyView>,
)
    requires
        protocol::is_conversation(MigrationRunView::start(files, id), replies),
        replies.len() > 0 ==> last_before(replies) is Ok,
        replies.len() > 0 ==> pending::pending(files, last_before(replies)->Ok_0) is Ok,
        scripts_succeeded(MigrationRunView::start(files, id), replies),
    ensures
        match protocol::after(MigrationRunView::start(files, id), replies).stage {
            RunStageView::Releasing { result } => result is Ok,
            RunStageView::Finished(result) => {
                ||| result is Ok
                ||| replies.len() > 0 && last_before(replies)->Ok_0 is Some && !lock_taken(replies)
            },
            _ => true,
        },
    decreases replies.len(),
{
    let start = MigrationRunView::start(files, id);
    if replies.len() > 0 {
        let front = replies.drop_last();
        let asked = protocol::asked(start, replies);
        protocol::conversation_prefix(start, replies);
        if front.len() > 0 {
            assert(front[0] == replies[0]);
        }
        assert(scripts_succeeded(start, front)) by {
            assert forall|k: int|
                0 <= k < front.len() && is_apply()(
                    #[trigger] protocol::asked(start, front)[k],
                ) implies front[k] == ReplyView::Executed(Ok(Ok(()))) by {
                assert(asked[k] == protocol::asked(start, front)[k]);
                assert(replies[k] == front[k]);
            }
        }
        no_failure_without_reason(files, id, front);
        always_holds(files, id, front);
        always_holds(files, id, replies);
        taken_with_the_last_reply_or_before(replies);
        match protocol::after(start, front).stage {
            RunStageView::Applying { current, .. } => {
                apply_is_apply(current);
                assert(is_apply()(asked[replies.len() - 1]));
                assert(replies[replies.len() - 1] == ReplyView::Executed(Ok(Ok(()))));
            },
            _ => {},
        }
    }
}

} // verus!
