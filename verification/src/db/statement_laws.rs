//! What the statements that are sent to the database hold of the scripts and of the instance.

use crate::db::embedded::EmbeddedFileView;
use crate::db::lock;
use crate::db::migrations::MigrationErrorView;
use crate::db::pending;
use crate::db::pending::ScriptView;
use crate::db::protocol;
use crate::db::protocol::{ReplyView, RequestView, StatementView, ValueView};
use crate::db::run;
use crate::db::run::MigrationRunView;
use crate::db::run_laws;
use crate::db::selection_laws;
use crate::text;
use vstd::prelude::*;

verus! {

/// Whether the request runs all of `content` in one transaction, which then records the migration
/// `id`: the content stands whole and unchanged between the opening of the transaction and the
/// recording.
pub open spec fn runs_whole(request: RequestView, id: Seq<char>, content: Seq<char>) -> bool {
    &&& request matches RequestView::Execute(statement)
    &&& statement.sql.len() == content.len() + 89
    &&& statement.sql.take(6) == "BEGIN;"@
    &&& statement.sql.subrange(6, 6 + content.len() as int) == content
    &&& statement.sql.skip(6 + content.len() as int)
        == " CREATE schema_migration SET migration=$migration, applied_at=time::now(); COMMIT; "@
    &&& statement.bindings.len() == 1
    &&& statement.bindings[0].name == "migration"@
    &&& statement.bindings[0].value == ValueView::Text(id)
}

/// A script is sent whole, in one transaction that also records it.
pub proof fn script_is_sent_whole(script: ScriptView)
    ensures
        runs_whole(RequestView::Execute(run::apply_statement(script)), script.id, script.content),
{
    reveal_strlit("BEGIN;");
    reveal_strlit(
        " CREATE schema_migration SET migration=$migration, applied_at=time::now(); COMMIT; ",
    );
    let sql = run::apply_statement(script).sql;
    let n = script.content.len() as int;
    assert(sql.take(6) =~= "BEGIN;"@);
    assert(sql.subrange(6, 6 + n) =~= script.content);
    assert(sql.skip(6 + n)
        =~= " CREATE schema_migration SET migration=$migration, applied_at=time::now(); COMMIT; "@);
}

/// What a request runs and records, it does for one script only.
pub proof fn request_runs_one_script(
    request: RequestView,
    id: Seq<char>,
    content: Seq<char>,
    other_id: Seq<char>,
    other_content: Seq<char>,
)
    requires
        runs_whole(request, id, content),
        runs_whole(request, other_id, other_content),
    ensures
        id == other_id,
        content == other_content,
{
}

proof fn filter_keeps_order(
    list: Seq<RequestView>,
    p: spec_fn(RequestView) -> bool,
    i: int,
    j: int,
)
    requires
        0 <= i < j < list.len(),
        p(list[i]),
        p(list[j]),
    ensures
        exists|a: int, b: int|
            0 <= a < b < list.filter(p).len() && #[trigger] list.filter(p)[a] == list[i]
                && #[trigger] list.filter(p)[b] == list[j],
    decreases list.len(),
{
    let front = list.drop_last();
    let last = list.last();
    assert(list =~= front.push(last));
    front.lemma_filter_push(last, p);
    if j < front.len() {
        filter_keeps_order(front, p, i, j);
        let (a, b) = choose|a: int, b: int|
            0 <= a < b < front.filter(p).len() && #[trigger] front.filter(p)[a] == front[i]
                && #[trigger] front.filter(p)[b] == front[j];
        assert(list.filter(p)[a] == list[i]);
        assert(list.filter(p)[b] == list[j]);
    } else {
        front.lemma_filter_contains(p, i);
        let a = choose|a: int| 0 <= a < front.filter(p).len() && front.filter(p)[a] == front[i];
        let b = front.filter(p).len() as int;
        assert(list.filter(p)[a] == list[i]);
        assert(list.filter(p)[b] == list[j]);
    }
}

proof fn sent_is_among_the_first(
    files: Seq<EmbeddedFileView>,
    id: Seq<char>,
    replies: Seq<ReplyView>,
    i: int,
)
    requires
        protocol::is_conversation(MigrationRunView::start(files, id), replies),
        0 <= i < replies.len(),
        run_laws::is_apply()(protocol::asked(MigrationRunView::start(files, id), replies)[i]),
    ensures
        replies[0] matches ReplyView::Applied(Ok(Ok(_))),
        ({
            let recorded = replies[0]->Applied_0->Ok_0->Ok_0;
            &&& run_laws::last_before(replies) == Ok::<_, MigrationErrorView>(
                selection_laws::first_of(recorded),
            )
            &&& pending::pending(files, selection_laws::first_of(recorded)) matches Ok(scripts)
            &&& run_laws::are_first(
                run_laws::scripts_sent(MigrationRunView::start(files, id), replies),
                scripts,
            )
        }),
{
    let start = MigrationRunView::start(files, id);
    let asked = protocol::asked(start, replies);
    run_laws::run_begins_with_the_last_applied(files, id, replies);
    match replies[0]->Applied_0 {
        Ok(Ok(recorded)) => {
            selection_laws::first_on_record_was_applied_last(recorded);
        },
        Ok(Err(error)) => {
            run_laws::unknown_state_ends_the_run(files, id, replies, error);
        },
        Err(error) => {
            run_laws::unknown_state_ends_the_run(files, id, replies, error);
        },
    }
    asked.lemma_filter_contains(run_laws::is_apply(), i);
    assert(run_laws::scripts_sent(start, replies).len() > 0);
    run_laws::sent_only_if_readable(files, id, replies);
    let scripts = pending::pending(files, run_laws::last_before(replies)->Ok_0)->Ok_0;
    run_laws::scripts_are_sent_in_order(files, id, replies, scripts);
}

/// Whether the file is a migration of this id, with this text.
pub open spec fn is_file(file: EmbeddedFileView, id: Seq<char>, content: Seq<char>) -> bool {
    selection_laws::is_migration(file, id) && file.text == Some(content)
}

/// All that a run has executed, but for the release of the lock, is whole files: each is a migration
/// that comes after the last applied one, and is recorded under its id.
pub proof fn run_executes_newer_files_only(
    files: Seq<EmbeddedFileView>,
    id: Seq<char>,
    replies: Seq<ReplyView>,
    i: int,
)
    requires
        protocol::is_conversation(MigrationRunView::start(files, id), replies),
        0 <= i < replies.len(),
        protocol::asked(MigrationRunView::start(files, id), replies)[i] is Execute,
        protocol::asked(MigrationRunView::start(files, id), replies)[i] != lock::release_lock(id),
    ensures
        replies[0] matches ReplyView::Applied(Ok(Ok(_))),
        exists|k: int, name: Seq<char>, content: Seq<char>|
            {
                &&& 0 <= k < files.len()
                &&& #[trigger] is_file(files[k], name, content)
                &&& selection_laws::comes_after(
                    name,
                    selection_laws::first_of(replies[0]->Applied_0->Ok_0->Ok_0),
                )
                &&& runs_whole(
                    protocol::asked(MigrationRunView::start(files, id), replies)[i],
                    name,
                    content,
                )
            },
{
    let start = MigrationRunView::start(files, id);
    let asked = protocol::asked(start, replies);
    run_laws::only_scripts_and_the_release_are_executed(files, id, replies, i);
    sent_is_among_the_first(files, id, replies, i);
    let last = selection_laws::first_of(replies[0]->Applied_0->Ok_0->Ok_0);
    let scripts = pending::pending(files, last)->Ok_0;
    let sent = run_laws::scripts_sent(start, replies);
    asked.lemma_filter_contains(run_laws::is_apply(), i);
    let m = choose|m: int| 0 <= m < sent.len() && sent[m] == asked[i];
    assert(sent[m] == run_laws::apply_request(scripts[m]));
    script_is_sent_whole(scripts[m]);
    selection_laws::every_script_is_a_newer_file(files, last, m);
    let k = choose|k: int|
        0 <= k < files.len() && selection_laws::is_migration(#[trigger] files[k], scripts[m].id)
            && files[k].text == Some(scripts[m].content);
    assert(is_file(files[k], scripts[m].id, scripts[m].content));
}

/// A run that succeeds has run every file of a migration that comes after the last applied one, whole,
/// and recorded it under its id.
pub proof fn successful_run_executes_every_newer_file(
    files: Seq<EmbeddedFileView>,
    id: Seq<char>,
    replies: Seq<ReplyView>,
    k: int,
    name: Seq<char>,
)
    requires
        protocol::is_conversation(MigrationRunView::start(files, id), replies),
        protocol::after(MigrationRunView::start(files, id), replies).outcome() == Some(
            Ok::<(), MigrationErrorView>(()),
        ),
        0 <= k < files.len(),
        selection_laws::is_migration(files[k], name),
        replies[0] matches ReplyView::Applied(Ok(Ok(recorded))) ==> selection_laws::comes_after(
            name,
            selection_laws::first_of(recorded),
        ),
    ensures
        files[k].text is Some,
        exists|i: int|
            0 <= i < replies.len() && #[trigger] runs_whole(
                protocol::asked(MigrationRunView::start(files, id), replies)[i],
                name,
                files[k].text->0,
            ),
{
    let start = MigrationRunView::start(files, id);
    let asked = protocol::asked(start, replies);
    run_laws::success_sends_every_script(files, id, replies);
    run_laws::run_begins_with_the_last_applied(files, id, replies);
    match replies[0]->Applied_0 {
        Ok(Ok(recorded)) => {
            selection_laws::first_on_record_was_applied_last(recorded);
        },
        Ok(Err(error)) => {
            run_laws::unknown_state_ends_the_run(files, id, replies, error);
        },
        Err(error) => {
            run_laws::unknown_state_ends_the_run(files, id, replies, error);
        },
    }
    let last = run_laws::last_before(replies)->Ok_0;
    let scripts = pending::pending(files, last)->Ok_0;
    let sent = run_laws::scripts_sent(start, replies);
    selection_laws::every_newer_file_is_pending(files, last, k, name);
    let script = ScriptView { id: name, content: files[k].text->0 };
    let m = choose|m: int| 0 <= m < scripts.len() && scripts[m] == script;
    assert(sent[m] == run_laws::apply_request(script));
    script_is_sent_whole(script);
    assert(sent.contains(sent[m]));
    asked.lemma_filter_contains_rev(run_laws::is_apply(), sent[m]);
    let i = choose|i: int| 0 <= i < asked.len() && asked[i] == sent[m];
    assert(runs_whole(asked[i], name, files[k].text->0));
}

/// Migrations are run by id, the smallest first.
pub proof fn smaller_ids_run_first(
    files: Seq<EmbeddedFileView>,
    id: Seq<char>,
    replies: Seq<ReplyView>,
    i: int,
    j: int,
    earlier: ScriptView,
    later: ScriptView,
)
    requires
        protocol::is_conversation(MigrationRunView::start(files, id), replies),
        0 <= i < j < replies.len(),
        runs_whole(
            protocol::asked(MigrationRunView::start(files, id), replies)[i],
            earlier.id,
            earlier.content,
        ),
        runs_whole(
            protocol::asked(MigrationRunView::start(files, id), replies)[j],
            later.id,
            later.content,
        ),
    ensures
        !text::is_smaller(later.id, earlier.id),
{
    let start = MigrationRunView::start(files, id);
    let asked = protocol::asked(start, replies);
    assert(lock::lock_statement(lock::RELEASE_LOCK@, id).bindings.len() == 2);
    run_laws::only_scripts_and_the_release_are_executed(files, id, replies, i);
    run_laws::only_scripts_and_the_release_are_executed(files, id, replies, j);
    sent_is_among_the_first(files, id, replies, i);
    let last = selection_laws::first_of(replies[0]->Applied_0->Ok_0->Ok_0);
    let scripts = pending::pending(files, last)->Ok_0;
    let sent = run_laws::scripts_sent(start, replies);
    filter_keeps_order(asked, run_laws::is_apply(), i, j);
    let (a, b) = choose|a: int, b: int|
        0 <= a < b < sent.len() && #[trigger] sent[a] == asked[i] && #[trigger] sent[b]
            == asked[j];
    script_is_sent_whole(scripts[a]);
    script_is_sent_whole(scripts[b]);
    request_runs_one_script(
        asked[i],
        earlier.id,
        earlier.content,
        scripts[a].id,
        scripts[a].content,
    );
    request_runs_one_script(asked[j], later.id, later.content, scripts[b].id, scripts[b].content);
    selection_laws::scripts_come_by_id(files, last, a, b);
}

/// Whether a statement is about the one lock of the schema and this instance.
pub open spec fn is_about(statement: StatementView, id: Seq<char>) -> bool {
    &&& statement.bindings.len() == 2
    &&& statement.bindings[0].name == "lock_id"@
    &&& statement.bindings[0].value matches ValueView::Record(record)
    &&& record.table == "schema_lock"@
    &&& record.key == "singleton"@
    &&& statement.bindings[1].name == "instance_id"@
    &&& statement.bindings[1].value == ValueView::Text(id)
}

/// The lock is taken and given back in the name of the whole instance id, and only where it is free,
/// or held by that instance.
pub proof fn lock_goes_by_the_whole_id(id: Seq<char>)
    ensures
        lock::take_lock(id) matches RequestView::UpdateLock(statement) && {
            &&& is_about(statement, id)
            &&& statement.sql
                == "UPDATE $lock_id SET locked=true, locked_at=time::now(), instance_id=$instance_id WHERE locked = false;"@
        },
        lock::release_lock(id) matches RequestView::Execute(statement) && {
            &&& is_about(statement, id)
            &&& statement.sql
                == "\n            UPDATE $lock_id SET locked = false WHERE locked = true AND instance_id = $instance_id;\n        "@
        },
{
}

/// What is asked in the name of one instance is not asked in the name of another.
pub proof fn instances_are_told_apart(id: Seq<char>, other: Seq<char>)
    requires
        id != other,
    ensures
        lock::take_lock(id) != lock::take_lock(other),
        lock::release_lock(id) != lock::release_lock(other),
{
    let (a, b) = (lock::take_lock(id)->UpdateLock_0, lock::take_lock(other)->UpdateLock_0);
    assert(a.bindings[1] != b.bindings[1]);
    let (c, d) = (lock::release_lock(id)->Execute_0, lock::release_lock(other)->Execute_0);
    assert(c.bindings[1] != d.bindings[1]);
}

} // verus!
