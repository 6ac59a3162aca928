//! Which scripts are pending, told from the embedded files and the last applied id alone.
//!
//! Two laws settle it: the scripts come by id, and those of one id are its files, if the id comes
//! after the last applied one.

use crate::db::embedded::EmbeddedFileView;
use crate::db::migrations;
use crate::db::migrations::MigrationErrorView;
use crate::db::pending;
use crate::db::pending::ScriptView;
use crate::db::pending_laws;
use crate::path;
use crate::path_laws;
use crate::text;
use vstd::prelude::*;

verus! {

/// Whether the file is the migration `id`: its name is the id and the extension `.surql`.
pub open spec fn is_migration(file: EmbeddedFileView, id: Seq<char>) -> bool {
    id.len() > 0 && path::file_name(file.path) == Some(id + ".surql"@)
}

/// Whether a migration of this id comes after the last applied one: it has a larger id, or nothing
/// was applied.
pub open spec fn comes_after(id: Seq<char>, last_applied: Option<Seq<char>>) -> bool {
    last_applied matches Some(last) ==> text::is_smaller(last, id)
}

/// Which files are the migration `id`.
pub open spec fn migration(id: Seq<char>) -> spec_fn(EmbeddedFileView) -> bool {
    |file: EmbeddedFileView| is_migration(file, id)
}

/// Which scripts have the id.
pub open spec fn script_of(id: Seq<char>) -> spec_fn(ScriptView) -> bool {
    |script: ScriptView| script.id == id
}

/// What a file of the migration `id` runs: all of its text.
pub open spec fn contents(id: Seq<char>) -> spec_fn(EmbeddedFileView) -> ScriptView {
    |file: EmbeddedFileView| ScriptView { id, content: file.text->0 }
}

proof fn script_is_migration(file: EmbeddedFileView, id: Seq<char>)
    ensures
        (pending::is_script(file) && pending::id_of(file) == id) <==> is_migration(file, id),
{
    reveal_strlit("surql");
    reveal_strlit(".surql");
    assert(id.push('.') + "surql"@ =~= id + ".surql"@);
    if pending::is_script(file) && pending::id_of(file) == id {
        path_laws::stem_and_extension_make_the_name(file.path);
    }
    if is_migration(file, id) {
        path_laws::last_dot_parts_stem_and_extension(file.path, id, "surql"@);
    }
}

proof fn newer_comes_after(id: Seq<char>, last_applied: Option<Seq<char>>)
    ensures
        pending::is_newer(id, last_applied) <==> comes_after(id, last_applied),
{
    if let Some(last) = last_applied {
        text::order_is_lexicographic(last, id);
    }
}

/// A file is wanted if and only if it is a migration that comes after the last applied one.
proof fn wanted_is_newer_migration(
    file: EmbeddedFileView,
    id: Seq<char>,
    last_applied: Option<Seq<char>>,
)
    ensures
        (pending::wanted(last_applied)(file) && pending::id_of(file) == id) <==> (is_migration(
            file,
            id,
        ) && comes_after(id, last_applied)),
{
    script_is_migration(file, id);
    newer_comes_after(id, last_applied);
}

proof fn scripts_with_id(files: Seq<EmbeddedFileView>, id: Seq<char>)
    requires
        pending::read_all(files) is Ok,
    ensures
        pending::read_all(files)->Ok_0.filter(script_of(id)) == files.filter(
            pending_laws::has_id(id),
        ).map_values(contents(id)),
        forall|i: int|
            0 <= i < files.filter(pending_laws::has_id(id)).len() ==> (#[trigger] files.filter(
                pending_laws::has_id(id),
            )[i]).text is Some,
    decreases files.len(),
{
    let p = pending_laws::has_id(id);
    if files.len() > 0 {
        let front = files.drop_last();
        let file = files.last();
        scripts_with_id(front, id);
        assert(files =~= front.push(file));
        front.lemma_filter_push(file, p);
        let scripts = pending::read_all(front)->Ok_0;
        let script = ScriptView { id: pending::id_of(file), content: file.text->0 };
        scripts.lemma_filter_push(script, script_of(id));
        assert(pending::read_all(files)->Ok_0 == scripts.push(script));
        if pending::id_of(file) == id {
            assert(files.filter(p) =~= front.filter(p).push(file));
            assert(files.filter(p).map_values(contents(id)) =~= front.filter(p).map_values(
                contents(id),
            ).push(script));
        }
    } else {
        reveal(Seq::filter);
        assert(files.filter(p) =~= seq![]);
        assert(Seq::<ScriptView>::empty().filter(script_of(id)) =~= seq![]);
        assert(files.filter(p).map_values(contents(id)) =~= seq![]);
    }
}

/// The wanted files of an id are its migration files, in the order of the directory, if the id comes
/// after the last applied one; else there are none.
proof fn wanted_of_an_id(
    files: Seq<EmbeddedFileView>,
    last_applied: Option<Seq<char>>,
    id: Seq<char>,
)
    ensures
        pending::in_order(files.filter(pending::wanted(last_applied))).filter(
            pending_laws::has_id(id),
        ) == if comes_after(id, last_applied) {
            files.filter(migration(id))
        } else {
            seq![]
        },
{
    let w = pending::wanted(last_applied);
    let p = pending_laws::has_id(id);
    let both = |file: EmbeddedFileView| w(file) && p(file);
    pending_laws::equal_ids_keep_their_order(files.filter(w), id);
    pending_laws::filter_twice(files, w, p, both);
    assert forall|file: EmbeddedFileView| #[trigger] both(file) == (migration(id)(file)
        && comes_after(id, last_applied)) by {
        wanted_is_newer_migration(file, id, last_applied);
    }
    if comes_after(id, last_applied) {
        assert(both =~= migration(id));
    } else {
        let none = files.filter(both);
        if none.len() > 0 {
            files.lemma_filter_pred(both, 0);
        }
        assert(none =~= seq![]);
    }
}

/// The pending scripts of an id are the files of that migration, each with all of its text, in the
/// order of the directory, if the id comes after the last applied one; else there are none.
pub proof fn scripts_of_an_id_are_its_files(
    files: Seq<EmbeddedFileView>,
    last_applied: Option<Seq<char>>,
    id: Seq<char>,
)
    ensures
        pending::pending(files, last_applied) matches Ok(scripts) ==> scripts.filter(script_of(id))
            == if comes_after(id, last_applied) {
            files.filter(migration(id)).map_values(contents(id))
        } else {
            seq![]
        },
{
    let ordered = pending::in_order(files.filter(pending::wanted(last_applied)));
    if pending::read_all(ordered) is Ok {
        scripts_with_id(ordered, id);
        wanted_of_an_id(files, last_applied, id);
        let none: Seq<EmbeddedFileView> = seq![];
        assert(none.map_values(contents(id)) =~= seq![]);
    }
}

/// The pending scripts come by id, the smallest first.
pub proof fn scripts_come_by_id(
    files: Seq<EmbeddedFileView>,
    last_applied: Option<Seq<char>>,
    i: int,
    j: int,
)
    requires
        pending::pending(files, last_applied) is Ok,
        0 <= i < j < pending::pending(files, last_applied)->Ok_0.len(),
    ensures
        ({
            let scripts = pending::pending(files, last_applied)->Ok_0;
            !text::is_smaller(scripts[j].id, scripts[i].id)
        }),
{
    let scripts = pending::pending(files, last_applied)->Ok_0;
    pending_laws::pending_are_newer_and_ordered(files, last_applied);
    text::order_is_lexicographic(scripts[j].id, scripts[i].id);
}

/// Every pending script is a file of that migration, with all of its text, and comes after the last
/// applied one.
pub proof fn every_script_is_a_newer_file(
    files: Seq<EmbeddedFileView>,
    last_applied: Option<Seq<char>>,
    i: int,
)
    requires
        pending::pending(files, last_applied) is Ok,
        0 <= i < pending::pending(files, last_applied)->Ok_0.len(),
    ensures
        ({
            let script = pending::pending(files, last_applied)->Ok_0[i];
            &&& comes_after(script.id, last_applied)
            &&& exists|k: int|
                0 <= k < files.len() && is_migration(#[trigger] files[k], script.id)
                    && files[k].text == Some(script.content)
        }),
{
    let scripts = pending::pending(files, last_applied)->Ok_0;
    let script = scripts[i];
    let ordered = pending::in_order(files.filter(pending::wanted(last_applied)));
    scripts_of_an_id_are_its_files(files, last_applied, script.id);
    scripts_with_id(ordered, script.id);
    wanted_of_an_id(files, last_applied, script.id);
    scripts.lemma_filter_contains(script_of(script.id), i);
    let p = migration(script.id);
    let same = files.filter(p);
    let mapped = same.map_values(contents(script.id));
    assert(mapped.contains(script));
    let m = choose|m: int| 0 <= m < mapped.len() && mapped[m] == script;
    files.lemma_filter_pred(p, m);
    assert(same.contains(same[m]));
    files.lemma_filter_contains_rev(p, same[m]);
    let k = choose|k: int| 0 <= k < files.len() && files[k] == same[m];
    assert(is_migration(files[k], script.id));
}

/// Every file of a migration that comes after the last applied one is text, and among the pending
/// scripts, unless there is an error.
pub proof fn every_newer_file_is_pending(
    files: Seq<EmbeddedFileView>,
    last_applied: Option<Seq<char>>,
    k: int,
    id: Seq<char>,
)
    requires
        0 <= k < files.len(),
        is_migration(files[k], id),
        comes_after(id, last_applied),
    ensures
        pending::pending(files, last_applied) matches Ok(scripts) ==> files[k].text is Some
            && scripts.contains(ScriptView { id, content: files[k].text->0 }),
{
    wanted_is_newer_migration(files[k], id, last_applied);
    pending_laws::no_newer_script_is_left_out(files, last_applied, k);
}

/// Whether the file is a migration that comes after the last applied one, but no text.
pub open spec fn is_unreadable(
    file: EmbeddedFileView,
    id: Seq<char>,
    last_applied: Option<Seq<char>>,
) -> bool {
    is_migration(file, id) && comes_after(id, last_applied) && file.text is None
}

/// Which files are the migration `id` but no text, if it comes after the last applied one.
pub open spec fn unreadable(id: Seq<char>, last_applied: Option<Seq<char>>) -> spec_fn(
    EmbeddedFileView,
) -> bool {
    |file: EmbeddedFileView| is_unreadable(file, id, last_applied)
}

proof fn first_of_filter(
    files: Seq<EmbeddedFileView>,
    p: spec_fn(EmbeddedFileView) -> bool,
    i: int,
)
    requires
        0 <= i < files.len(),
        p(files[i]),
        forall|j: int| 0 <= j < i ==> !p(#[trigger] files[j]),
    ensures
        files.filter(p).len() > 0,
        files.filter(p)[0] == files[i],
    decreases files.len(),
{
    let front = files.drop_last();
    let file = files.last();
    assert(files =~= front.push(file));
    front.lemma_filter_push(file, p);
    if i < front.len() {
        assert(front[i] == files[i]);
        assert forall|j: int| 0 <= j < i implies !p(#[trigger] front[j]) by {
            assert(front[j] == files[j]);
        }
        first_of_filter(front, p, i);
    } else {
        if front.filter(p).len() > 0 {
            let first = front.filter(p)[0];
            front.lemma_filter_pred(p, 0);
            assert(front.filter(p).contains(first));
            front.lemma_filter_contains_rev(p, first);
            let j = choose|j: int| 0 <= j < front.len() && front[j] == first;
            assert(files[j] == first);
        }
    }
}

/// An error is reported if and only if some file of a migration that comes after the last applied one
/// is no text. It names the first such file of its id, in the order of the directory, and no file with
/// a smaller id is like it.
pub proof fn error_names_the_first_unreadable_file(
    files: Seq<EmbeddedFileView>,
    last_applied: Option<Seq<char>>,
)
    ensures
        match pending::pending(files, last_applied) {
            Ok(_) => forall|k: int, id: Seq<char>|
                0 <= k < files.len() ==> !#[trigger] is_unreadable(files[k], id, last_applied),
            Err(error) => exists|k: int, id: Seq<char>|
                {
                    &&& 0 <= k < files.len()
                    &&& #[trigger] is_unreadable(files[k], id, last_applied)
                    &&& error == MigrationErrorView::InvalidUtf8(files[k].path)
                    &&& files[k] == files.filter(unreadable(id, last_applied))[0]
                    &&& forall|l: int, other: Seq<char>|
                        0 <= l < files.len() && #[trigger] is_unreadable(
                            files[l],
                            other,
                            last_applied,
                        ) ==> !text::is_smaller(other, id)
                },
        },
{
    broadcast use vstd::seq_lib::group_to_multiset_ensures;

    let w = pending::wanted(last_applied);
    let kept = files.filter(w);
    let ordered = pending::in_order(kept);
    pending_laws::in_order_is_ordered(kept);
    pending_laws::read_all_reads_all(ordered);
    assert forall|k: int, id: Seq<char>|
        0 <= k < files.len() && #[trigger] is_unreadable(
            files[k],
            id,
            last_applied,
        ) implies ordered.contains(files[k]) && pending::id_of(files[k]) == id by {
        wanted_is_newer_migration(files[k], id, last_applied);
        files.lemma_filter_contains(w, k);
        assert(kept.to_multiset().count(files[k]) > 0);
    }
    match pending::pending(files, last_applied) {
        Ok(_) => {
            assert forall|k: int, id: Seq<char>|
                0 <= k < files.len() implies !#[trigger] is_unreadable(
                files[k],
                id,
                last_applied,
            ) by {
                if is_unreadable(files[k], id, last_applied) {
                    let i = choose|i: int| 0 <= i < ordered.len() && ordered[i] == files[k];
                    assert(ordered[i].text is Some);
                }
            }
        },
        Err(error) => {
            let i = choose|i: int|
                {
                    &&& 0 <= i < ordered.len()
                    &&& (#[trigger] ordered[i]).text is None
                    &&& error == MigrationErrorView::InvalidUtf8(ordered[i].path)
                    &&& forall|j: int| 0 <= j < i ==> (#[trigger] ordered[j]).text is Some
                };
            let file = ordered[i];
            let id = pending::id_of(file);
            assert(ordered.to_multiset().count(file) > 0);
            assert(kept.contains(file));
            let m = choose|m: int| 0 <= m < kept.len() && kept[m] == file;
            files.lemma_filter_pred(w, m);
            files.lemma_filter_contains_rev(w, file);
            let k = choose|k: int| 0 <= k < files.len() && files[k] == file;
            wanted_is_newer_migration(file, id, last_applied);
            assert(is_unreadable(files[k], id, last_applied));
            let q = |f: EmbeddedFileView| pending::id_of(f) == id && f.text is None;
            first_of_filter(ordered, q, i);
            pending_laws::picking_commutes_with_ordering(kept, q);
            pending_laws::filter_twice(files, w, q, |f: EmbeddedFileView| w(f) && q(f));
            assert((|f: EmbeddedFileView| w(f) && q(f)) =~= unreadable(id, last_applied)) by {
                assert forall|f: EmbeddedFileView| (w(f) && q(f)) == #[trigger] unreadable(
                    id,
                    last_applied,
                )(f) by {
                    wanted_is_newer_migration(f, id, last_applied);
                }
            }
            let alike = kept.filter(q);
            assert forall|n: int| 0 <= n < alike.len() implies pending::id_of(
                #[trigger] alike[n],
            ) == id by {
                kept.lemma_filter_pred(q, n);
            }
            pending_laws::files_of_one_id_are_in_order(alike, id);
            assert forall|l: int, other: Seq<char>|
                0 <= l < files.len() && #[trigger] is_unreadable(
                    files[l],
                    other,
                    last_applied,
                ) implies !text::is_smaller(other, id) by {
                let j = choose|j: int| 0 <= j < ordered.len() && ordered[j] == files[l];
                text::order_is_lexicographic(other, id);
                assert(ordered[j].text is None);
                if j == i {
                    text::precedes_is_irreflexive(id);
                }
            }
        },
    }
}

/// The last applied id, as the database tells it.
pub open spec fn first_of(recorded: Seq<Seq<char>>) -> Option<Seq<char>> {
    if recorded.len() == 0 {
        None
    } else {
        Some(recorded[0])
    }
}

/// Whether the file is a migration that comes after what the database has on record first.
pub open spec fn is_behind(
    file: EmbeddedFileView,
    id: Seq<char>,
    recorded: Seq<Seq<char>>,
) -> bool {
    is_migration(file, id) && comes_after(id, first_of(recorded))
}

/// The check of the schema finds it up to date if and only if no file is a migration that comes after
/// the last applied one. It finds it out of date only if there is one, and fails only if there is one
/// that is no text.
pub proof fn schema_is_up_to_date_without_newer_files(
    files: Seq<EmbeddedFileView>,
    recorded: Seq<Seq<char>>,
)
    ensures
        migrations::has_pending(files, Ok(Ok(recorded))) == Ok::<bool, MigrationErrorView>(false)
            <==> forall|k: int, id: Seq<char>|
            0 <= k < files.len() ==> !#[trigger] is_behind(files[k], id, recorded),
        migrations::has_pending(files, Ok(Ok(recorded))) == Ok::<bool, MigrationErrorView>(false)
            ==> pending::pending(files, first_of(recorded)) == Ok::<
            Seq<ScriptView>,
            MigrationErrorView,
        >(seq![]),
        migrations::has_pending(files, Ok(Ok(recorded))) is Err <==> exists|k: int, id: Seq<char>|
            0 <= k < files.len() && #[trigger] is_unreadable(files[k], id, first_of(recorded)),
        migrations::has_pending(files, Ok(Ok(recorded))) is Err ==> migrations::has_pending(
            files,
            Ok(Ok(recorded)),
        )->Err_0 == pending::pending(files, first_of(recorded))->Err_0,
{
    let last = first_of(recorded);
    error_names_the_first_unreadable_file(files, last);
    match pending::pending(files, last) {
        Err(_) => {
            let (k, id) = choose|k: int, id: Seq<char>|
                0 <= k < files.len() && #[trigger] is_unreadable(files[k], id, last);
            assert(is_behind(files[k], id, recorded));
        },
        Ok(scripts) => {
            if scripts.len() > 0 {
                every_script_is_a_newer_file(files, last, 0);
                let k = choose|k: int|
                    0 <= k < files.len() && is_migration(#[trigger] files[k], scripts[0].id)
                        && files[k].text == Some(scripts[0].content);
                assert(is_behind(files[k], scripts[0].id, recorded));
            } else {
                assert(scripts =~= seq![]);
                assert forall|k: int, id: Seq<char>|
                    0 <= k < files.len() implies !#[trigger] is_behind(files[k], id, recorded) by {
                    if is_behind(files[k], id, recorded) {
                        every_newer_file_is_pending(files, last, k, id);
                    }
                }
            }
        },
    }
}

/// What the database fails to tell is reported as it is.
pub proof fn unknown_state_is_an_error(files: Seq<EmbeddedFileView>, error: Seq<char>)
    ensures
        migrations::has_pending(files, Err(error)) == Err::<bool, MigrationErrorView>(
            MigrationErrorView::DBError { source: error },
        ),
        migrations::has_pending(files, Ok(Err(error))) == Err::<bool, MigrationErrorView>(
            MigrationErrorView::DBError { source: error },
        ),
        migrations::last_applied_result(Err(error)) == Err::<Option<Seq<char>>, MigrationErrorView>(
            MigrationErrorView::DBError { source: error },
        ),
        migrations::last_applied_result(Ok(Err(error))) == Err::<
            Option<Seq<char>>,
            MigrationErrorView,
        >(MigrationErrorView::DBError { source: error }),
{
}

/// The migration that was applied last is the first that the database tells of.
pub proof fn first_on_record_was_applied_last(recorded: Seq<Seq<char>>)
    ensures
        migrations::last_applied_result(Ok(Ok(recorded))) == Ok::<
            Option<Seq<char>>,
            MigrationErrorView,
        >(first_of(recorded)),
{
}

} // verus!
