//! What holds of the migrations that are still to be applied.

use crate::db::embedded::EmbeddedFileView;
use crate::db::migrations::MigrationErrorView;
use crate::db::pending;
use crate::db::pending::ScriptView;
use crate::text;
use vstd::prelude::*;

verus! {

/// Whether no file has a smaller id than one that stands before it.
pub open spec fn is_ordered(files: Seq<EmbeddedFileView>) -> bool {
    forall|i: int, j: int|
        0 <= i < j < files.len() ==> !text::precedes(pending::id_of(#[trigger] files[j]), pending::id_of(#[trigger] files[i]))
}

/// Which scripts have an id larger than `id`.
pub open spec fn newer_than(id: Seq<char>) -> spec_fn(ScriptView) -> bool {
    |script: ScriptView| text::precedes(id, script.id)
}

/// Which files have an id larger than `id`.
spec fn file_newer_than(id: Seq<char>) -> spec_fn(EmbeddedFileView) -> bool {
    |file: EmbeddedFileView| text::precedes(id, pending::id_of(file))
}

/// Every file that is a migration has an id.
pub proof fn every_script_has_an_id(file: EmbeddedFileView)
    requires
        pending::is_script(file),
    ensures
        crate::path::file_stem(file.path) == Some(pending::id_of(file)),
{
}

proof fn not_before_is_transitive(a: Seq<char>, b: Seq<char>, c: Seq<char>)
    requires
        !text::precedes(b, a),
        !text::precedes(c, b),
    ensures
        !text::precedes(c, a),
{
    if text::precedes(c, a) {
        text::precedes_is_total(a, b);
        text::precedes_is_total(b, c);
        if a == b || b == c {
        } else {
            text::precedes_is_transitive(a, b, c);
            text::precedes_is_total(a, c);
        }
    }
}

proof fn put_in_order_keeps_order(ordered: Seq<EmbeddedFileView>, file: EmbeddedFileView)
    requires
        is_ordered(ordered),
    ensures
        is_ordered(pending::put_in_order(ordered, file)),
        pending::put_in_order(ordered, file).to_multiset() == ordered.to_multiset().insert(file),
        forall|i: int|
            0 <= i < pending::put_in_order(ordered, file).len() ==> {
                let f = #[trigger] pending::put_in_order(ordered, file)[i];
                f == file || ordered.contains(f)
            },
    decreases ordered.len(),
{
    broadcast use vstd::seq_lib::group_to_multiset_ensures;

    let put = pending::put_in_order(ordered, file);
    if ordered.len() > 0 && text::precedes(pending::id_of(file), pending::id_of(ordered.last())) {
        let front = ordered.drop_last();
        put_in_order_keeps_order(front, file);
        let inner = pending::put_in_order(front, file);
        assert(ordered =~= front.push(ordered.last()));
        assert(put.to_multiset() =~= ordered.to_multiset().insert(file));
        assert forall|i: int| 0 <= i < put.len() implies {
            let f = #[trigger] put[i];
            f == file || ordered.contains(f)
        } by {
            if i < inner.len() {
                let f = inner[i];
                if f != file {
                    let k = choose|k: int| 0 <= k < front.len() && front[k] == f;
                    assert(ordered[k] == f);
                }
            } else {
                assert(ordered[ordered.len() - 1] == put[i]);
            }
        }
        assert forall|i: int, j: int| 0 <= i < j < put.len() implies !text::precedes(
            pending::id_of(#[trigger] put[j]),
            pending::id_of(#[trigger] put[i]),
        ) by {
            if j < inner.len() {
                assert(put[i] == inner[i] && put[j] == inner[j]);
            } else {
                let f = inner[i];
                assert(put[i] == f);
                if f == file {
                    text::precedes_is_total(pending::id_of(file), pending::id_of(ordered.last()));
                } else {
                    let k = choose|k: int| 0 <= k < front.len() && front[k] == f;
                    assert(ordered[k] == f);
                }
            }
        }
    } else {
        assert forall|i: int, j: int| 0 <= i < j < put.len() implies !text::precedes(
            pending::id_of(#[trigger] put[j]),
            pending::id_of(#[trigger] put[i]),
        ) by {
            if j == ordered.len() {
                if i < j - 1 {
                    assert(!text::precedes(pending::id_of(ordered[j - 1]), pending::id_of(ordered[i])));
                    not_before_is_transitive(pending::id_of(ordered[i]), pending::id_of(ordered[j - 1]), pending::id_of(file));
                }
            } else {
                assert(put[i] == ordered[i] && put[j] == ordered[j]);
            }
        }
        assert forall|i: int| 0 <= i < put.len() implies {
            let f = #[trigger] put[i];
            f == file || ordered.contains(f)
        } by {
            if i < ordered.len() {
                assert(ordered[i] == put[i]);
            }
        }
    }
}

/// Putting files in order loses none, adds none, and orders them by id.
pub proof fn in_order_is_ordered(files: Seq<EmbeddedFileView>)
    ensures
        is_ordered(pending::in_order(files)),
        pending::in_order(files).to_multiset() == files.to_multiset(),
        pending::in_order(files).len() == files.len(),
    decreases files.len(),
{
    broadcast use vstd::seq_lib::group_to_multiset_ensures;

    if files.len() > 0 {
        in_order_is_ordered(files.drop_last());
        put_in_order_keeps_order(pending::in_order(files.drop_last()), files.last());
        assert(files =~= files.drop_last().push(files.last()));
    }
    assert(pending::in_order(files).to_multiset() =~= files.to_multiset());
    assert(pending::in_order(files).len() == pending::in_order(files).to_multiset().len());
    assert(files.len() == files.to_multiset().len());
}

proof fn filter_of_put(
    ordered: Seq<EmbeddedFileView>,
    file: EmbeddedFileView,
    p: spec_fn(EmbeddedFileView) -> bool,
)
    requires
        is_ordered(ordered),
    ensures
        pending::put_in_order(ordered, file).filter(p) == if p(file) {
            pending::put_in_order(ordered.filter(p), file)
        } else {
            ordered.filter(p)
        },
    decreases ordered.len(),
{
    if ordered.len() > 0 && text::precedes(pending::id_of(file), pending::id_of(ordered.last())) {
        let front = ordered.drop_last();
        filter_of_put(front, file, p);
        pending::put_in_order(front, file).lemma_filter_push(ordered.last(), p);
        front.lemma_filter_push(ordered.last(), p);
        assert(ordered =~= front.push(ordered.last()));
        if p(ordered.last()) {
            let kept = front.filter(p).push(ordered.last());
            assert(kept.drop_last() =~= front.filter(p));
        }
    } else {
        ordered.lemma_filter_push(file, p);
        let kept = ordered.filter(p);
        if p(file) && kept.len() > 0 {
            let f = kept.last();
            assert(kept[kept.len() - 1] == f);
            ordered.lemma_filter_contains_rev(p, f);
            let k = choose|k: int| 0 <= k < ordered.len() && ordered[k] == f;
            if k < ordered.len() - 1 {
                assert(!text::precedes(pending::id_of(ordered[ordered.len() - 1]), pending::id_of(ordered[k])));
                not_before_is_transitive(pending::id_of(f), pending::id_of(ordered.last()), pending::id_of(file));
            }
        }
    }
}

/// It does not matter whether files are picked before or after they are put in order. With the
/// files of a single id picked, this says that these keep the order in which they came.
pub proof fn picking_commutes_with_ordering(
    files: Seq<EmbeddedFileView>,
    p: spec_fn(EmbeddedFileView) -> bool,
)
    ensures
        pending::in_order(files.filter(p)) == pending::in_order(files).filter(p),
    decreases files.len(),
{
    if files.len() > 0 {
        let front = files.drop_last();
        let file = files.last();
        picking_commutes_with_ordering(front, p);
        in_order_is_ordered(front);
        filter_of_put(pending::in_order(front), file, p);
        assert(files =~= front.push(file));
        front.lemma_filter_push(file, p);
        if p(file) {
            let kept = front.filter(p).push(file);
            assert(kept.drop_last() =~= front.filter(p));
        }
    } else {
        reveal(Seq::filter);
        assert(files.filter(p) =~= seq![]);
        assert(pending::in_order(files).filter(p) =~= seq![]);
    }
}

/// Which files have the id.
pub open spec fn has_id(id: Seq<char>) -> spec_fn(EmbeddedFileView) -> bool {
    |file: EmbeddedFileView| pending::id_of(file) == id
}

/// Files of one id keep the order in which they came.
pub proof fn equal_ids_keep_their_order(files: Seq<EmbeddedFileView>, id: Seq<char>)
    ensures
        pending::in_order(files).filter(has_id(id)) == files.filter(has_id(id)),
{
    picking_commutes_with_ordering(files, has_id(id));
    let same = files.filter(has_id(id));
    assert forall|i: int| 0 <= i < same.len() implies pending::id_of(#[trigger] same[i]) == id by {
        files.lemma_filter_pred(has_id(id), i);
    }
    files_of_one_id_are_in_order(same, id);
}

pub(crate) proof fn files_of_one_id_are_in_order(files: Seq<EmbeddedFileView>, id: Seq<char>)
    requires
        forall|i: int| 0 <= i < files.len() ==> pending::id_of(#[trigger] files[i]) == id,
    ensures
        pending::in_order(files) == files,
    decreases files.len(),
{
    if files.len() > 0 {
        files_of_one_id_are_in_order(files.drop_last(), id);
        text::precedes_is_irreflexive(id);
        assert(files.drop_last().push(files.last()) =~= files);
    } else {
        assert(files =~= seq![]);
    }
}

/// The scripts are those of the files, in the same order; they are all there if and only if every
/// file is text. Else the error names the first file that is not.
pub proof fn read_all_reads_all(files: Seq<EmbeddedFileView>)
    ensures
        match pending::read_all(files) {
            Ok(scripts) => {
                &&& scripts.len() == files.len()
                &&& forall|i: int|
                    0 <= i < files.len() ==> #[trigger] files[i].text == Some(scripts[i].content)
                        && scripts[i].id == pending::id_of(files[i])
            },
            Err(error) => exists|i: int|
                {
                    &&& 0 <= i < files.len()
                    &&& (#[trigger] files[i]).text is None
                    &&& error == MigrationErrorView::InvalidUtf8(files[i].path)
                    &&& forall|j: int| 0 <= j < i ==> (#[trigger] files[j]).text is Some
                },
        },
    decreases files.len(),
{
    if files.len() > 0 {
        let front = files.drop_last();
        read_all_reads_all(front);
        match pending::read_all(front) {
            Err(error) => {
                let i = choose|i: int|
                    {
                        &&& 0 <= i < front.len()
                        &&& (#[trigger] front[i]).text is None
                        &&& error == MigrationErrorView::InvalidUtf8(front[i].path)
                        &&& forall|j: int| 0 <= j < i ==> (#[trigger] front[j]).text is Some
                    };
                assert(files[i] == front[i]);
                assert forall|j: int| 0 <= j < i implies (#[trigger] files[j]).text is Some by {
                    assert(front[j] == files[j]);
                }
            },
            Ok(scripts) => {
                assert forall|j: int| 0 <= j < front.len() implies (
                #[trigger] files[j]).text is Some by {
                    assert(front[j] == files[j]);
                }
                if files.last().text is Some {
                    let all = pending::read_all(files)->Ok_0;
                    assert forall|i: int| 0 <= i < files.len() implies #[trigger] files[i].text
                        == Some(all[i].content) && all[i].id == pending::id_of(files[i]) by {
                        if i < front.len() {
                            assert(front[i] == files[i]);
                        }
                    }
                } else {
                    assert(files[files.len() - 1].text is None);
                }
            },
        }
    }
}

/// The pending migrations, where they can all be read, are in the order of their ids, and each is
/// newer than the last applied one.
pub proof fn pending_are_newer_and_ordered(
    files: Seq<EmbeddedFileView>,
    last_applied: Option<Seq<char>>,
)
    ensures
        pending::pending(files, last_applied) matches Ok(scripts) ==> {
            &&& forall|i: int|
                0 <= i < scripts.len() ==> pending::is_newer(
                    (#[trigger] scripts[i]).id,
                    last_applied,
                )
            &&& forall|i: int, j: int|
                0 <= i < j < scripts.len() ==> !text::precedes(
                    (#[trigger] scripts[j]).id,
                    (#[trigger] scripts[i]).id,
                )
        },
{
    let p = pending::wanted(last_applied);
    let ordered = pending::in_order(files.filter(p));
    in_order_is_ordered(files.filter(p));
    picking_commutes_with_ordering(files, p);
    read_all_reads_all(ordered);
    if let Ok(scripts) = pending::read_all(ordered) {
        assert forall|i: int| 0 <= i < scripts.len() implies pending::is_newer(
            (#[trigger] scripts[i]).id,
            last_applied,
        ) by {
            assert(ordered[i].text is Some);
            pending::in_order(files).lemma_filter_pred(p, i);
        }
        assert forall|i: int, j: int| 0 <= i < j < scripts.len() implies !text::precedes(
            (#[trigger] scripts[j]).id,
            (#[trigger] scripts[i]).id,
        ) by {
            assert(ordered[i].text is Some && ordered[j].text is Some);
        }
    }
}

/// No migration is left out: each file that is a migration newer than the last applied one is among
/// the pending ones, with its text.
pub proof fn no_newer_script_is_left_out(
    files: Seq<EmbeddedFileView>,
    last_applied: Option<Seq<char>>,
    k: int,
)
    requires
        0 <= k < files.len(),
        pending::is_script(files[k]),
        pending::is_newer(pending::id_of(files[k]), last_applied),
    ensures
        pending::pending(files, last_applied) matches Ok(scripts) ==> files[k].text is Some
            && scripts.contains(
            ScriptView { id: pending::id_of(files[k]), content: files[k].text->0 },
        ),
{
    broadcast use vstd::seq_lib::group_to_multiset_ensures;

    let p = pending::wanted(last_applied);
    let kept = files.filter(p);
    let ordered = pending::in_order(kept);
    assert(p(files[k]));
    files.lemma_filter_contains(p, k);
    in_order_is_ordered(kept);
    assert(kept.to_multiset().count(files[k]) > 0);
    assert(ordered.contains(files[k]));
    let i = choose|i: int| 0 <= i < ordered.len() && ordered[i] == files[k];
    read_all_reads_all(ordered);
    if let Ok(scripts) = pending::read_all(ordered) {
        assert(ordered[i].text == Some(scripts[i].content));
        assert(scripts[i] == ScriptView {
            id: pending::id_of(files[k]),
            content: files[k].text->0,
        });
    }
}

proof fn read_all_of_filter(files: Seq<EmbeddedFileView>, id: Seq<char>)
    requires
        pending::read_all(files) is Ok,
    ensures
        pending::read_all(files.filter(file_newer_than(id))) == Ok::<
            Seq<ScriptView>,
            MigrationErrorView,
        >(pending::read_all(files)->Ok_0.filter(newer_than(id))),
    decreases files.len(),
{
    if files.len() > 0 {
        let front = files.drop_last();
        let file = files.last();
        read_all_of_filter(front, id);
        assert(files =~= front.push(file));
        front.lemma_filter_push(file, file_newer_than(id));
        let scripts = pending::read_all(front)->Ok_0;
        let script = ScriptView { id: pending::id_of(file), content: file.text->0 };
        scripts.lemma_filter_push(script, newer_than(id));
        if text::precedes(id, pending::id_of(file)) {
            let kept = front.filter(file_newer_than(id)).push(file);
            assert(kept.drop_last() =~= front.filter(file_newer_than(id)));
        }
    } else {
        reveal(Seq::filter);
        assert(files.filter(file_newer_than(id)) =~= seq![]);
        assert(Seq::<ScriptView>::empty().filter(newer_than(id)) =~= seq![]);
    }
}

pub(crate) proof fn filter_twice(
    files: Seq<EmbeddedFileView>,
    p: spec_fn(EmbeddedFileView) -> bool,
    q: spec_fn(EmbeddedFileView) -> bool,
    both: spec_fn(EmbeddedFileView) -> bool,
)
    requires
        forall|f: EmbeddedFileView| #[trigger] both(f) == (p(f) && q(f)),
    ensures
        files.filter(p).filter(q) == files.filter(both),
    decreases files.len(),
{
    if files.len() > 0 {
        let front = files.drop_last();
        let file = files.last();
        filter_twice(front, p, q, both);
        assert(files =~= front.push(file));
        front.lemma_filter_push(file, p);
        front.lemma_filter_push(file, both);
        front.filter(p).lemma_filter_push(file, q);
        assert(both(file) == (p(file) && q(file)));
    } else {
        reveal(Seq::filter);
        assert(files.filter(p) =~= seq![]);
        assert(files.filter(both) =~= seq![]);
    }
}

/// Once the migration `id`, which was pending, has become the last applied one, the pending ones are
/// those with a larger id, as they were.
pub proof fn applying_leaves_the_larger_ids(
    files: Seq<EmbeddedFileView>,
    last_applied: Option<Seq<char>>,
    id: Seq<char>,
)
    requires
        pending::pending(files, last_applied) is Ok,
        pending::is_newer(id, last_applied),
    ensures
        pending::pending(files, Some(id)) == Ok::<Seq<ScriptView>, MigrationErrorView>(
            pending::pending(files, last_applied)->Ok_0.filter(newer_than(id)),
        ),
{
    let p = pending::wanted(last_applied);
    let q = file_newer_than(id);
    let both = pending::wanted(Some(id));
    assert forall|f: EmbeddedFileView| #[trigger] both(f) == (p(f) && q(f)) by {
        if both(f) {
            if let Some(last) = last_applied {
                text::precedes_is_transitive(last, id, pending::id_of(f));
            }
        }
    }
    filter_twice(files, p, q, both);
    picking_commutes_with_ordering(files.filter(p), q);
    read_all_of_filter(pending::in_order(files.filter(p)), id);
}

/// Once the last of the pending migrations is applied, none is pending: the schema is up to date.
pub proof fn applying_all_leaves_none(
    files: Seq<EmbeddedFileView>,
    last_applied: Option<Seq<char>>,
)
    requires
        pending::pending(files, last_applied) is Ok,
        pending::pending(files, last_applied)->Ok_0.len() > 0,
    ensures
        pending::pending(
            files,
            Some(pending::pending(files, last_applied)->Ok_0.last().id),
        ) == Ok::<Seq<ScriptView>, MigrationErrorView>(seq![]),
{
    let scripts = pending::pending(files, last_applied)->Ok_0;
    let last = scripts.last();
    pending_are_newer_and_ordered(files, last_applied);
    assert(scripts[scripts.len() - 1] == last);
    applying_leaves_the_larger_ids(files, last_applied, last.id);
    let kept = scripts.filter(newer_than(last.id));
    if kept.len() > 0 {
        scripts.lemma_filter_pred(newer_than(last.id), 0);
        scripts.lemma_filter_contains_rev(newer_than(last.id), kept[0]);
        let k = choose|k: int| 0 <= k < scripts.len() && scripts[k] == kept[0];
        text::precedes_is_irreflexive(last.id);
        text::precedes_is_total(last.id, kept[0].id);
        assert(scripts[k].id == kept[0].id);
    }
    assert(kept =~= seq![]);
}

/// Where no two pending migrations share an id, a run that stopped behind the `k`-th leaves exactly
/// the later ones pending.
pub proof fn applying_some_leaves_the_rest(
    files: Seq<EmbeddedFileView>,
    last_applied: Option<Seq<char>>,
    k: int,
)
    requires
        pending::pending(files, last_applied) is Ok,
        0 <= k < pending::pending(files, last_applied)->Ok_0.len(),
        forall|i: int, j: int|
            #![trigger pending::pending(files, last_applied)->Ok_0[i],
                pending::pending(files, last_applied)->Ok_0[j]]
            0 <= i < j < pending::pending(files, last_applied)->Ok_0.len()
                ==> pending::pending(files, last_applied)->Ok_0[i].id != pending::pending(
                files,
                last_applied,
            )->Ok_0[j].id,
    ensures
        pending::pending(
            files,
            Some(pending::pending(files, last_applied)->Ok_0[k].id),
        ) == Ok::<Seq<ScriptView>, MigrationErrorView>(
            pending::pending(files, last_applied)->Ok_0.skip(k + 1),
        ),
{
    let scripts = pending::pending(files, last_applied)->Ok_0;
    pending_are_newer_and_ordered(files, last_applied);
    applying_leaves_the_larger_ids(files, last_applied, scripts[k].id);
    let p = newer_than(scripts[k].id);
    assert(scripts =~= scripts.take(k + 1) + scripts.skip(k + 1));
    Seq::filter_distributes_over_add(scripts.take(k + 1), scripts.skip(k + 1), p);
    assert forall|i: int| 0 <= i < scripts.take(k + 1).len() implies !p(
        #[trigger] scripts.take(k + 1)[i],
    ) by {
        if i < k {
            text::precedes_is_total(scripts[i].id, scripts[k].id);
        } else {
            text::precedes_is_irreflexive(scripts[k].id);
        }
    }
    filter_of_none(scripts.take(k + 1), p);
    assert forall|i: int| 0 <= i < scripts.skip(k + 1).len() implies p(
        #[trigger] scripts.skip(k + 1)[i],
    ) by {
        let later = scripts[k + 1 + i];
        assert(scripts.skip(k + 1)[i] == later);
        assert(scripts[k].id != later.id);
        text::precedes_is_total(scripts[k].id, later.id);
    }
    filter_of_all(scripts.skip(k + 1), p);
    assert(scripts.filter(p) =~= scripts.skip(k + 1));
}

proof fn filter_of_none<A>(s: Seq<A>, p: spec_fn(A) -> bool)
    requires
        forall|i: int| 0 <= i < s.len() ==> !p(#[trigger] s[i]),
    ensures
        s.filter(p) == Seq::<A>::empty(),
    decreases s.len(),
{
    reveal(Seq::filter);
    if s.len() > 0 {
        assert forall|i: int| 0 <= i < s.drop_last().len() implies !p(
            #[trigger] s.drop_last()[i],
        ) by {
            assert(s.drop_last()[i] == s[i]);
        }
        filter_of_none(s.drop_last(), p);
        assert(!p(s[s.len() - 1]));
    }
    assert(s.filter(p) =~= Seq::<A>::empty());
}

proof fn filter_of_all<A>(s: Seq<A>, p: spec_fn(A) -> bool)
    requires
        forall|i: int| 0 <= i < s.len() ==> p(#[trigger] s[i]),
    ensures
        s.filter(p) == s,
    decreases s.len(),
{
    reveal(Seq::filter);
    if s.len() > 0 {
        assert forall|i: int| 0 <= i < s.drop_last().len() implies p(#[trigger] s.drop_last()[i]) by {
            assert(s.drop_last()[i] == s[i]);
        }
        filter_of_all(s.drop_last(), p);
        assert(p(s[s.len() - 1]));
        assert(s.drop_last().push(s.last()) =~= s);
    }
    assert(s.filter(p) =~= s);
}

} // verus!
