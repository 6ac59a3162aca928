//! Which of the embedded files are migrations still to be applied, and in what order.

use crate::db::embedded::{EmbeddedFile, EmbeddedFileView};
use crate::db::migrations::{MigrationError, MigrationErrorView};
use crate::path::stem_and_extension;
use crate::text::comes_before;
use vstd::prelude::*;

verus! {

/// A migration: its id and the script that it runs.
pub struct ScriptView {
    pub id: Seq<char>,
    pub content: Seq<char>,
}

/// A migration: its id and the script that it runs.
#[derive(Debug)]
pub struct Script {
    pub id: String,
    pub content: String,
}

impl View for Script {
    type V = ScriptView;

    open spec fn view(&self) -> ScriptView {
        ScriptView { id: self.id@, content: self.content@ }
    }
}

/// A list of scripts, or why there is none.
pub open spec fn scripts_view(r: Result<Vec<Script>, MigrationError>) -> Result<
    Seq<ScriptView>,
    MigrationErrorView,
> {
    match r {
        Ok(list) => Ok(list@.map_values(|s: Script| s@)),
        Err(error) => Err(error@),
    }
}

/// A file is a migration by its extension.
pub open spec fn is_script(file: EmbeddedFileView) -> bool {
    crate::path::extension(file.path) == Some("surql"@)
}

/// The id of a migration is the stem of its file.
pub open spec fn id_of(file: EmbeddedFileView) -> Seq<char> {
    crate::path::file_stem(file.path)->0
}

/// Whether a migration comes after the last one that was applied.
pub open spec fn is_newer(id: Seq<char>, last_applied: Option<Seq<char>>) -> bool {
    match last_applied {
        None => true,
        Some(last) => crate::text::precedes(last, id),
    }
}

/// Which files are migrations still to be applied.
pub open spec fn wanted(last_applied: Option<Seq<char>>) -> spec_fn(EmbeddedFileView) -> bool {
    |file: EmbeddedFileView| is_script(file) && is_newer(id_of(file), last_applied)
}

/// `file` put into `ordered`, behind every file whose id is not larger.
pub open spec fn put_in_order(
    ordered: Seq<EmbeddedFileView>,
    file: EmbeddedFileView,
) -> Seq<EmbeddedFileView>
    decreases ordered.len(),
{
    if ordered.len() > 0 && crate::text::precedes(id_of(file), id_of(ordered.last())) {
        put_in_order(ordered.drop_last(), file).push(ordered.last())
    } else {
        ordered.push(file)
    }
}

/// The files by id, those of one id in the order in which they came.
pub open spec fn in_order(files: Seq<EmbeddedFileView>) -> Seq<EmbeddedFileView>
    decreases files.len(),
{
    if files.len() == 0 {
        seq![]
    } else {
        put_in_order(in_order(files.drop_last()), files.last())
    }
}

/// The scripts in `files`, unless one is not text: then the first such file is the error.
pub open spec fn read_all(files: Seq<EmbeddedFileView>) -> Result<
    Seq<ScriptView>,
    MigrationErrorView,
>
    decreases files.len(),
{
    if files.len() == 0 {
        Ok(seq![])
    } else {
        match read_all(files.drop_last()) {
            Err(error) => Err(error),
            Ok(scripts) => match files.last().text {
                None => Err(MigrationErrorView::InvalidUtf8(files.last().path)),
                Some(text) => Ok(
                    scripts.push(ScriptView { id: id_of(files.last()), content: text }),
                ),
            },
        }
    }
}

/// The migrations in `files` that come after the last applied one, in the order in which they are
/// to be applied.
pub open spec fn pending(
    files: Seq<EmbeddedFileView>,
    last_applied: Option<Seq<char>>,
) -> Result<Seq<ScriptView>, MigrationErrorView> {
    read_all(in_order(files.filter(wanted(last_applied))))
}

proof fn put_in_order_at(ordered: Seq<EmbeddedFileView>, file: EmbeddedFileView, at: int)
    requires
        0 <= at <= ordered.len(),
        at > 0 ==> !crate::text::precedes(id_of(file), id_of(ordered[at - 1])),
        forall|i: int|
            at <= i < ordered.len() ==> crate::text::precedes(
                id_of(file),
                id_of(#[trigger] ordered[i]),
            ),
    ensures
        put_in_order(ordered, file) == ordered.insert(at, file),
    decreases ordered.len(),
{
    if at < ordered.len() {
        assert(crate::text::precedes(id_of(file), id_of(ordered[ordered.len() - 1])));
        put_in_order_at(ordered.drop_last(), file, at);
        assert(ordered.drop_last().insert(at, file).push(ordered.last()) =~= ordered.insert(
            at,
            file,
        ));
    } else {
        assert(ordered.insert(at, file) =~= ordered.push(file));
    }
}

/// A file that is a migration, under its id.
struct Candidate {
    id: String,
    file: EmbeddedFile,
}

impl Candidate {
    spec fn wf(self) -> bool {
        self.id@ == id_of(self.file@)
    }
}

spec fn files_of(candidates: Seq<Candidate>) -> Seq<EmbeddedFileView> {
    candidates.map_values(|c: Candidate| c.file@)
}

/// The migration in `file`, if it is one that comes after the last applied one.
fn candidate(file: &EmbeddedFile, last_applied: &Option<String>) -> (r: Option<Candidate>)
    ensures
        r is Some <==> wanted(crate::config::optional_text(*last_applied))(file@),
        r matches Some(c) ==> c.wf() && c.file@ == file@,
{
    match stem_and_extension(file.path.as_str()) {
        Some((stem, Some(ext))) => {
            if ext.to_string() != "surql".to_string() {
                return None;
            }
            let newer = match last_applied {
                None => true,
                Some(last) => comes_before(last.as_str(), stem),
            };
            if newer {
                Some(
                    Candidate {
                        id: stem.to_string(),
                        file: EmbeddedFile { path: file.path.clone(), text: file.text.clone() },
                    },
                )
            } else {
                None
            }
        },
        _ => None,
    }
}

/// Puts a candidate behind every other whose id is not larger.
fn place(ordered: &mut Vec<Candidate>, c: Candidate)
    requires
        c.wf(),
        forall|i: int| 0 <= i < old(ordered)@.len() ==> (#[trigger] old(ordered)@[i]).wf(),
    ensures
        files_of(final(ordered)@) == put_in_order(files_of(old(ordered)@), c.file@),
        forall|i: int| 0 <= i < final(ordered)@.len() ==> (#[trigger] final(ordered)@[i]).wf(),
{
    let ghost before = ordered@;
    let mut at: usize = ordered.len();
    while at > 0 && comes_before(c.id.as_str(), ordered[at - 1].id.as_str())
        invariant
            at <= ordered@.len(),
            c.wf(),
            forall|i: int| 0 <= i < ordered@.len() ==> (#[trigger] ordered@[i]).wf(),
            forall|i: int|
                at <= i < ordered@.len() ==> crate::text::precedes(
                    id_of(c.file@),
                    id_of(#[trigger] files_of(ordered@)[i]),
                ),
        decreases at,
    {
        at = at - 1;
    }
    proof {
        put_in_order_at(files_of(before), c.file@, at as int);
    }
    ordered.insert(at, c);
    assert(files_of(ordered@) =~= files_of(before).insert(at as int, c.file@));
}

/// The migrations in `files` that come after the last applied one, in order.
pub fn pending_scripts(files: &Vec<EmbeddedFile>, last_applied: &Option<String>) -> (r: Result<
    Vec<Script>,
    MigrationError,
>)
    ensures
        scripts_view(r) == pending(
            files@.map_values(|f: EmbeddedFile| f@),
            crate::config::optional_text(*last_applied),
        ),
{
    let ghost all = files@.map_values(|f: EmbeddedFile| f@);
    let ghost pred = wanted(crate::config::optional_text(*last_applied));
    let mut ordered: Vec<Candidate> = Vec::new();
    assert(all.take(0).filter(pred) =~= seq![]) by {
        reveal(Seq::filter);
    }
    assert(files_of(ordered@) =~= seq![]);
    for i in 0..files.len()
        invariant
            all == files@.map_values(|f: EmbeddedFile| f@),
            pred == wanted(crate::config::optional_text(*last_applied)),
            forall|j: int| 0 <= j < ordered@.len() ==> (#[trigger] ordered@[j]).wf(),
            files_of(ordered@) == in_order(all.take(i as int).filter(pred)),
    {
        proof {
            assert(all.take(i + 1) =~= all.take(i as int).push(all[i as int]));
            all.take(i as int).lemma_filter_push(all[i as int], pred);
            let kept = all.take(i as int).filter(pred);
            assert(kept.push(all[i as int]).drop_last() =~= kept);
        }
        if let Some(c) = candidate(&files[i], last_applied) {
            place(&mut ordered, c);
        }
    }
    assert(all.take(files@.len() as int) =~= all);
    read_scripts(&ordered)
}

/// The scripts of the candidates, unless one is not text.
fn read_scripts(ordered: &Vec<Candidate>) -> (r: Result<Vec<Script>, MigrationError>)
    requires
        forall|i: int| 0 <= i < ordered@.len() ==> (#[trigger] ordered@[i]).wf(),
    ensures
        scripts_view(r) == read_all(files_of(ordered@)),
{
    let ghost files = files_of(ordered@);
    let mut scripts: Vec<Script> = Vec::new();
    assert(scripts@.map_values(|s: Script| s@) =~= seq![]);
    for i in 0..ordered.len()
        invariant
            files == files_of(ordered@),
            forall|j: int| 0 <= j < ordered@.len() ==> (#[trigger] ordered@[j]).wf(),
            read_all(files.take(i as int)) == Ok::<Seq<ScriptView>, MigrationErrorView>(
                scripts@.map_values(|s: Script| s@),
            ),
    {
        assert(files.take(i + 1).drop_last() =~= files.take(i as int));
        let c = &ordered[i];
        match &c.file.text {
            None => {
                proof {
                    read_all_stops(files, i + 1);
                }
                return Err(MigrationError::InvalidUtf8(c.file.path.clone()));
            },
            Some(text) => {
                let ghost before = scripts@;
                scripts.push(Script { id: c.id.clone(), content: text.clone() });
                assert(scripts@.map_values(|s: Script| s@) =~= before.map_values(
                    |s: Script| s@,
                ).push(scripts@.last()@));
            },
        }
    }
    assert(files.take(ordered@.len() as int) =~= files);
    Ok(scripts)
}

/// What is wrong with the first files is wrong with all of them.
proof fn read_all_stops(files: Seq<EmbeddedFileView>, n: int)
    requires
        0 <= n <= files.len(),
        read_all(files.take(n)) is Err,
    ensures
        read_all(files) == read_all(files.take(n)),
    decreases files.len(),
{
    if n < files.len() {
        assert(files.drop_last().take(n) =~= files.take(n));
        read_all_stops(files.drop_last(), n);
    } else {
        assert(files.take(n) =~= files);
    }
}

} // verus!
