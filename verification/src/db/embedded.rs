//! The files that are embedded in the program.

use crate::config::optional_text;
use include_dir::Dir;
use vstd::prelude::*;
use vstd::utf8::{decode_utf8, valid_utf8};

verus! {

/// The embedded directory of the `include_dir` crate.
#[verifier::external_type_specification]
#[verifier::external_body]
pub struct ExDir<'a>(include_dir::Dir<'a>);

/// The files that stand directly in `dir`, in its order: the path of each, and its bytes.
pub uninterp spec fn dir_files(dir: Dir<'static>) -> Seq<(Seq<char>, Seq<u8>)>;

/// A file, with its contents where they are text.
#[derive(Debug)]
pub struct EmbeddedFile {
    pub path: String,
    pub text: Option<String>,
}

pub struct EmbeddedFileView {
    pub path: Seq<char>,
    pub text: Option<Seq<char>>,
}

impl View for EmbeddedFile {
    type V = EmbeddedFileView;

    open spec fn view(&self) -> EmbeddedFileView {
        EmbeddedFileView { path: self.path@, text: optional_text(self.text) }
    }
}

/// The text that `bytes` encode, where they are UTF-8.
pub open spec fn text_of(bytes: Seq<u8>) -> Option<Seq<char>> {
    if valid_utf8(bytes) {
        Some(decode_utf8(bytes))
    } else {
        None
    }
}

/// The files of `dir` with their contents read as text.
pub open spec fn files_in(dir: Dir<'static>) -> Seq<EmbeddedFileView> {
    dir_files(dir).map_values(
        |file: (Seq<char>, Seq<u8>)| EmbeddedFileView { path: file.0, text: text_of(file.1) },
    )
}

/// Calls `include_dir::Dir::files`, and `path` and `contents_utf8` on each `include_dir::File` that
/// it yields. Claimed of them: the files come in the order of the directory's entries, none of a
/// subdirectory among them; a path, which the crate keeps as a string, shows as that string; and the
/// contents are handed out as text if and only if they are UTF-8, and then as the text they encode.
#[verifier::external_body]
pub(crate) fn files_of(dir: &Dir<'static>) -> (r: Vec<EmbeddedFile>)
    ensures
        r@.map_values(|file: EmbeddedFile| file@) == files_in(*dir),
{
    dir.files().map(|file| EmbeddedFile {
        path: file.path().display().to_string(),
        text: file.contents_utf8().map(|text| text.to_string()),
    }).collect()
}

/// Calls `clone` on an `include_dir::Dir`. Claimed of it: the copy holds the same files.
#[verifier::external_body]
pub(crate) fn copy_of(dir: &Dir<'static>) -> (r: Dir<'static>)
    ensures
        dir_files(r) == dir_files(*dir),
{
    dir.clone()
}

} // verus!
