//! What the name, the stem and the extension of a file have to do with its path.

use crate::path;
use vstd::prelude::*;

verus! {

/// Whether `directory` is a path that a name can be put behind.
pub open spec fn is_directory(directory: Seq<char>) -> bool {
    directory.len() == 0 || directory.last() == '/'
}

/// Whether `name` is a name that a file can have.
pub open spec fn is_name(name: Seq<char>) -> bool {
    &&& name.len() > 0
    &&& forall|i: int| 0 <= i < name.len() ==> #[trigger] name[i] != '/'
    &&& name != seq!['.']
    &&& name != seq!['.', '.']
}

proof fn last_piece_starts_behind_directory(directory: Seq<char>, piece: Seq<char>)
    requires
        is_directory(directory),
        forall|i: int| 0 <= i < piece.len() ==> #[trigger] piece[i] != '/',
    ensures
        path::last_piece_start(directory + piece) == directory.len(),
        (directory + piece).skip(directory.len() as int) == piece,
    decreases piece.len(),
{
    let whole = directory + piece;
    if piece.len() > 0 {
        last_piece_starts_behind_directory(directory, piece.drop_last());
        assert(whole.drop_last() =~= directory + piece.drop_last());
        assert(whole.last() == piece.last());
        assert(piece[piece.len() - 1] != '/');
    } else {
        assert(whole =~= directory);
    }
    assert(whole.skip(directory.len() as int) =~= piece);
}

/// A file that is put into a directory has the name that it is put there under.
pub proof fn file_is_found_under_its_name(directory: Seq<char>, name: Seq<char>)
    requires
        is_directory(directory),
        is_name(name),
    ensures
        path::file_name(directory + name) == Some(name),
{
    last_piece_starts_behind_directory(directory, name);
}

/// A slash, or a slash and a dot, at the end of a path say nothing.
pub proof fn trailing_slash_says_nothing(whole: Seq<char>)
    ensures
        path::file_name(whole.push('/')) == path::file_name(whole),
        path::file_name(whole + seq!['/', '.']) == path::file_name(whole),
{
    let slashed = whole.push('/');
    assert(slashed.skip(slashed.len() as int) =~= seq![]);
    assert(slashed.take(slashed.len() - 1) =~= whole);
    let dotted = whole + seq!['/', '.'];
    assert(dotted =~= slashed + seq!['.']);
    last_piece_starts_behind_directory(slashed, seq!['.']);
    assert(dotted.take(slashed.len() - 1) =~= whole);
}

/// What is no file has no name: nothing at all, the current directory, or a parent directory.
pub proof fn directories_have_no_name(directory: Seq<char>)
    requires
        is_directory(directory),
    ensures
        path::file_name(seq![]) is None,
        path::file_name(seq!['.']) is None,
        path::file_name(directory + seq!['.', '.']) is None,
{
    let nothing: Seq<char> = seq![];
    assert(nothing.skip(0) =~= seq![]);
    last_piece_starts_behind_directory(seq![], seq!['.']);
    assert(seq![] + seq!['.'] =~= seq!['.']);
    last_piece_starts_behind_directory(directory, seq!['.', '.']);
    assert(seq!['.', '.'][1] == '.');
}

proof fn last_dot_is_where_it_is(stem: Seq<char>, extension: Seq<char>)
    requires
        forall|i: int| 0 <= i < extension.len() ==> #[trigger] extension[i] != '.',
    ensures
        path::last_dot(stem.push('.') + extension) == stem.len(),
    decreases extension.len(),
{
    let name = stem.push('.') + extension;
    if extension.len() > 0 {
        last_dot_is_where_it_is(stem, extension.drop_last());
        assert(name.drop_last() =~= stem.push('.') + extension.drop_last());
        assert(extension[extension.len() - 1] != '.');
    } else {
        assert(name =~= stem.push('.'));
    }
}

/// The last dot of a name parts the stem from the extension, unless it leads the name.
pub proof fn last_dot_parts_stem_and_extension(
    whole: Seq<char>,
    stem: Seq<char>,
    extension: Seq<char>,
)
    requires
        path::file_name(whole) == Some(stem.push('.') + extension),
        stem.len() > 0,
        forall|i: int| 0 <= i < extension.len() ==> #[trigger] extension[i] != '.',
    ensures
        path::file_stem(whole) == Some(stem),
        path::extension(whole) == Some(extension),
{
    let name = stem.push('.') + extension;
    last_dot_is_where_it_is(stem, extension);
    assert(name.take(stem.len() as int) =~= stem);
    assert(name.skip(stem.len() as int + 1) =~= extension);
}

proof fn no_dot_but_a_leading_one(name: Seq<char>)
    requires
        forall|i: int| 0 < i < name.len() ==> #[trigger] name[i] != '.',
    ensures
        path::last_dot(name) <= 0,
    decreases name.len(),
{
    if name.len() > 0 {
        assert(name.len() > 1 ==> name[name.len() - 1] != '.');
        no_dot_but_a_leading_one(name.drop_last());
    }
}

/// A name with no dot but a leading one is all stem, and has no extension.
pub proof fn name_without_dot_is_all_stem(whole: Seq<char>, name: Seq<char>)
    requires
        path::file_name(whole) == Some(name),
        forall|i: int| 0 < i < name.len() ==> #[trigger] name[i] != '.',
    ensures
        path::file_stem(whole) == Some(name),
        path::extension(whole) is None,
{
    no_dot_but_a_leading_one(name);
}

/// What has no name has neither stem nor extension.
pub proof fn nameless_has_no_stem(whole: Seq<char>)
    requires
        path::file_name(whole) is None,
    ensures
        path::file_stem(whole) is None,
        path::extension(whole) is None,
{
}

proof fn last_dot_is_a_dot(name: Seq<char>)
    ensures
        -1 <= path::last_dot(name) < name.len(),
        path::last_dot(name) >= 0 ==> name[path::last_dot(name)] == '.',
    decreases name.len(),
{
    if name.len() > 0 {
        last_dot_is_a_dot(name.drop_last());
    }
}

/// Put together again, stem and extension are the name.
pub proof fn stem_and_extension_make_the_name(whole: Seq<char>)
    requires
        path::extension(whole) is Some,
    ensures
        path::file_stem(whole) is Some,
        path::file_stem(whole)->0.len() > 0,
        path::file_name(whole) == Some(
            path::file_stem(whole)->0.push('.') + path::extension(whole)->0,
        ),
{
    let name = path::file_name(whole)->0;
    last_dot_is_a_dot(name);
    assert(name =~= path::file_stem(whole)->0.push('.') + path::extension(whole)->0);
}

} // verus!
