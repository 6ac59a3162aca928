//! The name, stem and extension of a file, read off its `/`-separated path.

use vstd::prelude::*;

verus! {

/// Where the last piece of `path` starts: behind its last `/`, or at its beginning.
pub open spec fn last_piece_start(path: Seq<char>) -> int
    decreases path.len(),
{
    if path.len() == 0 {
        0
    } else if path.last() == '/' {
        path.len() as int
    } else {
        last_piece_start(path.drop_last())
    }
}

/// The last piece starts inside the path, right behind a `/` where it is not the whole path.
pub proof fn last_piece_start_in_range(path: Seq<char>)
    ensures
        0 <= last_piece_start(path) <= path.len(),
        last_piece_start(path) > 0 ==> path[last_piece_start(path) - 1] == '/',
    decreases path.len(),
{
    if path.len() > 0 && path.last() != '/' {
        last_piece_start_in_range(path.drop_last());
    }
}

/// The last piece of `path` that is neither empty nor `.`, unless that piece is `..`.
pub open spec fn file_name(path: Seq<char>) -> Option<Seq<char>>
    decreases path.len(),
{
    proof {
        last_piece_start_in_range(path);
    }
    let start = last_piece_start(path);
    let piece = path.skip(start);
    if piece =~= seq![] || piece =~= seq!['.'] {
        if start == 0 {
            None
        } else {
            file_name(path.take(start - 1))
        }
    } else if piece =~= seq!['.', '.'] {
        None
    } else {
        Some(piece)
    }
}

/// Where the last `.` of `name` stands, or -1.
pub open spec fn last_dot(name: Seq<char>) -> int
    decreases name.len(),
{
    if name.len() == 0 {
        -1
    } else if name.last() == '.' {
        name.len() - 1
    } else {
        last_dot(name.drop_last())
    }
}

/// What stands before the last `.` of the file's name; the whole name where that `.` is missing or
/// leads the name.
pub open spec fn file_stem(path: Seq<char>) -> Option<Seq<char>> {
    match file_name(path) {
        None => None,
        Some(name) => if last_dot(name) <= 0 {
            Some(name)
        } else {
            Some(name.take(last_dot(name)))
        },
    }
}

/// What stands behind the last `.` of the file's name; nothing where that `.` is missing or leads
/// the name.
pub open spec fn extension(path: Seq<char>) -> Option<Seq<char>> {
    match file_name(path) {
        None => None,
        Some(name) => if last_dot(name) <= 0 {
            None
        } else {
            Some(name.skip(last_dot(name) + 1))
        },
    }
}

/// The characters of `s`.
fn chars_of(s: &str) -> (r: Vec<char>)
    ensures
        r@ == s@,
{
    let mut chars: Vec<char> = Vec::new();
    let mut rest = s.chars();
    loop
        invariant
            chars@ + vstd::std_specs::iter::IteratorSpec::remaining(&rest) == s@,
            vstd::std_specs::iter::IteratorSpec::decrease(&rest) is Some,
        decreases vstd::std_specs::iter::IteratorSpec::decrease(&rest)->0,
    {
        let ghost before = vstd::std_specs::iter::IteratorSpec::remaining(&rest);
        match rest.next() {
            None => {
                return chars;
            },
            Some(c) => {
                let ghost taken = chars@;
                chars.push(c);
                assert(chars@ + before.drop_first() =~= taken + before);
            },
        }
    }
}

/// The name of the file at `path`, if it has one.
pub fn name_of(path: &str) -> (r: Option<&str>)
    ensures
        r is Some <==> file_name(path@) is Some,
        r matches Some(name) ==> name@ == file_name(path@)->0,
{
    let chars = chars_of(path);
    let mut end: usize = chars.len();
    assert(path@.take(end as int) =~= path@);
    loop
        invariant
            chars@ == path@,
            end <= path@.len(),
            file_name(path@) == file_name(path@.take(end as int)),
        decreases end,
    {
        let ghost head = path@.take(end as int);
        let mut start: usize = end;
        while start > 0 && chars[start - 1] != '/'
            invariant
                chars@ == path@,
                start <= end <= path@.len(),
                last_piece_start(path@.take(end as int)) == last_piece_start(
                    path@.take(start as int),
                ),
            decreases start,
        {
            assert(path@.take(start as int).drop_last() =~= path@.take(start - 1));
            start = start - 1;
        }
        assert(last_piece_start(head) == start);
        assert(head.skip(start as int) =~= path@.subrange(start as int, end as int));
        if start == end || (end - start == 1 && chars[start] == '.') {
            if start == 0 {
                return None;
            }
            assert(head.skip(start as int) =~= seq![] || head.skip(start as int) =~= seq!['.']);
            assert(head.take(start - 1) =~= path@.take(start - 1));
            end = start - 1;
        } else if end - start == 2 && chars[start] == '.' && chars[start + 1] == '.' {
            assert(head.skip(start as int) =~= seq!['.', '.']);
            return None;
        } else {
            proof {
                let piece = head.skip(start as int);
                assert(piece.len() == end - start);
                assert(piece[0] == chars@[start as int]);
                if piece =~= seq!['.', '.'] {
                    assert(piece[1] == chars@[start + 1]);
                }
            }
            return Some(path.substring_char(start, end));
        }
    }
}

/// The stem and the extension of the file at `path`, if it has a name.
pub fn stem_and_extension(path: &str) -> (r: Option<(&str, Option<&str>)>)
    ensures
        match r {
            None => file_stem(path@) is None && extension(path@) is None,
            Some((stem, None)) => file_stem(path@) == Some(stem@) && extension(path@) is None,
            Some((stem, Some(ext))) => {
                &&& file_stem(path@) == Some(stem@)
                &&& extension(path@) == Some(ext@)
            },
        },
{
    let name = match name_of(path) {
        None => {
            return None;
        },
        Some(name) => name,
    };
    let chars = chars_of(name);
    let mut end: usize = chars.len();
    assert(name@.take(end as int) =~= name@);
    while end > 0 && chars[end - 1] != '.'
        invariant
            chars@ == name@,
            end <= name@.len(),
            last_dot(name@) == last_dot(name@.take(end as int)),
        decreases end,
    {
        assert(name@.take(end as int).drop_last() =~= name@.take(end - 1));
        end = end - 1;
    }
    if end <= 1 {
        Some((name, None))
    } else {
        assert(last_dot(name@) == end - 1);
        let stem = name.substring_char(0, end - 1);
        let ext = name.substring_char(end, chars.len());
        assert(stem@ =~= name@.take(end - 1));
        assert(ext@ =~= name@.skip(end as int));
        Some((stem, Some(ext)))
    }
}

} // verus!
