//! Text as the rest of the crate reasons about it: sequences of characters.

use vstd::prelude::*;

verus! {

/// Whether `a` comes strictly before `b` in the order of strings: character by character, by code
/// point, a proper prefix coming first.
pub open spec fn precedes(a: Seq<char>, b: Seq<char>) -> bool
    decreases a.len(),
{
    if b.len() == 0 {
        false
    } else if a.len() == 0 {
        true
    } else if a[0] == b[0] {
        precedes(a.drop_first(), b.drop_first())
    } else {
        a[0] < b[0]
    }
}

/// `c`, with an ASCII capital turned into its small letter.
pub open spec fn ascii_lower(c: char) -> char {
    if 'A' <= c && c <= 'Z' {
        (c as u32 + 32) as char
    } else {
        c
    }
}

/// Whether `a` and `b` are the same text but for the case of ASCII letters.
pub open spec fn same_ignoring_ascii_case(a: Seq<char>, b: Seq<char>) -> bool {
    &&& a.len() == b.len()
    &&& forall|i: int| 0 <= i < a.len() ==> ascii_lower(#[trigger] a[i]) == ascii_lower(b[i])
}

/// The number `n` in base ten, without leading zeros.
pub open spec fn decimal(n: nat) -> Seq<char>
    decreases n,
{
    if n < 10 {
        seq![digit(n)]
    } else {
        decimal(n / 10).push(digit(n % 10))
    }
}

/// The character of a digit below ten.
pub open spec fn digit(n: nat) -> char {
    (48 + n) as char
}

/// Whether `a` comes before `b` in the order of strings.
pub fn comes_before(a: &str, b: &str) -> (r: bool)
    ensures
        r == precedes(a@, b@),
{
    let mut left = a.chars();
    let mut right = b.chars();
    loop
        invariant
            precedes(a@, b@) == precedes(
                vstd::std_specs::iter::IteratorSpec::remaining(&left),
                vstd::std_specs::iter::IteratorSpec::remaining(&right),
            ),
            vstd::std_specs::iter::IteratorSpec::decrease(&left) is Some,
        decreases vstd::std_specs::iter::IteratorSpec::decrease(&left)->0,
    {
        match (left.next(), right.next()) {
            (_, None) => return false,
            (None, Some(_)) => return true,
            (Some(x), Some(y)) => {
                if x != y {
                    return x < y;
                }
            },
        }
    }
}

/// `c`, with an ASCII capital turned into its small letter.
fn to_ascii_lower(c: char) -> (r: char)
    ensures
        r == ascii_lower(c),
{
    if 'A' <= c && c <= 'Z' {
        (c as u8 + 32) as char
    } else {
        c
    }
}

/// Whether `a` and `b` differ at most in the case of ASCII letters.
pub fn eq_ignore_ascii_case(a: &str, b: &str) -> (r: bool)
    ensures
        r == same_ignoring_ascii_case(a@, b@),
{
    let mut left = a.chars();
    let mut right = b.chars();
    let ghost mut done: int = 0;
    loop
        invariant
            0 <= done <= a@.len(),
            done <= b@.len(),
            vstd::std_specs::iter::IteratorSpec::remaining(&left) == a@.skip(done),
            vstd::std_specs::iter::IteratorSpec::remaining(&right) == b@.skip(done),
            forall|i: int| 0 <= i < done ==> ascii_lower(#[trigger] a@[i]) == ascii_lower(b@[i]),
            vstd::std_specs::iter::IteratorSpec::decrease(&left) is Some,
        decreases vstd::std_specs::iter::IteratorSpec::decrease(&left)->0,
    {
        match (left.next(), right.next()) {
            (None, None) => return true,
            (Some(x), Some(y)) => {
                assert(x == a@[done] && y == b@[done]);
                if to_ascii_lower(x) != to_ascii_lower(y) {
                    return false;
                }
                proof {
                    assert(a@.skip(done).drop_first() =~= a@.skip(done + 1));
                    assert(b@.skip(done).drop_first() =~= b@.skip(done + 1));
                    done = done + 1;
                }
            },
            _ => return false,
        }
    }
}

/// The number `n` in base ten.
pub fn to_decimal(n: u16) -> (r: String)
    ensures
        r@ == decimal(n as nat),
    decreases n,
{
    if n < 10 {
        one_digit(n)
    } else {
        let mut text = to_decimal(n / 10);
        text.append(one_digit(n % 10).as_str());
        text
    }
}

/// The text of a single digit.
fn one_digit(n: u16) -> (r: String)
    requires
        n < 10,
    ensures
        r@ == seq![digit(n as nat)],
{
    let all = "0123456789";
    proof {
        reveal_strlit("0123456789");
    }
    let i: usize = n as usize;
    let text = all.substring_char(i, i + 1).to_string();
    assert(text@ =~= seq![digit(n as nat)]);
    text
}

/// Nothing comes before itself.
pub proof fn precedes_is_irreflexive(a: Seq<char>)
    ensures
        !precedes(a, a),
    decreases a.len(),
{
    if a.len() > 0 {
        precedes_is_irreflexive(a.drop_first());
    }
}

/// Of two different texts, exactly one comes before the other.
pub proof fn precedes_is_total(a: Seq<char>, b: Seq<char>)
    ensures
        a != b ==> precedes(a, b) != precedes(b, a),
        a == b ==> !precedes(a, b) && !precedes(b, a),
    decreases a.len(),
{
    if a.len() > 0 && b.len() > 0 {
        precedes_is_total(a.drop_first(), b.drop_first());
        if a[0] == b[0] && a.drop_first() == b.drop_first() {
            assert(a =~= seq![a[0]] + a.drop_first());
            assert(b =~= seq![b[0]] + b.drop_first());
        }
    } else if a.len() == 0 && b.len() == 0 {
        assert(a =~= b);
    }
}

/// Coming before is transitive.
pub proof fn precedes_is_transitive(a: Seq<char>, b: Seq<char>, c: Seq<char>)
    requires
        precedes(a, b),
        precedes(b, c),
    ensures
        precedes(a, c),
    decreases a.len(),
{
    if a.len() > 0 && b.len() > 0 && c.len() > 0 && a[0] == b[0] && b[0] == c[0] {
        precedes_is_transitive(a.drop_first(), b.drop_first(), c.drop_first());
    }
}

/// Whether `a` comes before `b` because of what stands at `i`, up to which they agree: `a` ends there,
/// or has a character with a smaller code point.
pub open spec fn comes_first_at(a: Seq<char>, b: Seq<char>, i: int) -> bool {
    &&& 0 <= i <= a.len()
    &&& i < b.len()
    &&& a.take(i) == b.take(i)
    &&& i == a.len() || (a[i] as int) < (b[i] as int)
}

/// Whether `a` is smaller than `b`, seen from the first place where they differ.
pub open spec fn is_smaller(a: Seq<char>, b: Seq<char>) -> bool {
    exists|i: int| #[trigger] comes_first_at(a, b, i)
}

/// The order is the lexicographic one: what comes first is decided at the first place where two texts
/// differ, by code point, and a text that ends there comes first.
pub proof fn order_is_lexicographic(a: Seq<char>, b: Seq<char>)
    ensures
        precedes(a, b) <==> is_smaller(a, b),
    decreases a.len(),
{
    if b.len() > 0 && a.len() == 0 {
        assert(a.take(0) =~= b.take(0));
        assert(comes_first_at(a, b, 0));
    } else if b.len() > 0 && a[0] == b[0] {
        let (x, y) = (a.drop_first(), b.drop_first());
        order_is_lexicographic(x, y);
        if precedes(a, b) {
            let i = choose|i: int| #[trigger] comes_first_at(x, y, i);
            assert(a.take(i + 1) =~= seq![a[0]] + x.take(i));
            assert(b.take(i + 1) =~= seq![b[0]] + y.take(i));
            assert(comes_first_at(a, b, i + 1));
        }
        if is_smaller(a, b) {
            let i = choose|i: int| #[trigger] comes_first_at(a, b, i);
            assert(x.take(i - 1) =~= a.take(i).drop_first());
            assert(y.take(i - 1) =~= b.take(i).drop_first());
            assert(comes_first_at(x, y, i - 1));
        }
    } else if b.len() > 0 {
        if precedes(a, b) {
            assert(a.take(0) =~= b.take(0));
            assert(comes_first_at(a, b, 0));
        }
        if is_smaller(a, b) {
            let i = choose|i: int| #[trigger] comes_first_at(a, b, i);
            if i > 0 {
                assert(a.take(i)[0] == b.take(i)[0]);
            }
        }
    }
}

/// Whether `capital` is an ASCII capital, and `small` its small letter.
pub open spec fn is_capital_of(capital: char, small: char) -> bool {
    'A' <= capital && capital <= 'Z' && small as int == capital as int + 32
}

/// Two texts are taken for the same if and only if they are as long as each other, and wherever they
/// differ one has the capital of the other's small ASCII letter.
pub proof fn only_the_case_of_letters_is_ignored(a: Seq<char>, b: Seq<char>)
    ensures
        same_ignoring_ascii_case(a, b) <==> a.len() == b.len() && forall|i: int|
            0 <= i < a.len() ==> {
                ||| #[trigger] a[i] == b[i]
                ||| is_capital_of(a[i], b[i])
                ||| is_capital_of(b[i], a[i])
            },
{
    assert forall|c: char, d: char|
        ascii_lower(c) == ascii_lower(d) <==> (c == d || is_capital_of(c, d) || is_capital_of(
            d,
            c,
        )) by {
    }
}

/// The number that a row of digits stands for.
pub open spec fn number(digits: Seq<char>) -> nat
    decreases digits.len(),
{
    if digits.len() == 0 {
        0
    } else {
        number(digits.drop_last()) * 10 + (digits.last() as nat - '0' as nat) as nat
    }
}

/// A number in base ten is made of digits, has no leading zero, and reads as that number.
pub proof fn decimal_reads_as_its_number(n: nat)
    ensures
        number(decimal(n)) == n,
        decimal(n).len() > 0,
        forall|i: int| 0 <= i < decimal(n).len() ==> '0' <= #[trigger] decimal(n)[i] <= '9',
        decimal(n)[0] == '0' ==> decimal(n).len() == 1,
        decimal(n)[0] == '0' ==> n == 0,
    decreases n,
{
    if n >= 10 {
        decimal_reads_as_its_number(n / 10);
        assert(decimal(n).drop_last() =~= decimal(n / 10));
        assert(decimal(n)[0] == decimal(n / 10)[0]);
    } else {
        assert(decimal(n).drop_last() =~= seq![]);
        assert(number(seq![]) == 0);
    }
}

/// Whether `text` is made of `parts`, whole and one behind the other, and of nothing else.
pub open spec fn is_made_of(text: Seq<char>, parts: Seq<Seq<char>>) -> bool
    decreases parts.len(),
{
    if parts.len() == 0 {
        text.len() == 0
    } else {
        &&& text.len() >= parts[0].len()
        &&& text.take(parts[0].len() as int) == parts[0]
        &&& is_made_of(text.skip(parts[0].len() as int), parts.drop_first())
    }
}

/// One more part in front.
pub(crate) proof fn one_more_part(part: Seq<char>, text: Seq<char>, parts: Seq<Seq<char>>)
    requires
        is_made_of(text, parts),
    ensures
        is_made_of(part + text, seq![part] + parts),
{
    assert((part + text).take(part.len() as int) =~= part);
    assert((part + text).skip(part.len() as int) =~= text);
    assert((seq![part] + parts).drop_first() =~= parts);
}

/// Two parts.
pub(crate) proof fn two_parts(a: Seq<char>, b: Seq<char>)
    ensures
        is_made_of(a + b, seq![a, b]),
{
    let none: Seq<Seq<char>> = seq![];
    let nothing: Seq<char> = seq![];
    assert(is_made_of(nothing, none));
    one_more_part(b, nothing, none);
    assert(b + nothing =~= b);
    assert(seq![b] + none =~= seq![b]);
    one_more_part(a, b, seq![b]);
    assert(seq![a] + seq![b] =~= seq![a, b]);
}

/// Four parts.
pub(crate) proof fn four_parts(a: Seq<char>, b: Seq<char>, c: Seq<char>, d: Seq<char>)
    ensures
        is_made_of(a + b + c + d, seq![a, b, c, d]),
{
    two_parts(c, d);
    one_more_part(b, c + d, seq![c, d]);
    one_more_part(a, b + (c + d), seq![b] + seq![c, d]);
    assert(a + (b + (c + d)) =~= a + b + c + d);
    assert(seq![a] + (seq![b] + seq![c, d]) =~= seq![a, b, c, d]);
}

/// Six parts.
pub(crate) proof fn six_parts(
    a: Seq<char>,
    b: Seq<char>,
    c: Seq<char>,
    d: Seq<char>,
    e: Seq<char>,
    f: Seq<char>,
)
    ensures
        is_made_of(a + b + c + d + e + f, seq![a, b, c, d, e, f]),
{
    four_parts(c, d, e, f);
    let last = c + d + e + f;
    one_more_part(b, last, seq![c, d, e, f]);
    one_more_part(a, b + last, seq![b] + seq![c, d, e, f]);
    assert(a + (b + last) =~= a + b + c + d + e + f);
    assert(seq![a] + (seq![b] + seq![c, d, e, f]) =~= seq![a, b, c, d, e, f]);
}

} // verus!
