use vstd::prelude::*;

verus! {

/// The characters of `s`, in order.
pub fn chars_of(s: &str) -> (r: Vec<char>)
    ensures
        r@ == s@,
{
    let mut r: Vec<char> = Vec::new();
    for c in it: s.chars()
        invariant
            r@ == it.seq().take(it.index() as int),
    {
        r.push(c);
    }
    r
}

/// Relies on `String::push`: appends one character.
#[verifier::external_body]
pub(crate) fn push_char(s: &mut String, c: char)
    ensures
        final(s)@ == old(s)@.push(c),
{
    s.push(c)
}

/// The characters with the Unicode `White_Space` property.
pub open spec fn is_unicode_ws(c: char) -> bool {
    ||| '\u{9}' <= c <= '\u{d}'
    ||| c == ' '
    ||| c == '\u{85}'
    ||| c == '\u{a0}'
    ||| c == '\u{1680}'
    ||| '\u{2000}' <= c <= '\u{200a}'
    ||| c == '\u{2028}'
    ||| c == '\u{2029}'
    ||| c == '\u{202f}'
    ||| c == '\u{205f}'
    ||| c == '\u{3000}'
}

pub fn is_unicode_whitespace(c: char) -> (r: bool)
    ensures
        r == is_unicode_ws(c),
{
    ('\u{9}' <= c && c <= '\u{d}') || c == ' ' || c == '\u{85}' || c == '\u{a0}' || c
        == '\u{1680}' || ('\u{2000}' <= c && c <= '\u{200a}') || c == '\u{2028}' || c
        == '\u{2029}' || c == '\u{202f}' || c == '\u{205f}' || c == '\u{3000}'
}

/// Number of leading characters of `s` with the `White_Space` property.
pub open spec fn leading_ws(s: Seq<char>) -> nat
    decreases s.len(),
{
    if s.len() > 0 && is_unicode_ws(s[0]) {
        1 + leading_ws(s.drop_first())
    } else {
        0
    }
}

/// Number of trailing characters of `s` with the `White_Space` property.
pub open spec fn trailing_ws(s: Seq<char>) -> nat
    decreases s.len(),
{
    if s.len() > 0 && is_unicode_ws(s.last()) {
        1 + trailing_ws(s.drop_last())
    } else {
        0
    }
}

/// `s` without leading and trailing whitespace.
pub open spec fn trimmed(s: Seq<char>) -> Seq<char> {
    let lead = s.subrange(leading_ws(s) as int, s.len() as int);
    lead.subrange(0, lead.len() - trailing_ws(lead))
}

/// The characters of `s` without leading and trailing whitespace.
pub fn trim_chars(s: &Vec<char>) -> (r: Vec<char>)
    ensures
        r@ == trimmed(s@),
{
    let ghost v = s@;
    let mut lo: usize = 0;
    assert(v.subrange(0, v.len() as int) =~= v);
    while lo < s.len() && is_unicode_whitespace(s[lo])
        invariant
            v == s@,
            lo <= s.len(),
            leading_ws(v) == lo + leading_ws(v.subrange(lo as int, v.len() as int)),
        decreases s.len() - lo,
    {
        assert(v.subrange(lo as int, v.len() as int).drop_first() =~= v.subrange(
            lo + 1,
            v.len() as int,
        ));
        lo = lo + 1;
    }
    let ghost lead = v.subrange(lo as int, v.len() as int);
    assert(leading_ws(lead) == 0);
    let mut hi: usize = s.len();
    assert(v.subrange(lo as int, hi as int) =~= lead);
    while hi > lo && is_unicode_whitespace(s[hi - 1])
        invariant
            v == s@,
            lead == v.subrange(lo as int, v.len() as int),
            lo <= hi <= s.len(),
            trailing_ws(lead) == (s.len() - hi) + trailing_ws(v.subrange(lo as int, hi as int)),
        decreases hi,
    {
        assert(v.subrange(lo as int, hi as int).drop_last() =~= v.subrange(
            lo as int,
            hi - 1,
        ));
        hi = hi - 1;
    }
    assert(trailing_ws(v.subrange(lo as int, hi as int)) == 0);
    let mut r: Vec<char> = Vec::new();
    let mut i: usize = lo;
    while i < hi
        invariant
            v == s@,
            lo <= i <= hi <= s.len(),
            r@ == v.subrange(lo as int, i as int),
        decreases hi - i,
    {
        r.push(s[i]);
        assert(r@ =~= v.subrange(lo as int, i + 1));
        i = i + 1;
    }
    assert(r@ =~= trimmed(v));
    r
}

/// The text of a list of characters.
pub fn string_of(v: &Vec<char>) -> (r: String)
    ensures
        r@ == v@,
{
    let mut r = String::new();
    let mut i: usize = 0;
    while i < v.len()
        invariant
            i <= v.len(),
            r@ == v@.subrange(0, i as int),
        decreases v.len() - i,
    {
        push_char(&mut r, v[i]);
        assert(r@ =~= v@.subrange(0, i + 1));
        i = i + 1;
    }
    assert(r@ =~= v@);
    r
}

} // verus!
