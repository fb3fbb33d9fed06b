//! Character-level helpers shared by the parsers of this crate.

use vstd::prelude::*;

verus! {

/// Relies on `String::push`: appends one character at the end.
#[verifier::external_body]
pub(crate) fn push_char(s: &mut String, c: char)
    ensures
        final(s)@ == old(s)@.push(c),
{
    s.push(c)
}

/// The lowercase form of a text, as Unicode's case mapping gives it.
pub uninterp spec fn lowercase_of(s: Seq<char>) -> Seq<char>;

/// Relies on `str::to_lowercase`: the Unicode lowercase mapping, which
/// depends on the characters alone.
#[verifier::external_body]
pub(crate) fn lowercase(s: &str) -> (r: String)
    ensures
        r@ == lowercase_of(s@),
{
    s.to_lowercase()
}

/// The characters of `s`, in order.
pub fn chars_of(s: &str) -> (r: Vec<char>)
    ensures
        r@ == s@,
{
    let mut r: Vec<char> = Vec::new();
    for c in it: s.chars()
        invariant
            r@ == it.seq().subrange(0, it.index() as int),
    {
        r.push(c);
    }
    r
}

/// A `String` holding the characters of `v`.
pub fn string_of(v: &Vec<char>) -> (r: String)
    ensures
        r@ == v@,
{
    let mut r = String::new();
    let mut i: usize = 0;
    while i < v.len()
        invariant
            i <= v.len(),
            r@ == v@.subrange(0, i as int),
        decreases v.len() - i,
    {
        push_char(&mut r, v[i]);
        i = i + 1;
    }
    r
}

/// A `String` holding `v[from..to]`.
pub fn substring(v: &Vec<char>, from: usize, to: usize) -> (r: String)
    requires
        from <= to <= v.len(),
    ensures
        r@ == v@.subrange(from as int, to as int),
{
    let mut r = String::new();
    let mut i: usize = from;
    while i < to
        invariant
            from <= i <= to <= v.len(),
            r@ == v@.subrange(from as int, i as int),
        decreases to - i,
    {
        push_char(&mut r, v[i]);
        i = i + 1;
    }
    r
}

/// Unicode's White_Space property, which `str::trim` goes by.
pub open spec fn is_white_space(c: char) -> bool {
    let u = c as u32;
    (0x09 <= u <= 0x0d) || u == 0x20 || u == 0x85 || u == 0xa0 || u == 0x1680 || (0x2000 <= u
        <= 0x200a) || u == 0x2028 || u == 0x2029 || u == 0x202f || u == 0x205f || u == 0x3000
}

fn white_space(c: char) -> (r: bool)
    ensures
        r == is_white_space(c),
{
    let u = c as u32;
    (0x09 <= u && u <= 0x0d) || u == 0x20 || u == 0x85 || u == 0xa0 || u == 0x1680 || (0x2000 <= u
        && u <= 0x200a) || u == 0x2028 || u == 0x2029 || u == 0x202f || u == 0x205f || u == 0x3000
}

/// The characters that a trim takes off: white space, or double quotes.
pub open spec fn trimmed_char(quotes: bool, c: char) -> bool {
    if quotes {
        c == '"'
    } else {
        is_white_space(c)
    }
}

fn trims(quotes: bool, c: char) -> (r: bool)
    ensures
        r == trimmed_char(quotes, c),
{
    if quotes {
        c == '"'
    } else {
        white_space(c)
    }
}

pub open spec fn strip_start(s: Seq<char>, quotes: bool) -> Seq<char>
    decreases s.len(),
{
    if s.len() > 0 && trimmed_char(quotes, s[0]) {
        strip_start(s.drop_first(), quotes)
    } else {
        s
    }
}

pub open spec fn strip_end(s: Seq<char>, quotes: bool) -> Seq<char>
    decreases s.len(),
{
    if s.len() > 0 && trimmed_char(quotes, s.last()) {
        strip_end(s.drop_last(), quotes)
    } else {
        s
    }
}

/// `s` without leading and trailing white space.
pub open spec fn trim_spec(s: Seq<char>) -> Seq<char> {
    strip_end(strip_start(s, false), false)
}

/// `s` without leading and trailing double quotes.
pub open spec fn trim_quotes_spec(s: Seq<char>) -> Seq<char> {
    strip_end(strip_start(s, true), true)
}

proof fn lemma_strip_start(s: Seq<char>, quotes: bool, a: int)
    requires
        0 <= a <= s.len(),
        forall|j: int| 0 <= j < a ==> trimmed_char(quotes, #[trigger] s[j]),
        a == s.len() || !trimmed_char(quotes, s[a]),
    ensures
        strip_start(s, quotes) == s.subrange(a, s.len() as int),
    decreases a,
{
    if a > 0 {
        let t = s.drop_first();
        assert forall|j: int| 0 <= j < a - 1 implies trimmed_char(quotes, #[trigger] t[j]) by {
            assert(t[j] == s[j + 1]);
        }
        lemma_strip_start(t, quotes, a - 1);
        assert(t.subrange(a - 1, t.len() as int) =~= s.subrange(a, s.len() as int));
    } else {
        assert(s.subrange(0, s.len() as int) =~= s);
    }
}

proof fn lemma_strip_end(s: Seq<char>, quotes: bool, b: int)
    requires
        0 <= b <= s.len(),
        forall|j: int| b <= j < s.len() ==> trimmed_char(quotes, #[trigger] s[j]),
        b == 0 || !trimmed_char(quotes, s[b - 1]),
    ensures
        strip_end(s, quotes) == s.subrange(0, b),
    decreases s.len() - b,
{
    if b < s.len() {
        let t = s.drop_last();
        lemma_strip_end(t, quotes, b);
        assert(t.subrange(0, b) =~= s.subrange(0, b));
    } else {
        assert(s.subrange(0, s.len() as int) =~= s);
    }
}

/// `s` with the characters that `trimmed_char(quotes, _)` picks taken off
/// both ends.
fn trim_ends(s: &str, quotes: bool) -> (r: String)
    ensures
        r@ == strip_end(strip_start(s@, quotes), quotes),
{
    let cs = chars_of(s);
    let n = cs.len();
    let mut a: usize = 0;
    while a < n && trims(quotes, cs[a])
        invariant
            a <= n == cs@.len(),
            forall|j: int| 0 <= j < a ==> trimmed_char(quotes, #[trigger] cs@[j]),
        decreases n - a,
    {
        a = a + 1;
    }
    proof {
        lemma_strip_start(cs@, quotes, a as int);
    }
    let ghost mid = cs@.subrange(a as int, n as int);
    let mut b: usize = n;
    while b > a && trims(quotes, cs[b - 1])
        invariant
            a <= b <= n == cs@.len(),
            mid == cs@.subrange(a as int, n as int),
            forall|j: int| b <= j < n ==> trimmed_char(quotes, #[trigger] cs@[j]),
        decreases b - a,
    {
        b = b - 1;
    }
    proof {
        assert forall|j: int| b - a <= j < mid.len() implies trimmed_char(quotes, #[trigger] mid[j]) by {
            assert(mid[j] == cs@[a + j]);
        }
        if b > a {
            assert(mid[b - a - 1] == cs@[b - 1]);
        }
        lemma_strip_end(mid, quotes, b - a);
        assert(mid.subrange(0, b - a) =~= cs@.subrange(a as int, b as int));
    }
    substring(&cs, a, b)
}

/// `s` without leading and trailing white space.
pub fn trim(s: &str) -> (r: String)
    ensures
        r@ == trim_spec(s@),
{
    trim_ends(s, false)
}

/// `s` without leading and trailing double quotes.
pub fn trim_quotes(s: &str) -> (r: String)
    ensures
        r@ == trim_quotes_spec(s@),
{
    trim_ends(s, true)
}

} // verus!
