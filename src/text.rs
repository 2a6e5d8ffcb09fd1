//! Character-level helpers on strings: whitespace trimming, splitting on a
//! separator and decimal numbers.

use vstd::prelude::*;

verus! {

/// The characters that `char::is_whitespace` accepts (Unicode White_Space).
pub open spec fn is_ws(c: char) -> bool {
    ('\u{9}' <= c && c <= '\u{d}') || c == ' ' || c == '\u{85}' || c == '\u{a0}' || c
        == '\u{1680}' || ('\u{2000}' <= c && c <= '\u{200a}') || c == '\u{2028}' || c
        == '\u{2029}' || c == '\u{202f}' || c == '\u{205f}' || c == '\u{3000}'
}

/// The text with its leading whitespace removed.
pub open spec fn trim_start(s: Seq<char>) -> Seq<char>
    decreases s.len(),
{
    if s.len() > 0 && is_ws(s[0]) {
        trim_start(s.subrange(1, s.len() as int))
    } else {
        s
    }
}

/// The text with its trailing whitespace removed.
pub open spec fn trim_end(s: Seq<char>) -> Seq<char>
    decreases s.len(),
{
    if s.len() > 0 && is_ws(s.last()) {
        trim_end(s.drop_last())
    } else {
        s
    }
}

/// The text with whitespace removed at both ends, as `str::trim` does.
pub open spec fn trimmed(s: Seq<char>) -> Seq<char> {
    trim_end(trim_start(s))
}

/// The pieces of `s` between occurrences of `sep`, as `str::split` yields
/// them: one more piece than there are separators.
pub open spec fn split_on(s: Seq<char>, sep: char) -> Seq<Seq<char>>
    decreases s.len(),
{
    if s.len() == 0 {
        seq![Seq::<char>::empty()]
    } else {
        let rest = split_on(s.drop_last(), sep);
        if s.last() == sep {
            rest.push(Seq::<char>::empty())
        } else {
            rest.update(rest.len() - 1, rest.last().push(s.last()))
        }
    }
}

pub open spec fn is_digit(c: char) -> bool {
    '0' <= c && c <= '9'
}

pub open spec fn digit_value(c: char) -> nat {
    (c as u32 - '0' as u32) as nat
}

pub open spec fn all_digits(s: Seq<char>) -> bool {
    forall|i: int| 0 <= i < s.len() ==> #[trigger] is_digit(s[i])
}

/// The number that a string of decimal digits denotes.
pub open spec fn digits_value(s: Seq<char>) -> nat
    decreases s.len(),
{
    if s.len() == 0 {
        0
    } else {
        10 * digits_value(s.drop_last()) + digit_value(s.last())
    }
}

/// Whether `u8::from_str` accepts the text: an optional `+`, then at least
/// one decimal digit, with a value of at most 255.
pub open spec fn parses_as_u8(s: Seq<char>) -> bool {
    let d = if s.len() > 0 && s[0] == '+' {
        s.subrange(1, s.len() as int)
    } else {
        s
    };
    d.len() > 0 && all_digits(d) && digits_value(d) <= 255
}

pub open spec fn contains_char(s: Seq<char>, c: char) -> bool {
    exists|i: int| 0 <= i < s.len() && s[i] == c
}

/// Whether two texts hold the same characters.
pub fn str_eq(a: &str, b: &str) -> (r: bool)
    ensures
        r == (a@ == b@),
{
    let n = a.unicode_len();
    if n != b.unicode_len() {
        return false;
    }
    let mut i: usize = 0;
    while i < n
        invariant
            n == a@.len() == b@.len(),
            i <= n,
            forall|k: int| 0 <= k < i ==> a@[k] == b@[k],
        decreases n - i,
    {
        if a.get_char(i) != b.get_char(i) {
            return false;
        }
        i = i + 1;
    }
    assert(a@ =~= b@);
    true
}

pub fn is_ws_char(c: char) -> (r: bool)
    ensures
        r == is_ws(c),
{
    ('\u{9}' <= c && c <= '\u{d}') || c == ' ' || c == '\u{85}' || c == '\u{a0}' || c
        == '\u{1680}' || ('\u{2000}' <= c && c <= '\u{200a}') || c == '\u{2028}' || c
        == '\u{2029}' || c == '\u{202f}' || c == '\u{205f}' || c == '\u{3000}'
}

/// The bounds, in characters, of the text that `trim` keeps.
pub fn trim_bounds(s: &str) -> (r: (usize, usize))
    ensures
        r.0 <= r.1 <= s@.len(),
        s@.subrange(r.0 as int, r.1 as int) == trimmed(s@),
{
    let n = s.unicode_len();
    let mut lo: usize = 0;
    assert(s@.subrange(0, n as int) =~= s@);
    while lo < n && is_ws_char(s.get_char(lo))
        invariant
            n == s@.len(),
            lo <= n,
            trim_start(s@.subrange(lo as int, n as int)) == trim_start(s@),
        decreases n - lo,
    {
        assert(s@.subrange(lo as int, n as int).subrange(1, (n - lo) as int) =~= s@.subrange(
            lo + 1,
            n as int,
        ));
        lo = lo + 1;
    }
    assert(trim_start(s@.subrange(lo as int, n as int)) == s@.subrange(lo as int, n as int));
    let mut hi: usize = n;
    while hi > lo && is_ws_char(s.get_char(hi - 1))
        invariant
            n == s@.len(),
            lo <= hi <= n,
            trim_end(s@.subrange(lo as int, hi as int)) == trimmed(s@),
        decreases hi - lo,
    {
        assert(s@.subrange(lo as int, hi as int).drop_last() =~= s@.subrange(
            lo as int,
            hi - 1,
        ));
        hi = hi - 1;
    }
    (lo, hi)
}

proof fn lemma_digits_value_grows(s: Seq<char>, c: char)
    requires
        is_digit(c),
    ensures
        digits_value(s.push(c)) >= digits_value(s),
        digits_value(s.push(c)) == 10 * digits_value(s) + digit_value(c),
{
    assert(s.push(c).drop_last() =~= s);
}

/// Whether the characters `lo..hi` of `s` form a text that `u8::from_str`
/// accepts.
pub fn range_parses_as_u8(s: &str, lo: usize, hi: usize) -> (r: bool)
    requires
        lo <= hi <= s@.len(),
    ensures
        r == parses_as_u8(s@.subrange(lo as int, hi as int)),
{
    let ghost p = s@.subrange(lo as int, hi as int);
    let mut start = lo;
    if lo < hi && s.get_char(lo) == '+' {
        start = lo + 1;
    }
    let ghost d = s@.subrange(start as int, hi as int);
    assert(d =~= (if p.len() > 0 && p[0] == '+' {
        p.subrange(1, p.len() as int)
    } else {
        p
    }));
    assert(parses_as_u8(p) == (d.len() > 0 && all_digits(d) && digits_value(d) <= 255));
    if start == hi {
        return false;
    }
    let mut i = start;
    let mut value: u32 = 0;
    while i < hi
        invariant
            start <= i <= hi <= s@.len(),
            d == s@.subrange(start as int, hi as int),
            p == s@.subrange(lo as int, hi as int),
            parses_as_u8(p) == (d.len() > 0 && all_digits(d) && digits_value(d) <= 255),
            all_digits(s@.subrange(start as int, i as int)),
            value <= 255,
            value == digits_value(s@.subrange(start as int, i as int)),
        decreases hi - i,
    {
        let c = s.get_char(i);
        if !('0' <= c && c <= '9') {
            assert(d[i - start] == c);
            assert(!is_digit(d[i - start]));
            return false;
        }
        let ghost prev = s@.subrange(start as int, i as int);
        assert(s@.subrange(start as int, i + 1) =~= prev.push(c));
        proof {
            lemma_digits_value_grows(prev, c);
        }
        let next = value * 10 + (c as u32 - '0' as u32);
        if next > 255 {
            // every further digit keeps the value above the bound
            let mut j = i + 1;
            while j < hi
                invariant
                    start <= i < j <= hi <= s@.len(),
                    d == s@.subrange(start as int, hi as int),
                    p == s@.subrange(lo as int, hi as int),
                    parses_as_u8(p) == (d.len() > 0 && all_digits(d) && digits_value(d) <= 255),
                    digits_value(s@.subrange(start as int, j as int)) > 255
                        || !all_digits(s@.subrange(start as int, j as int)),
                decreases hi - j,
            {
                let cj = s.get_char(j);
                let ghost q = s@.subrange(start as int, j as int);
                assert(s@.subrange(start as int, j + 1) =~= q.push(cj));
                if '0' <= cj && cj <= '9' {
                    proof {
                        lemma_digits_value_grows(q, cj);
                    }
                } else {
                    assert(s@.subrange(start as int, j + 1)[j - start] == cj);
                    assert(!is_digit(s@.subrange(start as int, j + 1)[j - start]));
                }
                proof {
                    if all_digits(s@.subrange(start as int, j + 1)) {
                        assert forall|k: int| 0 <= k < q.len() implies is_digit(q[k]) by {
                            assert(q[k] == s@.subrange(start as int, j + 1)[k]);
                        }
                    }
                }
                j = j + 1;
            }
            assert(s@.subrange(start as int, j as int) =~= d);
            return false;
        }
        value = next;
        i = i + 1;
    }
    assert(s@.subrange(start as int, i as int) =~= d);
    true
}

} // verus!
