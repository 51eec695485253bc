//! Character-sequence helpers the pattern decoder is built from: conversion
//! of a `&str` to its characters, line splitting, trimming, substring search
//! and decimal parsing, each specified over `Seq<char>`.

use vstd::prelude::*;
use vstd::string::StrSliceExecFns;

verus! {

/// The characters with the Unicode `White_Space` property; trimming removes
/// these from both ends of a piece of metadata text.
pub open spec fn is_white(c: char) -> bool {
    let u = c as u32;
    u == 0x09 || u == 0x0A || u == 0x0B || u == 0x0C || u == 0x0D || u == 0x20 || u == 0x85
        || u == 0xA0 || u == 0x1680 || (0x2000 <= u && u <= 0x200A) || u == 0x2028 || u == 0x2029
        || u == 0x202F || u == 0x205F || u == 0x3000
}

pub fn is_white_char(c: char) -> (r: bool)
    ensures
        r == is_white(c),
{
    let u = c as u32;
    u == 0x09 || u == 0x0A || u == 0x0B || u == 0x0C || u == 0x0D || u == 0x20 || u == 0x85
        || u == 0xA0 || u == 0x1680 || (0x2000 <= u && u <= 0x200A) || u == 0x2028 || u == 0x2029
        || u == 0x202F || u == 0x205F || u == 0x3000
}

/// Decimal digit test used by run counts and header numbers.
pub open spec fn is_digit(c: char) -> bool {
    0x30 <= c as u32 && c as u32 <= 0x39
}

pub fn is_digit_char(c: char) -> (r: bool)
    ensures
        r == is_digit(c),
{
    let u = c as u32;
    0x30 <= u && u <= 0x39
}

/// Numeric value of a decimal digit character.
pub open spec fn digit_val(c: char) -> int {
    c as u32 - 0x30
}

pub fn digit_value(c: char) -> (r: u32)
    requires
        is_digit(c),
    ensures
        r == digit_val(c),
{
    c as u32 - 0x30
}

/// The characters of a string, as a vector.
pub fn chars_of(s: &str) -> (r: Vec<char>)
    ensures
        r@ == s@,
{
    let n = s.unicode_len();
    let mut r: Vec<char> = Vec::new();
    let mut i: usize = 0;
    while i < n
        invariant
            i <= n,
            n == s@.len(),
            r@ == s@.take(i as int),
        decreases n - i,
    {
        let c = s.get_char(i);
        r.push(c);
        proof {
            assert(s@.take(i + 1 as int) =~= s@.take(i as int).push(s@[i as int]));
        }
        i = i + 1;
    }
    proof {
        assert(s@.take(n as int) =~= s@);
    }
    r
}

/// Relies on `String: FromIterator<char>`: collecting an iterator of
/// characters yields the string whose characters are exactly those, in order.
#[verifier::external_body]
pub fn string_from_chars(v: &Vec<char>) -> (r: String)
    ensures
        r@ == v@,
{
    v.iter().collect()
}

/// A line of `cur` with one trailing carriage return removed, as the standard
/// line iterator does when the line ends in `\r\n`.
pub open spec fn strip_cr(t: Seq<char>) -> Seq<char> {
    if t.len() > 0 && t.last() == '\r' {
        t.drop_last()
    } else {
        t
    }
}

/// Splitting into lines at `\n`, stripping one `\r` before each `\n`; the
/// final line needs no terminator and is dropped when empty.
pub open spec fn lines_rec(s: Seq<char>, cur: Seq<char>, acc: Seq<Seq<char>>) -> Seq<Seq<char>>
    decreases s.len(),
{
    if s.len() == 0 {
        if cur.len() == 0 {
            acc
        } else {
            acc.push(cur)
        }
    } else if s[0] == '\n' {
        lines_rec(s.skip(1), Seq::empty(), acc.push(strip_cr(cur)))
    } else {
        lines_rec(s.skip(1), cur.push(s[0]), acc)
    }
}

pub open spec fn spec_lines(s: Seq<char>) -> Seq<Seq<char>> {
    lines_rec(s, Seq::empty(), Seq::empty())
}

/// The views of a sequence of character vectors.
pub open spec fn seq_views(vv: Seq<Vec<char>>) -> Seq<Seq<char>> {
    Seq::new(vv.len(), |i: int| vv[i]@)
}

#[verifier::loop_isolation(false)]
pub fn split_lines(v: &Vec<char>) -> (r: Vec<Vec<char>>)
    ensures
        seq_views(r@) == spec_lines(v@),
{
    let mut acc: Vec<Vec<char>> = Vec::new();
    let mut cur: Vec<char> = Vec::new();
    let mut i: usize = 0;
    proof {
        assert(v@.skip(0) =~= v@);
        assert(seq_views(acc@) =~= Seq::<Seq<char>>::empty());
    }
    while i < v.len()
        invariant
            i <= v.len(),
            lines_rec(v@.skip(i as int), cur@, seq_views(acc@)) == spec_lines(v@),
        decreases v.len() - i,
    {
        let c = v[i];
        let ghost rest = v@.skip(i as int);
        proof {
            assert(rest[0] == v@[i as int]);
            assert(rest.skip(1) =~= v@.skip(i + 1 as int));
        }
        if c == '\n' {
            let ghost entering_cur = cur@;
            let ghost prev_views = seq_views(acc@);
            if cur.len() > 0 && cur[cur.len() - 1] == '\r' {
                cur.pop();
            }
            proof {
                assert(cur@ =~= strip_cr(entering_cur));
            }
            acc.push(cur);
            cur = Vec::new();
            proof {
                assert(seq_views(acc@) =~= prev_views.push(strip_cr(entering_cur)));
                assert(lines_rec(rest, entering_cur, prev_views) == lines_rec(
                    rest.skip(1),
                    Seq::empty(),
                    prev_views.push(strip_cr(entering_cur)),
                ));
            }
        } else {
            let ghost entering_cur = cur@;
            cur.push(c);
            proof {
                assert(lines_rec(rest, entering_cur, seq_views(acc@)) == lines_rec(
                    rest.skip(1),
                    entering_cur.push(rest[0]),
                    seq_views(acc@),
                ));
            }
        }
        i = i + 1;
    }
    proof {
        assert(v@.skip(i as int) =~= Seq::<char>::empty());
    }
    if cur.len() > 0 {
        let ghost before = seq_views(acc@);
        let ghost last = cur@;
        acc.push(cur);
        proof {
            assert(seq_views(acc@) =~= before.push(last));
        }
    }
    acc
}

/// `pat` occurs in `s` starting at index `i`.
pub open spec fn matches_at(s: Seq<char>, pat: Seq<char>, i: int) -> bool {
    &&& 0 <= i
    &&& i + pat.len() <= s.len()
    &&& forall|j: int| 0 <= j < pat.len() ==> s[i + j] == #[trigger] pat[j]
}

/// The first index at or after `from` where `pat` occurs in `s`.
pub open spec fn spec_find(s: Seq<char>, pat: Seq<char>, from: int) -> Option<int>
    decreases s.len() - from,
{
    if from + pat.len() > s.len() {
        None
    } else if matches_at(s, pat, from) {
        Some(from)
    } else {
        spec_find(s, pat, from + 1)
    }
}

/// `pat` occurs somewhere in `s`.
pub open spec fn contains_seq(s: Seq<char>, pat: Seq<char>) -> bool {
    spec_find(s, pat, 0) is Some
}

#[verifier::loop_isolation(false)]
pub fn match_at(v: &Vec<char>, pat: &Vec<char>, i: usize) -> (r: bool)
    requires
        i + pat@.len() <= v@.len(),
    ensures
        r == matches_at(v@, pat@, i as int),
{
    let mut j: usize = 0;
    while j < pat.len()
        invariant
            j <= pat@.len(),
            forall|k: int| 0 <= k < j ==> v@[i + k] == #[trigger] pat@[k],
        decreases pat@.len() - j,
    {
        let n = v.len();
        assert(i + j < n);
        let idx = i + j;
        if v[idx] != pat[j] {
            return false;
        }
        j = j + 1;
    }
    true
}

#[verifier::loop_isolation(false)]
pub fn find_first(v: &Vec<char>, pat: &Vec<char>, from: usize) -> (r: Option<usize>)
    requires
        from <= v@.len(),
    ensures
        match r {
            Some(i) => from <= i && spec_find(v@, pat@, from as int) == Some(i as int)
                && matches_at(v@, pat@, i as int),
            None => spec_find(v@, pat@, from as int) is None,
        },
{
    if pat.len() > v.len() {
        proof {
            lemma_find_none_when_long(v@, pat@, from as int);
        }
        return None;
    }
    let last = v.len() - pat.len();
    if from > last {
        proof {
            lemma_find_none_when_long(v@, pat@, from as int);
        }
        return None;
    }
    let mut i: usize = from;
    while i <= last
        invariant
            from <= i <= last + 1,
            spec_find(v@, pat@, from as int) == spec_find(v@, pat@, i as int),
        decreases last + 1 - i,
    {
        if match_at(v, pat, i) {
            return Some(i);
        }
        i = i + 1;
    }
    proof {
        lemma_find_none_when_long(v@, pat@, i as int);
    }
    None
}

/// Past the last index where `pat` could fit, the search fails.
proof fn lemma_find_none_when_long(s: Seq<char>, pat: Seq<char>, from: int)
    requires
        from + pat.len() > s.len(),
    ensures
        spec_find(s, pat, from) is None,
    decreases s.len() - from,
{
}

/// `s` ends with `pat`.
pub open spec fn spec_ends_with(s: Seq<char>, pat: Seq<char>) -> bool {
    pat.len() <= s.len() && matches_at(s, pat, s.len() - pat.len())
}

pub fn ends_with_pat(v: &Vec<char>, pat: &Vec<char>) -> (r: bool)
    ensures
        r == spec_ends_with(v@, pat@),
{
    if pat.len() > v.len() {
        return false;
    }
    match_at(v, pat, v.len() - pat.len())
}

/// Whitespace dropped from the front of `s`.
pub open spec fn trim_start_spec(s: Seq<char>) -> Seq<char>
    decreases s.len(),
{
    if s.len() > 0 && is_white(s[0]) {
        trim_start_spec(s.skip(1))
    } else {
        s
    }
}

/// Whitespace dropped from the back of `s`.
pub open spec fn trim_end_spec(s: Seq<char>) -> Seq<char>
    decreases s.len(),
{
    if s.len() > 0 && is_white(s.last()) {
        trim_end_spec(s.drop_last())
    } else {
        s
    }
}

/// Whitespace dropped from both ends of `s`.
pub open spec fn trim_spec(s: Seq<char>) -> Seq<char> {
    trim_end_spec(trim_start_spec(s))
}

#[verifier::loop_isolation(false)]
pub fn trim_range(v: &Vec<char>, from: usize, to: usize) -> (r: Vec<char>)
    requires
        from <= to <= v@.len(),
    ensures
        r@ == trim_spec(v@.subrange(from as int, to as int)),
{
    let mut lo: usize = from;
    while lo < to && is_white_char(v[lo])
        invariant
            from <= lo <= to,
            trim_start_spec(v@.subrange(from as int, to as int)) == trim_start_spec(
                v@.subrange(lo as int, to as int),
            ),
        decreases to - lo,
    {
        proof {
            assert(v@.subrange(lo as int, to as int)[0] == v@[lo as int]);
            assert(v@.subrange(lo as int, to as int).skip(1) =~= v@.subrange(
                lo + 1 as int,
                to as int,
            ));
        }
        lo = lo + 1;
    }
    proof {
        if lo < to {
            assert(v@.subrange(lo as int, to as int)[0] == v@[lo as int]);
        }
        assert(trim_start_spec(v@.subrange(lo as int, to as int)) == v@.subrange(
            lo as int,
            to as int,
        ));
    }
    let mut hi: usize = to;
    while hi > lo && is_white_char(v[hi - 1])
        invariant
            lo <= hi <= to,
            trim_end_spec(v@.subrange(lo as int, to as int)) == trim_end_spec(
                v@.subrange(lo as int, hi as int),
            ),
        decreases hi,
    {
        proof {
            assert(v@.subrange(lo as int, hi as int).last() == v@[hi - 1 as int]);
            assert(v@.subrange(lo as int, hi as int).drop_last() =~= v@.subrange(
                lo as int,
                hi - 1 as int,
            ));
        }
        hi = hi - 1;
    }
    proof {
        if hi > lo {
            assert(v@.subrange(lo as int, hi as int).last() == v@[hi - 1 as int]);
        }
        assert(trim_end_spec(v@.subrange(lo as int, hi as int)) == v@.subrange(
            lo as int,
            hi as int,
        ));
    }
    let mut r: Vec<char> = Vec::new();
    let mut i: usize = lo;
    while i < hi
        invariant
            lo <= i <= hi,
            r@ == v@.subrange(lo as int, i as int),
        decreases hi - i,
    {
        r.push(v[i]);
        proof {
            assert(v@.subrange(lo as int, i + 1 as int) =~= v@.subrange(lo as int, i as int).push(
                v@[i as int],
            ));
        }
        i = i + 1;
    }
    proof {
        assert(r@ == v@.subrange(lo as int, hi as int));
    }
    r
}

/// The digits of `s` read as a decimal number, `None` on an empty string, a
/// non-digit, or a value past `usize::MAX` — the failures the standard
/// unsigned parse reports.
pub open spec fn parse_usize_rec(s: Seq<char>, acc: int) -> Option<int>
    decreases s.len(),
{
    if s.len() == 0 {
        Some(acc)
    } else if !is_digit(s[0]) {
        None
    } else {
        let a2 = acc * 10 + digit_val(s[0]);
        if a2 > usize::MAX as int {
            None
        } else {
            parse_usize_rec(s.skip(1), a2)
        }
    }
}

pub open spec fn spec_parse_usize(s: Seq<char>) -> Option<int> {
    if s.len() == 0 {
        None
    } else {
        parse_usize_rec(s, 0)
    }
}

#[verifier::loop_isolation(false)]
pub fn parse_usize_range(v: &Vec<char>, from: usize, to: usize) -> (r: Option<usize>)
    requires
        from <= to <= v@.len(),
    ensures
        match r {
            Some(n) => spec_parse_usize(v@.subrange(from as int, to as int)) == Some(n as int),
            None => spec_parse_usize(v@.subrange(from as int, to as int)) is None,
        },
{
    if from == to {
        return None;
    }
    let mut acc: usize = 0;
    let mut i: usize = from;
    while i < to
        invariant
            from <= i <= to,
            parse_usize_rec(v@.subrange(from as int, to as int), 0) == parse_usize_rec(
                v@.subrange(i as int, to as int),
                acc as int,
            ),
        decreases to - i,
    {
        let c = v[i];
        proof {
            assert(v@.subrange(i as int, to as int)[0] == v@[i as int]);
        }
        if !is_digit_char(c) {
            return None;
        }
        let d = digit_value(c);
        let a2: u128 = acc as u128 * 10 + d as u128;
        if a2 > usize::MAX as u128 {
            return None;
        }
        acc = a2 as usize;
        proof {
            assert(v@.subrange(i as int, to as int).skip(1) =~= v@.subrange(i + 1 as int, to as int));
        }
        i = i + 1;
    }
    proof {
        assert(v@.subrange(i as int, to as int).len() == 0);
    }
    Some(acc)
}

} // verus!
