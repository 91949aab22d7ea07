//! Character-level text helpers shared by the parsers: conversion between
//! `&str`/`String` and `Vec<char>`, splitting, prefix tests, and parsing of
//! decimal numbers and booleans.

use vstd::prelude::*;

verus! {

/// The characters of a string, as a vector.
pub fn chars_of(s: &str) -> (v: Vec<char>)
    ensures
        v@ == s@,
{
    let n = s.unicode_len();
    let mut v: Vec<char> = Vec::new();
    let mut i: usize = 0;
    while i < n
        invariant
            i <= n,
            v@ == s@.take(i as int),
        decreases n - i,
    {
        v.push(s.get_char(i));
        proof {
            assert(s@.take(i + 1) =~= s@.take(i as int).push(s@[i as int]));
        }
        i = i + 1;
    }
    proof {
        assert(s@.take(n as int) =~= s@);
    }
    v
}

/// Relies on `String::push`: appends a single character at the end.
#[verifier::external_body]
fn push_char(s: &mut String, c: char)
    ensures
        final(s)@ == old(s)@.push(c),
{
    s.push(c);
}

/// A `String` whose characters are exactly `v`.
pub fn string_of(v: &Vec<char>) -> (s: String)
    ensures
        s@ == v@,
{
    let mut s = String::new();
    let mut i: usize = 0;
    while i < v.len()
        invariant
            i <= v.len(),
            s@ == v@.take(i as int),
        decreases v.len() - i,
    {
        push_char(&mut s, v[i]);
        proof {
            assert(v@.take(i + 1) =~= v@.take(i as int).push(v@[i as int]));
        }
        i = i + 1;
    }
    proof {
        assert(v@.take(v.len() as int) =~= v@);
    }
    s
}

/// The characters of `v` from `from` (inclusive) to `to` (exclusive).
pub fn subvec(v: &Vec<char>, from: usize, to: usize) -> (r: Vec<char>)
    requires
        from <= to <= v.len(),
    ensures
        r@ == v@.subrange(from as int, to as int),
{
    let mut r: Vec<char> = Vec::new();
    let mut i: usize = from;
    while i < to
        invariant
            from <= i <= to,
            r@ == v@.subrange(from as int, i as int),
        decreases to - i,
    {
        r.push(v[i]);
        proof {
            assert(v@.subrange(from as int, i + 1) =~= v@.subrange(from as int, i as int).push(
                v@[i as int],
            ));
        }
        i = i + 1;
    }
    r
}

/// `p` is a prefix of `s`.
pub open spec fn is_prefix(p: Seq<char>, s: Seq<char>) -> bool {
    p.len() <= s.len() && s.take(p.len() as int) == p
}

/// Whether the literal `p` is a prefix of the characters `v`.
pub fn has_prefix(v: &Vec<char>, p: &str) -> (r: bool)
    ensures
        r == is_prefix(p@, v@),
{
    let plen = p.unicode_len();
    if plen > v.len() {
        proof {
            assert(!is_prefix(p@, v@));
        }
        return false;
    }
    let mut i: usize = 0;
    while i < plen
        invariant
            i <= plen <= v.len(),
            forall|j: int| 0 <= j < i ==> v@[j] == p@[j],
        decreases plen - i,
    {
        if v[i] != p.get_char(i) {
            proof {
                assert(v@.take(p@.len() as int)[i as int] != p@[i as int]);
            }
            return false;
        }
        i = i + 1;
    }
    proof {
        assert(v@.take(p@.len() as int) =~= p@);
    }
    true
}

/// Whether the characters `v` are exactly the literal `p`.
pub fn chars_eq(v: &Vec<char>, p: &str) -> (r: bool)
    ensures
        r == (v@ == p@),
{
    let plen = p.unicode_len();
    if plen != v.len() {
        return false;
    }
    let r = has_prefix(v, p);
    proof {
        assert(v@.take(p@.len() as int) =~= v@);
    }
    r
}

/// `c` is a decimal digit.
pub open spec fn is_digit_char(c: char) -> bool {
    '0' <= c && c <= '9'
}

/// The numeric value of a decimal digit.
pub open spec fn digit_val(c: char) -> nat {
    ((c as u32) - ('0' as u32)) as nat
}

/// Every character of `s` is a decimal digit.
pub open spec fn all_digits(s: Seq<char>) -> bool {
    forall|i: int| 0 <= i < s.len() ==> is_digit_char(s[i])
}

/// The value of `s` read as a decimal number, most significant digit first.
pub open spec fn digits_value(s: Seq<char>) -> nat
    decreases s.len(),
{
    if s.len() == 0 {
        0
    } else {
        digits_value(s.drop_last()) * 10 + digit_val(s.last())
    }
}

/// The value of a digit string never falls when digits are appended.
pub proof fn lemma_digits_value_take_le(s: Seq<char>, j: int)
    requires
        0 <= j <= s.len(),
    ensures
        digits_value(s.take(j)) <= digits_value(s),
    decreases s.len(),
{
    if j < s.len() {
        assert(s.drop_last().take(j) =~= s.take(j));
        lemma_digits_value_take_le(s.drop_last(), j);
    } else {
        assert(s.take(j) =~= s);
    }
}

/// Parses `v` as a decimal number: defined exactly when `v` is a non-empty
/// run of digits whose value fits in `usize`.
pub fn parse_usize(v: &Vec<char>) -> (r: Option<usize>)
    ensures
        v@.len() > 0 && all_digits(v@) && digits_value(v@) <= usize::MAX ==> r == Some(
            digits_value(v@) as usize,
        ),
        !(v@.len() > 0 && all_digits(v@) && digits_value(v@) <= usize::MAX) ==> r is None,
{
    if v.len() == 0 {
        return None;
    }
    let mut n: usize = 0;
    let mut i: usize = 0;
    while i < v.len()
        invariant
            i <= v.len(),
            all_digits(v@.take(i as int)),
            n == digits_value(v@.take(i as int)),
        decreases v.len() - i,
    {
        let c = v[i];
        if !('0' <= c && c <= '9') {
            proof {
                assert(!is_digit_char(v@[i as int]));
            }
            return None;
        }
        let d = (c as usize) - 48;
        proof {
            assert(is_digit_char(v@[i as int]));
            assert forall|j: int| 0 <= j < i + 1 implies is_digit_char(#[trigger] v@.take(i + 1)[j]) by {
                if j < i {
                    assert(v@.take(i + 1)[j] == v@.take(i as int)[j]);
                } else {
                    assert(v@.take(i + 1)[j] == v@[i as int]);
                }
            }
            assert(v@.take(i + 1).drop_last() =~= v@.take(i as int));
            assert(v@.take(i + 1).last() == v@[i as int]);
        }
        let stepped = match n.checked_mul(10) {
            Some(m) => m.checked_add(d),
            None => None,
        };
        match stepped {
            Some(t) => {
                n = t;
            },
            None => {
                proof {
                    assert(digits_value(v@.take(i + 1)) > usize::MAX);
                    lemma_digits_value_take_le(v@, i + 1);
                }
                return None;
            },
        }
        i = i + 1;
    }
    proof {
        assert(v@.take(v.len() as int) =~= v@);
    }
    Some(n)
}

/// The pieces of `s` between occurrences of `sep`, in order.  A string
/// without `sep` is one piece; a trailing `sep` yields a trailing empty
/// piece; the empty string is one empty piece.
pub open spec fn split_char(s: Seq<char>, sep: char) -> Seq<Seq<char>>
    decreases s.len(),
{
    if s.len() == 0 {
        seq![Seq::<char>::empty()]
    } else if s.last() == sep {
        split_char(s.drop_last(), sep).push(Seq::<char>::empty())
    } else {
        let p = split_char(s.drop_last(), sep);
        p.update(p.len() - 1, p.last().push(s.last()))
    }
}

/// A split always yields at least one piece.
pub proof fn lemma_split_char_len(s: Seq<char>, sep: char)
    ensures
        split_char(s, sep).len() >= 1,
    decreases s.len(),
{
    if s.len() > 0 {
        lemma_split_char_len(s.drop_last(), sep);
    }
}

/// Splits the characters `v` on the separator `sep`.
pub fn split_chars(v: &Vec<char>, sep: char) -> (parts: Vec<Vec<char>>)
    ensures
        parts@.len() == split_char(v@, sep).len(),
        forall|k: int| 0 <= k < parts@.len() ==> parts@[k]@ == split_char(v@, sep)[k],
{
    let ghost whole = split_char(v@, sep);
    let mut parts: Vec<Vec<char>> = Vec::new();
    let mut cur: Vec<char> = Vec::new();
    let mut i: usize = 0;
    while i < v.len()
        invariant
            i <= v.len(),
            parts@.len() + 1 == split_char(v@.take(i as int), sep).len(),
            forall|k: int| 0 <= k < parts@.len() ==> parts@[k]@ == split_char(
                v@.take(i as int),
                sep,
            )[k],
            cur@ == split_char(v@.take(i as int), sep).last(),
        decreases v.len() - i,
    {
        proof {
            assert(v@.take(i + 1).drop_last() =~= v@.take(i as int));
            assert(v@.take(i + 1).last() == v@[i as int]);
            lemma_split_char_len(v@.take(i as int), sep);
        }
        let c = v[i];
        if c == sep {
            parts.push(cur);
            cur = Vec::new();
        } else {
            cur.push(c);
        }
        i = i + 1;
    }
    proof {
        assert(v@.take(v.len() as int) =~= v@);
        lemma_split_char_len(v@, sep);
    }
    parts.push(cur);
    parts
}

/// A line piece with one trailing carriage return removed.
pub open spec fn strip_cr(l: Seq<char>) -> Seq<char> {
    if l.len() > 0 && l.last() == '\r' {
        l.drop_last()
    } else {
        l
    }
}

/// The lines of `s`: pieces between newline characters, each stripped of one
/// carriage return before the newline, with no empty line after a trailing
/// newline.  A final piece without a terminator is kept as it stands.
pub open spec fn spec_lines(s: Seq<char>) -> Seq<Seq<char>> {
    let raw = split_char(s, '\n');
    if raw.last().len() == 0 {
        raw.drop_last().map_values(|l: Seq<char>| strip_cr(l))
    } else {
        raw.drop_last().map_values(|l: Seq<char>| strip_cr(l)).push(raw.last())
    }
}

/// Splits the characters `v` into lines, as `spec_lines` describes.
pub fn split_lines(v: &Vec<char>) -> (lines: Vec<Vec<char>>)
    ensures
        lines@.len() == spec_lines(v@).len(),
        forall|k: int| 0 <= k < lines@.len() ==> lines@[k]@ == spec_lines(v@)[k],
{
    let raw = split_chars(v, '\n');
    proof {
        lemma_split_char_len(v@, '\n');
    }
    let n = raw.len();
    let last_is_line = raw[n - 1].len() > 0;
    let bound = n - 1;
    let mut lines: Vec<Vec<char>> = Vec::new();
    let mut i: usize = 0;
    while i < bound
        invariant
            i <= bound,
            bound == split_char(v@, '\n').len() - 1,
            lines@.len() == i,
            forall|k: int| 0 <= k < i ==> lines@[k]@ == strip_cr(split_char(v@, '\n')[k]),
        decreases bound - i,
    {
        let piece = &raw[i];
        let plen = piece.len();
        if plen > 0 && piece[plen - 1] == '\r' {
            lines.push(subvec(piece, 0, plen - 1));
            proof {
                assert(raw@[i as int]@.subrange(0, raw@[i as int]@.len() - 1) =~= raw@[
                    i as int
                ]@.drop_last());
            }
        } else {
            lines.push(subvec(piece, 0, plen));
            proof {
                assert(raw@[i as int]@.subrange(0, raw@[i as int]@.len() as int) =~= raw@[
                    i as int
                ]@);
            }
        }
        i = i + 1;
    }
    if last_is_line {
        lines.push(subvec(&raw[n - 1], 0, raw[n - 1].len()));
        proof {
            assert(raw@[n - 1]@.subrange(0, raw@[n - 1]@.len() as int) =~= raw@[n - 1]@);
        }
    }
    proof {
        let sl = spec_lines(v@);
        let rawv = split_char(v@, '\n');
        assert(sl.len() == lines@.len());
        assert forall|k: int| 0 <= k < lines@.len() implies lines@[k]@ == sl[k] by {
            if k < rawv.len() - 1 {
                assert(sl[k] == strip_cr(rawv[k]));
            }
        }
    }
    lines
}

} // verus!
