//! Text as sequences of characters: conversion between strings and character
//! vectors, substring replacement, prefix and suffix tests, and decimal
//! integers.

use vstd::prelude::*;
use vstd::string::*;

verus! {

/// `std::string::String::push` appends one character and changes nothing else.
pub assume_specification[ std::string::String::push ](s: &mut std::string::String, c: char)
    ensures
        final(s)@ == old(s)@.push(c),
;

/// The characters of `s`, in order.
pub fn to_chars(s: &str) -> (out: Vec<char>)
    ensures
        out@ == s@,
{
    broadcast use vstd::string::group_string_axioms;

    let mut out: Vec<char> = Vec::new();
    for c in it: s.chars()
        invariant
            it.seq() == s@,
            out@ == s@.take(it.index()),
    {
        out.push(c);
        assert(out@ == s@.take(it.index() + 1));
    }
    assert(s@.take(s@.len() as int) == s@);
    out
}

/// The string made of `chars`, in order.
pub fn from_chars(chars: &Vec<char>) -> (out: String)
    ensures
        out@ == chars@,
{
    let mut out = String::new();
    let mut i: usize = 0;
    while i < chars.len()
        invariant
            i <= chars.len(),
            out@ == chars@.take(i as int),
        decreases chars.len() - i,
    {
        out.push(chars[i]);
        i += 1;
        assert(out@ == chars@.take(i as int));
    }
    assert(chars@.take(chars@.len() as int) == chars@);
    out
}

/// `s` followed by `sep` after every character of `s`.
pub open spec fn interleave(s: Seq<char>, sep: Seq<char>) -> Seq<char>
    decreases s.len(),
{
    if s.len() == 0 {
        Seq::<char>::empty()
    } else {
        seq![s[0]] + sep + interleave(s.skip(1), sep)
    }
}

/// `s` with every occurrence of `from` replaced by `to`. Occurrences are found
/// from the left and do not overlap. An empty `from` occurs before every
/// character and at the end.
pub open spec fn replace_all(s: Seq<char>, from: Seq<char>, to: Seq<char>) -> Seq<char>
    decreases s.len(),
{
    if from.len() == 0 {
        to + interleave(s, to)
    } else if s.len() < from.len() {
        s
    } else if from.is_prefix_of(s) {
        to + replace_all(s.skip(from.len() as int), from, to)
    } else {
        seq![s[0]] + replace_all(s.skip(1), from, to)
    }
}

/// Whether `pat` stands in `s` at position `at`.
pub open spec fn occurs_at(s: Seq<char>, pat: Seq<char>, at: int) -> bool {
    &&& 0 <= at
    &&& at + pat.len() <= s.len()
    &&& s.subrange(at, at + pat.len()) == pat
}

/// Tests whether `pat` stands in `s` at position `at`.
pub fn matches_at(s: &Vec<char>, pat: &Vec<char>, at: usize) -> (found: bool)
    ensures
        found == occurs_at(s@, pat@, at as int),
{
    if at > s.len() || pat.len() > s.len() - at {
        return false;
    }
    let mut k: usize = 0;
    while k < pat.len()
        invariant
            at + pat.len() <= s.len(),
            k <= pat.len(),
            forall|j: int| 0 <= j < k ==> s@[at + j] == pat@[j],
        decreases pat.len() - k,
    {
        if s[at + k] != pat[k] {
            assert(s@.subrange(at as int, at + pat.len())[k as int] != pat@[k as int]);
            return false;
        }
        k += 1;
    }
    assert(s@.subrange(at as int, at + pat.len()) =~= pat@);
    true
}

/// Whether `s` begins with `pat`.
pub fn starts_with(s: &Vec<char>, pat: &Vec<char>) -> (found: bool)
    ensures
        found == pat@.is_prefix_of(s@),
{
    let found = matches_at(s, pat, 0);
    proof {
        if pat@.len() <= s@.len() {
            assert(s@.subrange(0, pat@.len() as int) =~= s@.take(pat@.len() as int));
            if pat@.is_prefix_of(s@) {
                assert(s@.take(pat@.len() as int) =~= pat@);
            }
        }
    }
    found
}

/// Whether `s` ends with `pat`.
pub fn ends_with(s: &Vec<char>, pat: &Vec<char>) -> (found: bool)
    ensures
        found == pat@.is_suffix_of(s@),
{
    if pat.len() > s.len() {
        return false;
    }
    let found = matches_at(s, pat, s.len() - pat.len());
    proof {
        let at = s@.len() - pat@.len();
        assert(s@.subrange(at, at + pat@.len()) =~= s@.skip(at));
        if pat@.is_suffix_of(s@) {
            assert(s@.skip(at) =~= pat@);
        }
    }
    found
}

/// Appends the characters of `more` to `out`.
pub fn extend_chars(out: &mut Vec<char>, more: &Vec<char>)
    ensures
        final(out)@ == old(out)@ + more@,
{
    let mut k: usize = 0;
    while k < more.len()
        invariant
            k <= more.len(),
            out@ == old(out)@ + more@.take(k as int),
        decreases more.len() - k,
    {
        out.push(more[k]);
        k += 1;
        assert(out@ =~= old(out)@ + more@.take(k as int));
    }
    assert(more@.take(more@.len() as int) == more@);
}

/// Replaces every occurrence of `from` in `s` by `to`.
pub fn replace_chars(s: &Vec<char>, from: &Vec<char>, to: &Vec<char>) -> (out: Vec<char>)
    ensures
        out@ == replace_all(s@, from@, to@),
{
    let mut out: Vec<char> = Vec::new();
    let mut i: usize = 0;
    if from.len() == 0 {
        extend_chars(&mut out, to);
        assert(s@.skip(0) =~= s@);
        assert(out@ =~= to@);
        while i < s.len()
            invariant
                i <= s.len(),
                from@.len() == 0,
                out@ + interleave(s@.skip(i as int), to@) == to@ + interleave(s@, to@),
            decreases s.len() - i,
        {
            let ghost before = out@;
            let ghost rest = s@.skip(i as int);
            out.push(s[i]);
            extend_chars(&mut out, to);
            proof {
                assert(rest.skip(1) =~= s@.skip(i + 1));
                assert(out@ + interleave(s@.skip(i + 1), to@) =~= before + interleave(rest, to@));
            }
            i += 1;
        }
        assert(out@ + interleave(s@.skip(i as int), to@) =~= out@);
        return out;
    }
    assert(s@.skip(0) =~= s@);
    assert(out@ + replace_all(s@.skip(0), from@, to@) =~= replace_all(s@, from@, to@));
    while i < s.len()
        invariant
            i <= s.len(),
            from@.len() > 0,
            out@ + replace_all(s@.skip(i as int), from@, to@) == replace_all(s@, from@, to@),
        decreases s.len() - i,
    {
        let ghost before = out@;
        let ghost rest = s@.skip(i as int);
        let hit = matches_at(s, from, i);
        proof {
            if rest.len() >= from@.len() {
                assert(rest.take(from@.len() as int) =~= s@.subrange(i as int, i + from@.len()));
                if from@.is_prefix_of(rest) {
                    assert(rest.take(from@.len() as int) =~= from@);
                }
            }
            assert(hit == (rest.len() >= from@.len() && from@.is_prefix_of(rest)));
        }
        if hit {
            extend_chars(&mut out, to);
            proof {
                assert(rest.skip(from@.len() as int) =~= s@.skip(i + from@.len()));
                assert(out@ + replace_all(s@.skip(i + from@.len()), from@, to@) =~= before
                    + replace_all(rest, from@, to@));
            }
            i += from.len();
        } else if s.len() - i < from.len() {
            let mut k: usize = i;
            while k < s.len()
                invariant
                    i <= k <= s.len(),
                    out@ == before + s@.subrange(i as int, k as int),
                decreases s.len() - k,
            {
                out.push(s[k]);
                k += 1;
                assert(out@ =~= before + s@.subrange(i as int, k as int));
            }
            proof {
                assert(s@.subrange(i as int, s@.len() as int) =~= rest);
                assert(s@.skip(s@.len() as int) =~= Seq::<char>::empty());
                assert(out@ + replace_all(s@.skip(s@.len() as int), from@, to@) =~= before
                    + replace_all(rest, from@, to@));
            }
            i = s.len();
        } else {
            out.push(s[i]);
            proof {
                assert(rest.skip(1) =~= s@.skip(i + 1));
                assert(out@ + replace_all(s@.skip(i + 1), from@, to@) =~= before + replace_all(
                    rest,
                    from@,
                    to@,
                ));
            }
            i += 1;
        }
    }
    assert(s@.skip(s@.len() as int) =~= Seq::<char>::empty());
    assert(out@ + replace_all(s@.skip(i as int), from@, to@) =~= out@);
    out
}

/// Replaces every occurrence of `from` in `s` by `to`, as `str::replace` does.
pub fn replace(s: &str, from: &str, to: &str) -> (out: String)
    ensures
        out@ == replace_all(s@, from@, to@),
{
    let out = replace_chars(&to_chars(s), &to_chars(from), &to_chars(to));
    from_chars(&out)
}

/// The value of a run of ASCII digits read as a decimal number.
pub open spec fn digits_value(ds: Seq<u8>) -> int
    decreases ds.len(),
{
    if ds.len() == 0 {
        0
    } else {
        digits_value(ds.drop_last()) * 10 + (ds.last() - 0x30)
    }
}

/// Whether `b` is one of the ASCII digits `0` to `9`.
pub open spec fn is_digit(b: u8) -> bool {
    0x30 <= b <= 0x39
}

/// Whether every byte of `ds` is an ASCII digit.
pub open spec fn all_digits(ds: Seq<u8>) -> bool {
    forall|i: int| 0 <= i < ds.len() ==> is_digit(#[trigger] ds[i])
}

/// Whether `b` begins with a sign.
pub open spec fn has_sign(b: Seq<u8>) -> bool {
    b.len() > 0 && (b[0] == 0x2d || b[0] == 0x2b)
}

/// The number that `b` denotes when read as a decimal `i32`: an optional sign,
/// then at least one digit and nothing else, with a value in the range of
/// `i32`. Every other text denotes nothing.
pub open spec fn decimal_i32(b: Seq<u8>) -> Option<i32> {
    let ds = if has_sign(b) { b.skip(1) } else { b };
    let v = if b.len() > 0 && b[0] == 0x2d { -digits_value(ds) } else { digits_value(ds) };
    if ds.len() > 0 && all_digits(ds) && i32::MIN <= v <= i32::MAX {
        Some(v as i32)
    } else {
        None
    }
}

/// The value of a run of digits is never negative, and grows with the run.
pub proof fn lemma_digits_value_grows(ds: Seq<u8>, k: int)
    requires
        all_digits(ds),
        0 <= k <= ds.len(),
    ensures
        0 <= digits_value(ds.take(k)) <= digits_value(ds),
    decreases ds.len() - k,
{
    lemma_digits_value_nonneg(ds.take(k));
    if k == ds.len() {
        assert(ds.take(k) =~= ds);
    } else {
        lemma_digits_value_grows(ds, k + 1);
        assert(ds.take(k + 1).drop_last() =~= ds.take(k));
        lemma_digits_value_nonneg(ds.take(k));
    }
}

/// The value of a run of digits is never negative.
pub proof fn lemma_digits_value_nonneg(ds: Seq<u8>)
    requires
        all_digits(ds),
    ensures
        0 <= digits_value(ds),
    decreases ds.len(),
{
    if ds.len() > 0 {
        lemma_digits_value_nonneg(ds.drop_last());
    }
}

/// Reads `b` as a decimal `i32`.
pub fn parse_i32(b: &[u8]) -> (r: Option<i32>)
    ensures
        r == decimal_i32(b@),
{
    let n = b.len();
    let negative = n > 0 && b[0] == 0x2d;
    let start: usize = if n > 0 && (b[0] == 0x2d || b[0] == 0x2b) { 1 } else { 0 };
    let ghost ds = if has_sign(b@) { b@.skip(1) } else { b@ };
    if start == n {
        return None;
    }
    let mut acc: i64 = 0;
    let mut i: usize = start;
    while i < n
        invariant
            start <= i <= n,
            n == b@.len(),
            ds == b@.skip(start as int),
            ds == (if has_sign(b@) { b@.skip(1) } else { b@ }),
            all_digits(ds.take(i - start)),
            acc == digits_value(ds.take(i - start)),
            0 <= acc <= 0x8000_0000,
        decreases n - i,
    {
        let c = b[i];
        if c < 0x30 || c > 0x39 {
            assert(ds[i - start] == c);
            return None;
        }
        let ghost prev = ds.take(i - start);
        let ghost next = ds.take(i - start + 1);
        proof {
            assert(next.drop_last() =~= prev);
            assert(next.last() == c);
            assert forall|j: int| 0 <= j < next.len() implies is_digit(#[trigger] next[j]) by {
                if j < prev.len() {
                    assert(prev[j] == next[j]);
                }
            }
        }
        acc = acc * 10 + (c - 0x30) as i64;
        i += 1;
        assert(acc == digits_value(next));
        if acc > 0x8000_0000 {
            // Whatever follows, the value is out of range or the text is no number.
            proof {
                if all_digits(ds) {
                    lemma_digits_value_grows(ds, i - start);
                }
            }
            return None;
        }
    }
    assert(ds.take(i - start) =~= ds);
    if negative {
        let v = -acc;
        if v < i32::MIN as i64 {
            None
        } else {
            Some(v as i32)
        }
    } else if acc > i32::MAX as i64 {
        None
    } else {
        Some(acc as i32)
    }
}

/// The bytes of a text of ASCII characters; nothing where `s` holds any other
/// character.
pub open spec fn ascii_bytes(s: Seq<char>) -> Option<Seq<u8>> {
    if forall|i: int| 0 <= i < s.len() ==> (#[trigger] s[i] as u32) < 0x80 {
        Some(Seq::new(s.len(), |i: int| s[i] as u8))
    } else {
        None
    }
}

/// The number that a text denotes when read as a decimal `i32`.
pub open spec fn decimal_i32_text(s: Seq<char>) -> Option<i32> {
    match ascii_bytes(s) {
        Some(b) => decimal_i32(b),
        None => None,
    }
}

/// Reads a text as a decimal `i32`, as `str::parse::<i32>` does.
pub fn parse_i32_text(s: &Vec<char>) -> (r: Option<i32>)
    ensures
        r == decimal_i32_text(s@),
{
    let mut bytes: Vec<u8> = Vec::new();
    let mut i: usize = 0;
    while i < s.len()
        invariant
            i <= s.len(),
            bytes@.len() == i,
            forall|j: int| 0 <= j < i ==> (#[trigger] s@[j] as u32) < 0x80 && bytes@[j] == s@[j] as u8,
        decreases s.len() - i,
    {
        let c = s[i];
        if c as u32 >= 0x80 {
            return None;
        }
        bytes.push(c as u8);
        i += 1;
    }
    assert(bytes@ =~= ascii_bytes(s@).unwrap());
    parse_i32(bytes.as_slice())
}

} // verus!
