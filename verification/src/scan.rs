//! Helpers for reading line-oriented text: prefixes, quotes, fields and
//! decimal numbers.

use vstd::prelude::*;
use crate::clock::{digit_value, is_digit};
use crate::text::{
    char_views, is_prefix, matches_at, slice_chars, split_char, split_chars,
};

verus! {

/// What follows `prefix` in `s`, where `s` begins with it.
pub open spec fn without_prefix(s: Seq<char>, prefix: Seq<char>) -> Option<Seq<char>> {
    if is_prefix(prefix, s) {
        Some(s.skip(prefix.len() as int))
    } else {
        None
    }
}

/// The view of an optional character vector.
pub open spec fn opt_chars_view(o: Option<Vec<char>>) -> Option<Seq<char>> {
    match o {
        Some(v) => Some(v@),
        None => None,
    }
}

/// What follows `prefix` in `s`, where `s` begins with it.
pub fn strip_prefix(s: &Vec<char>, prefix: &Vec<char>) -> (r: Option<Vec<char>>)
    ensures
        opt_chars_view(r) == without_prefix(s@, prefix@),
{
    assert(s@.skip(0) == s@);
    if matches_at(s, 0, prefix) {
        let rest = slice_chars(s, prefix.len(), s.len());
        assert(s@.subrange(prefix@.len() as int, s@.len() as int) == s@.skip(prefix@.len() as int));
        Some(rest)
    } else {
        None
    }
}

/// `s` without the characters `c` at its end.
pub open spec fn strip_trailing_char(s: Seq<char>, c: char) -> Seq<char>
    decreases s.len(),
{
    if s.len() > 0 && s.last() == c {
        strip_trailing_char(s.drop_last(), c)
    } else {
        s
    }
}

/// `s` without the characters `c` at its start.
pub open spec fn strip_leading_char(s: Seq<char>, c: char) -> Seq<char>
    decreases s.len(),
{
    if s.len() > 0 && s[0] == c {
        strip_leading_char(s.drop_first(), c)
    } else {
        s
    }
}

/// `s` without the characters `c` at both ends.
pub open spec fn stripped_of(s: Seq<char>, c: char) -> Seq<char> {
    strip_leading_char(strip_trailing_char(s, c), c)
}

/// `v` without the characters `c` at both ends.
pub fn trim_matches(v: &Vec<char>, c: char) -> (r: Vec<char>)
    ensures
        r@ == stripped_of(v@, c),
{
    let mut end: usize = v.len();
    assert(v@.take(end as int) == v@);
    while end > 0 && v[end - 1] == c
        invariant
            end <= v@.len(),
            strip_trailing_char(v@, c) == strip_trailing_char(v@.take(end as int), c),
        decreases end,
    {
        assert(v@.take(end as int).drop_last() == v@.take(end - 1));
        end -= 1;
    }
    let ghost kept = v@.take(end as int);
    assert(strip_trailing_char(kept, c) == kept);
    let mut start: usize = 0;
    assert(kept.skip(0) == kept);
    while start < end && v[start] == c
        invariant
            start <= end <= v@.len(),
            kept == v@.take(end as int),
            strip_leading_char(kept, c) == strip_leading_char(kept.skip(start as int), c),
        decreases end - start,
    {
        assert(kept.skip(start as int).drop_first() == kept.skip(start + 1));
        start += 1;
    }
    assert(strip_leading_char(kept.skip(start as int), c) == kept.skip(start as int));
    assert(kept.skip(start as int) == v@.subrange(start as int, end as int));
    slice_chars(v, start, end)
}

/// The second of the pieces that `sep` cuts `s` into, where there are two.
pub open spec fn second_field(s: Seq<char>, sep: char) -> Option<Seq<char>> {
    let pieces = split_char(s, sep);
    if pieces.len() >= 2 {
        Some(pieces[1])
    } else {
        None
    }
}

/// What stands between the first `sep` of `s` and the next.
pub fn field_after(s: &Vec<char>, sep: char) -> (r: Option<Vec<char>>)
    ensures
        opt_chars_view(r) == second_field(s@, sep),
{
    let pieces = split_chars(s, sep);
    if pieces.len() >= 2 {
        assert(char_views(pieces@)[1] == pieces@[1]@);
        let p = &pieces[1];
        let r = slice_chars(p, 0, p.len());
        assert(p@.subrange(0, p@.len() as int) == p@);
        Some(r)
    } else {
        None
    }
}

/// Every character is a decimal digit.
pub open spec fn all_digits(s: Seq<char>) -> bool {
    forall|i: int| 0 <= i < s.len() ==> is_digit(#[trigger] s[i])
}

/// The number that a string of decimal digits writes.
pub open spec fn digits_value(s: Seq<char>) -> int
    decreases s.len(),
{
    if s.len() == 0 {
        0
    } else {
        digits_value(s.drop_last()) * 10 + digit_value(s.last())
    }
}

/// The integer that a string writes: an optional sign, then one or more
/// decimal digits.
pub open spec fn parsed_int(s: Seq<char>) -> Option<int> {
    let signed = s.len() > 0 && (s[0] == '-' || s[0] == '+');
    let digits = if signed {
        s.skip(1)
    } else {
        s
    };
    if digits.len() == 0 || !all_digits(digits) {
        None
    } else if signed && s[0] == '-' {
        Some(-digits_value(digits))
    } else {
        Some(digits_value(digits))
    }
}

/// The 32-bit integer that a string writes, where it writes one that fits.
pub open spec fn parsed_i32(s: Seq<char>) -> Option<i32> {
    match parsed_int(s) {
        Some(v) => if i32::MIN <= v <= i32::MAX {
            Some(v as i32)
        } else {
            None
        },
        None => None,
    }
}

/// More digits never write a smaller number.
pub proof fn lemma_digits_grow(s: Seq<char>, k: int)
    requires
        all_digits(s),
        0 <= k <= s.len(),
    ensures
        0 <= digits_value(s.take(k)) <= digits_value(s),
    decreases s.len() - k,
{
    lemma_digits_nonnegative(s.take(k));
    if k < s.len() {
        lemma_digits_grow(s, k + 1);
        assert(s.take(k + 1).drop_last() == s.take(k));
        assert(is_digit(s[k]));
        assert(s.take(k + 1).last() == s[k]);
    } else {
        assert(s.take(k) == s);
    }
}

/// Digits write a number that is not negative.
pub proof fn lemma_digits_nonnegative(s: Seq<char>)
    requires
        all_digits(s),
    ensures
        digits_value(s) >= 0,
    decreases s.len(),
{
    if s.len() > 0 {
        assert(is_digit(s.last()));
        lemma_digits_nonnegative(s.drop_last());
    }
}

/// Reads a 32-bit integer in decimal, with an optional sign.
pub fn parse_i32(v: &Vec<char>) -> (r: Option<i32>)
    ensures
        r == parsed_i32(v@),
{
    let n = v.len();
    let signed = n > 0 && (v[0] == '-' || v[0] == '+');
    let negative = signed && v[0] == '-';
    let start: usize = if signed {
        1
    } else {
        0
    };
    let ghost digits = v@.skip(start as int);
    if start == n {
        return None;
    }
    let mut acc: i64 = 0;
    let mut i: usize = start;
    assert(digits.take(0) =~= Seq::<char>::empty());
    while i < n
        invariant
            start <= i <= n,
            n == v@.len(),
            signed == (n > 0 && (v@[0] == '-' || v@[0] == '+')),
            negative == (signed && v@[0] == '-'),
            start == if signed { 1int } else { 0int },
            start < n,
            digits == v@.skip(start as int),
            all_digits(digits.take(i - start)),
            acc == digits_value(digits.take(i - start)),
            0 <= acc <= 0x8000_0000,
        decreases n - i,
    {
        let c = v[i];
        let ghost seen = digits.take(i - start);
        let ghost next = digits.take(i - start + 1);
        proof {
            assert(digits[i - start] == c);
            assert(next.drop_last() == seen);
            assert(next.last() == c);
        }
        if !(c >= '0' && c <= '9') {
            assert(!is_digit(digits[i - start]));
            assert(v@.skip(0) == v@);
            return None;
        }
        let d: i64 = (c as u32 - '0' as u32) as i64;
        acc = acc * 10 + d;
        proof {
            assert forall|j: int| 0 <= j < next.len() implies is_digit(#[trigger] next[j]) by {
                if j < seen.len() {
                    assert(seen[j] == next[j]);
                }
            }
        }
        if acc > 0x8000_0000 {
            proof {
                assert(v@.skip(0) == v@);
                if all_digits(digits) {
                    lemma_digits_grow(digits, i - start + 1);
                }
            }
            return None;
        }
        i += 1;
    }
    assert(digits.take(n - start) == digits);
    assert(v@.skip(0) == v@);
    let value: i64 = if negative {
        -acc
    } else {
        acc
    };
    if value >= -0x8000_0000 && value <= 0x7fff_ffff {
        Some(value as i32)
    } else {
        None
    }
}

} // verus!
