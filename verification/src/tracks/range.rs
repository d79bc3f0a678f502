//! Byte ranges and unsigned numbers as the manifest and the headers
//! write them.

use super::segment::{spec_decimal, spec_range_header};
use super::Tracks;
use crate::error::PlayerError;
use vstd::prelude::*;

verus! {

/// The place of the first hyphen of `s` at or after `from`, or the length
/// of `s` where there is none.
pub open spec fn spec_hyphen(s: Seq<u8>, from: int) -> int
    decreases s.len() - from,
{
    if from >= s.len() {
        s.len() as int
    } else if s[from] == 0x2D {
        from
    } else {
        spec_hyphen(s, from + 1)
    }
}

/// Whether every byte of `digits` is an ASCII digit.
pub open spec fn spec_all_digits(digits: Seq<u8>) -> bool {
    forall|i: int| 0 <= i < digits.len() ==> 0x30 <= #[trigger] digits[i] <= 0x39
}

/// The number that the ASCII digits `digits` write in base ten.
pub open spec fn spec_digits_value(digits: Seq<u8>) -> int
    decreases digits.len(),
{
    if digits.len() == 0 {
        0
    } else {
        spec_digits_value(digits.drop_last()) * 10 + (digits.last() - 0x30)
    }
}

/// The unsigned number that `field` writes: an optional plus sign, then
/// one or more digits whose value fits 64 bits.
pub open spec fn spec_parse_u64(field: Seq<u8>) -> Option<u64> {
    let digits = if field.len() > 0 && field[0] == 0x2B {
        field.skip(1)
    } else {
        field
    };
    if digits.len() > 0 && spec_all_digits(digits) && spec_digits_value(digits) <= u64::MAX {
        Some(spec_digits_value(digits) as u64)
    } else {
        None
    }
}

/// The byte range that `text` writes as `start-end`. The text is cut at
/// its hyphens; the first two pieces must each write a number, and
/// further pieces are not looked at.
pub open spec fn spec_parse_range(text: Seq<u8>) -> Option<(u64, u64)> {
    let first_end = spec_hyphen(text, 0);
    if first_end >= text.len() {
        None
    } else {
        let second_end = spec_hyphen(text, first_end + 1);
        match (
            spec_parse_u64(text.subrange(0, first_end)),
            spec_parse_u64(text.subrange(first_end + 1, second_end)),
        ) {
            (Some(start), Some(end)) => Some((start, end)),
            _ => None,
        }
    }
}

proof fn lemma_digits_value_prefix(digits: Seq<u8>, k: int)
    requires
        spec_all_digits(digits),
        0 <= k <= digits.len(),
    ensures
        0 <= spec_digits_value(digits.take(k)) <= spec_digits_value(digits),
    decreases digits.len(),
{
    if k == digits.len() {
        assert(digits.take(k) =~= digits);
        if digits.len() > 0 {
            lemma_digits_value_prefix(digits.drop_last(), k - 1);
            assert(digits.drop_last().take(k - 1) =~= digits.drop_last());
        }
    } else {
        lemma_digits_value_prefix(digits.drop_last(), k);
        assert(digits.drop_last().take(k) =~= digits.take(k));
    }
}

fn find_hyphen(s: &[u8], from: usize) -> (at: usize)
    requires
        from <= s.len(),
    ensures
        at == spec_hyphen(s@, from as int),
        from <= at <= s.len(),
{
    let mut at: usize = from;
    while at < s.len() && s[at] != 0x2D
        invariant
            from <= at <= s.len(),
            spec_hyphen(s@, from as int) == spec_hyphen(s@, at as int),
        decreases s.len() - at,
    {
        at = at + 1;
    }
    at
}

#[verifier::loop_isolation(false)]
fn parse_u64_field(s: &[u8], from: usize, to: usize) -> (value: Option<u64>)
    requires
        from <= to <= s.len(),
    ensures
        value == spec_parse_u64(s@.subrange(from as int, to as int)),
{
    let ghost field = s@.subrange(from as int, to as int);
    let first: usize = if from < to && s[from] == 0x2B {
        from + 1
    } else {
        from
    };
    let ghost digits = s@.subrange(first as int, to as int);
    proof {
        if first == from {
            assert(digits =~= field);
        } else {
            assert(digits =~= field.skip(1));
        }
    }
    if first == to {
        return None;
    }
    let mut acc: u64 = 0;
    let mut i: usize = first;
    while i < to
        invariant
            first <= i <= to <= s.len(),
            digits == s@.subrange(first as int, to as int),
            spec_all_digits(digits.take(i - first)),
            acc == spec_digits_value(digits.take(i - first)),
        decreases to - i,
    {
        let byte: u8 = s[i];
        let ghost next = digits.take(i - first + 1);
        proof {
            assert(next.drop_last() =~= digits.take(i - first));
            assert(next.last() == byte);
        }
        if byte < 0x30 || byte > 0x39 {
            proof {
                assert(digits[i - first] == byte);
            }
            return None;
        }
        let digit: u64 = (byte - 0x30) as u64;
        if acc > (u64::MAX - digit) / 10 {
            proof {
                if spec_all_digits(digits) {
                    lemma_digits_value_prefix(digits, i - first + 1);
                }
            }
            return None;
        }
        acc = acc * 10 + digit;
        proof {
            assert forall|j: int| 0 <= j < next.len() implies 0x30 <= #[trigger] next[j]
                <= 0x39 by {
                if j < next.len() - 1 {
                    assert(next[j] == digits.take(i - first)[j]);
                }
            }
        }
        i = i + 1;
    }
    proof {
        assert(digits.take(to - first) =~= digits);
    }
    Some(acc)
}

impl Tracks {
    /// Reads an unsigned number: an optional plus sign, then digits.
    pub fn parse_u64(text: &str) -> (value: Option<u64>)
        ensures
            value == spec_parse_u64(vstd::utf8::encode_utf8(text@)),
    {
        let bytes: &[u8] = text.as_bytes();
        assert(bytes@.subrange(0, bytes@.len() as int) =~= bytes@);
        parse_u64_field(bytes, 0, bytes.len())
    }

    /// Reads a byte range written as `start-end`.
    pub fn parse_range(range: &str) -> (result: Result<(u64, u64), PlayerError>)
        ensures
            match result {
                Ok(pair) => spec_parse_range(vstd::utf8::encode_utf8(range@)) == Some(pair),
                Err(e) => e == PlayerError::RangeSyntaxError && spec_parse_range(
                    vstd::utf8::encode_utf8(range@),
                ) is None,
            },
    {
        let text: &[u8] = range.as_bytes();
        let first_end: usize = find_hyphen(text, 0);
        if first_end >= text.len() {
            return Err(PlayerError::RangeSyntaxError);
        }
        let start: u64 = match parse_u64_field(text, 0, first_end) {
            Some(start) => start,
            None => {
                return Err(PlayerError::RangeSyntaxError);
            },
        };
        let second_end: usize = find_hyphen(text, first_end + 1);
        match parse_u64_field(text, first_end + 1, second_end) {
            Some(end) => Ok((start, end)),
            None => Err(PlayerError::RangeSyntaxError),
        }
    }
}

proof fn lemma_decimal_digits(n: nat)
    ensures
        spec_decimal(n).len() >= 1,
        spec_all_digits(spec_decimal(n)),
        spec_digits_value(spec_decimal(n)) == n,
    decreases n,
{
    if n >= 10 {
        lemma_decimal_digits(n / 10);
        let front = spec_decimal(n / 10);
        let all = spec_decimal(n);
        assert(all.drop_last() =~= front);
        assert forall|i: int| 0 <= i < all.len() implies 0x30 <= #[trigger] all[i] <= 0x39 by {
            if i < front.len() {
                assert(all[i] == front[i]);
            }
        }
    } else {
        let all = spec_decimal(n);
        assert(all.drop_last() =~= Seq::<u8>::empty());
        assert(spec_digits_value(all.drop_last()) == 0);
    }
}

proof fn lemma_hyphen_after_digits(text: Seq<u8>, from: int, to: int)
    requires
        0 <= from <= to <= text.len(),
        forall|i: int| from <= i < to ==> text[i] != 0x2D,
        to < text.len() ==> text[to] == 0x2D,
    ensures
        spec_hyphen(text, from) == to,
    decreases to - from,
{
    if from < to {
        lemma_hyphen_after_digits(text, from + 1, to);
    }
}

/// The range that a `Range` header value asks for is read back from its
/// text: what follows `bytes=` is a range, and it is the range that the
/// value was written for.
pub proof fn lemma_range_header_round_trip(start: u64, end: u64)
    ensures
        spec_parse_range(spec_range_header(start, end).skip(6)) == Some((start, end)),
{
    let first = spec_decimal(start as nat);
    let second = spec_decimal(end as nat);
    let text = spec_range_header(start, end).skip(6);
    lemma_decimal_digits(start as nat);
    lemma_decimal_digits(end as nat);
    assert(text =~= first + seq![0x2Du8] + second);
    let cut = first.len() as int;
    assert forall|i: int| 0 <= i < cut implies text[i] != 0x2D by {
        assert(text[i] == first[i]);
    }
    assert(text[cut] == 0x2D);
    lemma_hyphen_after_digits(text, 0, cut);
    assert forall|i: int| cut + 1 <= i < text.len() implies text[i] != 0x2D by {
        assert(text[i] == second[i - cut - 1]);
    }
    lemma_hyphen_after_digits(text, cut + 1, text.len() as int);
    assert(text.subrange(0, cut) =~= first);
    assert(text.subrange(cut + 1, text.len() as int) =~= second);
    assert(first[0] != 0x2B);
    assert(second[0] != 0x2B);
}

/// The value of a `Range` header is made of visible ASCII characters
/// only, which is what a header value may hold.
pub proof fn lemma_range_header_is_visible_ascii(start: u64, end: u64)
    ensures
        forall|i: int|
            0 <= i < spec_range_header(start, end).len() ==> 0x20 < #[trigger] spec_range_header(
                start,
                end,
            )[i] < 0x7F,
{
    let first = spec_decimal(start as nat);
    let second = spec_decimal(end as nat);
    let value = spec_range_header(start, end);
    lemma_decimal_digits(start as nat);
    lemma_decimal_digits(end as nat);
    assert forall|i: int| 0 <= i < value.len() implies 0x20 < #[trigger] value[i] < 0x7F by {
        if i < 6 {
        } else if i < 6 + first.len() {
            assert(value[i] == first[i - 6]);
        } else if i == 6 + first.len() {
        } else {
            assert(value[i] == second[i - 7 - first.len()]);
        }
    }
}

} // verus!
