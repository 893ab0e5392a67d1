//! Whole numbers written in decimal.
//!
//! A number is an optional sign and then one or more of the digits `0` to
//! `9`, with nothing before, between or after.  A `+` is always accepted as
//! the sign; a `-` only where the number may be negative.

use vstd::prelude::*;
use vstd::string::*;

verus! {

/// `c` is one of the digits `0` to `9`.
pub open spec fn is_digit(c: char) -> bool {
    '0' <= c <= '9'
}

/// What a digit counts for: `0` for nothing, `9` for nine.
pub open spec fn digit_of(c: char) -> nat {
    if is_digit(c) {
        (c as u32 - 48) as nat
    } else {
        0
    }
}

/// Every character of `s` is a digit.
pub open spec fn all_digits(s: Seq<char>) -> bool {
    forall|i: int| 0 <= i < s.len() ==> is_digit(#[trigger] s[i])
}

/// The number that the digits `s` spell, the first digit weighing most.
pub open spec fn digits_value(s: Seq<char>) -> nat
    decreases s.len(),
{
    if s.len() == 0 {
        0
    } else {
        10 * digits_value(s.drop_last()) + digit_of(s.last())
    }
}

/// The number written by `s` without a sign, if `s` is one or more digits.
pub open spec fn digits(s: Seq<char>) -> Option<int> {
    if s.len() > 0 && all_digits(s) {
        Some(digits_value(s) as int)
    } else {
        None
    }
}

/// The number written by `text`, if it writes one.  A leading `-` is read
/// as a sign only where `signed` holds.
pub open spec fn decimal(text: Seq<char>, signed: bool) -> Option<int> {
    if text.len() > 0 && text[0] == '+' {
        digits(text.skip(1))
    } else if signed && text.len() > 0 && text[0] == '-' {
        match digits(text.skip(1)) {
            Some(v) => Some(-v),
            None => None,
        }
    } else {
        digits(text)
    }
}

/// `v`, if it is a number from `low` to `high`.
pub open spec fn within(v: Option<int>, low: int, high: int) -> Option<int> {
    match v {
        Some(n) => if low <= n <= high {
            Some(n)
        } else {
            None
        },
        None => None,
    }
}

/// The `u8` that `text` writes, if it writes one.
pub open spec fn number_u8(text: Seq<char>) -> Option<u8> {
    match within(decimal(text, false), 0, u8::MAX as int) {
        Some(n) => Some(n as u8),
        None => None,
    }
}

/// The `u32` that `text` writes, if it writes one.
pub open spec fn number_u32(text: Seq<char>) -> Option<u32> {
    match within(decimal(text, false), 0, u32::MAX as int) {
        Some(n) => Some(n as u32),
        None => None,
    }
}

/// The `i32` that `text` writes, if it writes one.
pub open spec fn number_i32(text: Seq<char>) -> Option<i32> {
    match within(decimal(text, true), i32::MIN as int, i32::MAX as int) {
        Some(n) => Some(n as i32),
        None => None,
    }
}

/// Digits spell at least what any of their leading parts spells.
proof fn lemma_digits_grow(s: Seq<char>, n: int)
    requires
        0 <= n <= s.len(),
    ensures
        digits_value(s.subrange(0, n)) <= digits_value(s),
    decreases s.len() - n,
{
    if n == s.len() {
        assert(s.subrange(0, n) =~= s);
    } else {
        lemma_digits_grow(s.drop_last(), n);
        assert(s.drop_last().subrange(0, n) =~= s.subrange(0, n));
    }
}

/// Reads the digits of `text` from position `start` to its end.
fn parse_magnitude(text: &str, start: usize, limit: u64) -> (r: Option<u64>)
    requires
        is_ascii(text),
        start <= text@.len(),
        limit <= 0x1_0000_0000,
    ensures
        r == match within(digits(text@.skip(start as int)), 0, limit as int) {
            Some(n) => Some(n as u64),
            None => None::<u64>,
        },
{
    broadcast use is_ascii_spec_bytes;

    let len: usize = text.as_bytes().len();
    let ghost tail = text@.skip(start as int);
    if start == len {
        return None;
    }
    let mut value: u64 = 0;
    let mut i: usize = start;
    while i < len
        invariant
            is_ascii(text),
            len == text@.len(),
            tail == text@.skip(start as int),
            start <= i <= len,
            limit <= 0x1_0000_0000,
            all_digits(tail.subrange(0, i - start)),
            value == digits_value(tail.subrange(0, i - start)),
            value <= limit,
        decreases len - i,
    {
        let b: u8 = text.get_ascii(i);
        let ghost c = text@[i as int];
        assert(tail[i - start] == c);
        if b < 48 || b > 57 {
            assert(!is_digit(c));
            return None;
        }
        let ghost shorter = tail.subrange(0, i - start);
        let ghost longer = tail.subrange(0, i - start + 1);
        proof {
            assert(longer.drop_last() =~= shorter);
            assert(longer.last() == c);
            assert(c as u32 == b);
            assert forall|j: int| 0 <= j < longer.len() implies is_digit(#[trigger] longer[j]) by {
                if j < shorter.len() {
                    assert(longer[j] == shorter[j]);
                }
            }
        }
        let next: u64 = 10 * value + (b - 48) as u64;
        if next > limit {
            proof {
                if all_digits(tail) {
                    lemma_digits_grow(tail, i - start + 1);
                }
            }
            return None;
        }
        value = next;
        i += 1;
    }
    assert(tail.subrange(0, i - start) =~= tail);
    Some(value)
}

/// Reads a number from `low` to `high`; a `-` is a sign where `low` is
/// negative.
fn parse_within(text: &str, low: i64, high: i64) -> (r: Option<i64>)
    requires
        -0x1_0000_0000 <= low <= 0 <= high <= 0x1_0000_0000,
    ensures
        r == match within(decimal(text@, low < 0), low as int, high as int) {
            Some(n) => Some(n as i64),
            None => None::<i64>,
        },
{
    broadcast use is_ascii_spec_bytes;

    if !text.is_ascii() {
        proof {
            let t = text@;
            let k = choose|k: int| 0 <= k < t.len() && !('\0' <= #[trigger] t[k] <= '\u{7f}');
            assert(!is_digit(t[k]));
            if k > 0 {
                assert(t.skip(1)[k - 1] == t[k]);
            }
        }
        return None;
    }
    let len: usize = text.as_bytes().len();
    if len == 0 {
        return None;
    }
    let first: u8 = text.get_ascii(0);
    assert(text@[0] as u32 == first);
    let negative: bool = low < 0 && first == 45;
    let start: usize = if first == 43 || negative {
        1
    } else {
        0
    };
    assert(text@.skip(0) =~= text@);
    if negative {
        match parse_magnitude(text, start, (-low) as u64) {
            Some(m) => Some(-(m as i64)),
            None => None,
        }
    } else {
        match parse_magnitude(text, start, high as u64) {
            Some(m) => Some(m as i64),
            None => None,
        }
    }
}

/// Reads a `u8`: digits, or `+` and digits, that spell at most 255.
pub fn parse_u8(text: &str) -> (r: Option<u8>)
    ensures
        r == number_u8(text@),
{
    match parse_within(text, 0, 255) {
        Some(n) => Some(n as u8),
        None => None,
    }
}

/// Reads a `u32`: digits, or `+` and digits, that spell at most
/// 4294967295.
pub fn parse_u32(text: &str) -> (r: Option<u32>)
    ensures
        r == number_u32(text@),
{
    match parse_within(text, 0, 0xffff_ffff) {
        Some(n) => Some(n as u32),
        None => None,
    }
}

/// Reads an `i32`: digits, or a sign and digits, that spell a number from
/// -2147483648 to 2147483647.
pub fn parse_i32(text: &str) -> (r: Option<i32>)
    ensures
        r == number_i32(text@),
{
    match parse_within(text, -0x8000_0000, 0x7fff_ffff) {
        Some(n) => Some(n as i32),
        None => None,
    }
}

} // verus!
