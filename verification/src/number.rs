//! Decimal integers as they appear in result tables.
//!
//! The accepted form is that of the standard library's integer parsing for
//! unsigned types: an optional `+`, then one or more ASCII digits, nothing else,
//! and a value that fits the type. Ranks, ages and places use the strictly
//! positive variants, for which zero is as invalid as a letter.

use crate::text::string_of;
use vstd::prelude::*;

verus! {

/// `c` is one of the ten ASCII digits.
pub open spec fn is_digit(c: char) -> bool {
    0x30 <= c as u32 <= 0x39
}

/// The value of the ASCII digit `c`.
pub open spec fn digit_value(c: char) -> nat {
    (c as u32 - 0x30) as nat
}

/// Every character of `s` is an ASCII digit.
pub open spec fn all_digits(s: Seq<char>) -> bool {
    forall|i: int| 0 <= i < s.len() ==> is_digit(#[trigger] s[i])
}

/// The number that the digit string `s` denotes in base ten (0 for the empty
/// string).
pub open spec fn decimal_value(s: Seq<char>) -> nat
    decreases s.len(),
{
    if s.len() == 0 {
        0
    } else {
        decimal_value(s.drop_last()) * 10 + digit_value(s.last())
    }
}

/// `s` without a leading `+`.
pub open spec fn unsigned_digits(s: Seq<char>) -> Seq<char> {
    if s.len() > 0 && s[0] == '+' {
        s.subrange(1, s.len() as int)
    } else {
        s
    }
}

/// The value of `s` read as an unsigned decimal integer no larger than `max`.
pub open spec fn spec_parse_unsigned(s: Seq<char>, max: nat) -> Option<nat> {
    let d = unsigned_digits(s);
    if d.len() > 0 && all_digits(d) && decimal_value(d) <= max {
        Some(decimal_value(d))
    } else {
        None
    }
}

/// As `spec_parse_unsigned`, but zero is refused too.
pub open spec fn spec_parse_positive(s: Seq<char>, max: nat) -> Option<nat> {
    match spec_parse_unsigned(s, max) {
        Some(v) => if v > 0 {
            Some(v)
        } else {
            None
        },
        None => None,
    }
}

/// A prefix of a digit string never denotes more than the whole string.
pub proof fn lemma_decimal_prefix(s: Seq<char>, k: int)
    requires
        0 <= k <= s.len(),
    ensures
        decimal_value(s.take(k)) <= decimal_value(s),
    decreases s.len(),
{
    if k == s.len() {
        assert(s.take(k) =~= s);
    } else {
        lemma_decimal_prefix(s.drop_last(), k);
        assert(s.drop_last().take(k) =~= s.take(k));
    }
}

/// The value of the digit `c`, if it is one.
pub fn digit_of(c: char) -> (r: Option<u8>)
    ensures
        r is Some <==> is_digit(c),
        r matches Some(d) ==> d == digit_value(c) && d <= 9,
{
    let n: u32 = c as u32;
    if 0x30 <= n && n <= 0x39 {
        Some((n - 0x30) as u8)
    } else {
        None
    }
}

/// Reads `s` as an unsigned decimal integer no larger than `max`.
pub fn parse_unsigned(s: &[char], max: u64) -> (r: Option<u64>)
    ensures
        r is Some <==> spec_parse_unsigned(s@, max as nat) is Some,
        r matches Some(v) ==> spec_parse_unsigned(s@, max as nat) == Some(v as nat),
{
    let len = s.len();
    let start: usize = if len > 0 && s[0] == '+' {
        1
    } else {
        0
    };
    if start == len {
        return None;
    }
    let ghost d = unsigned_digits(s@);
    assert(d =~= s@.subrange(start as int, len as int));
    let mut acc: u64 = 0;
    let mut i: usize = start;
    while i < len
        invariant
            len == s@.len(),
            start <= i <= len,
            d == s@.subrange(start as int, len as int),
            d == unsigned_digits(s@),
            all_digits(d.take(i - start)),
            acc == decimal_value(d.take(i - start)),
            acc <= max,
        decreases len - i,
    {
        let ghost k = i - start;
        proof {
            assert(d.take(k + 1).drop_last() =~= d.take(k));
            assert(d.take(k + 1).last() == d[k]);
            assert(d[k] == s@[i as int]);
        }
        match digit_of(s[i]) {
            None => {
                assert(!is_digit(d[k]));
                return None;
            },
            Some(dv) => {
                let next: u128 = acc as u128 * 10 + dv as u128;
                assert(next == decimal_value(d.take(k + 1)));
                if next > max as u128 {
                    proof {
                        lemma_decimal_prefix(d, k + 1);
                    }
                    return None;
                }
                acc = next as u64;
                assert forall|j: int| 0 <= j < k + 1 implies is_digit(
                    #[trigger] d.take(k + 1)[j],
                ) by {
                    if j < k {
                        assert(d.take(k + 1)[j] == d.take(k)[j]);
                    }
                }
            },
        }
        i = i + 1;
    }
    assert(d.take(len - start) =~= d);
    Some(acc)
}

/// The value of `s` as a `u16`.
pub open spec fn spec_parse_u16(s: Seq<char>) -> Option<u16> {
    match spec_parse_unsigned(s, 0xffff) {
        Some(v) => Some(v as u16),
        None => None,
    }
}

/// The value of `s` as a `u8`.
pub open spec fn spec_parse_u8(s: Seq<char>) -> Option<u8> {
    match spec_parse_unsigned(s, 0xff) {
        Some(v) => Some(v as u8),
        None => None,
    }
}

/// The value of `s` as a `u16` other than zero.
pub open spec fn spec_parse_positive_u16(s: Seq<char>) -> Option<u16> {
    match spec_parse_positive(s, 0xffff) {
        Some(v) => Some(v as u16),
        None => None,
    }
}

/// The value of `s` as a `u8` other than zero.
pub open spec fn spec_parse_positive_u8(s: Seq<char>) -> Option<u8> {
    match spec_parse_positive(s, 0xff) {
        Some(v) => Some(v as u8),
        None => None,
    }
}

/// Reads `s` as a `u16`.
pub fn parse_u16(s: &[char]) -> (r: Option<u16>)
    ensures
        r == spec_parse_u16(s@),
{
    match parse_unsigned(s, 0xffff) {
        Some(v) => Some(v as u16),
        None => None,
    }
}

/// Reads `s` as a `u8`.
pub fn parse_u8(s: &[char]) -> (r: Option<u8>)
    ensures
        r == spec_parse_u8(s@),
{
    match parse_unsigned(s, 0xff) {
        Some(v) => Some(v as u8),
        None => None,
    }
}

/// Reads `s` as a strictly positive `u16`.
pub fn parse_positive_u16(s: &[char]) -> (r: Option<u16>)
    ensures
        r == spec_parse_positive_u16(s@),
        r matches Some(v) ==> v > 0,
{
    match parse_unsigned(s, 0xffff) {
        Some(v) => if v > 0 {
            Some(v as u16)
        } else {
            None
        },
        None => None,
    }
}

/// Reads `s` as a strictly positive `u8`.
pub fn parse_positive_u8(s: &[char]) -> (r: Option<u8>)
    ensures
        r == spec_parse_positive_u8(s@),
        r matches Some(v) ==> v > 0,
{
    match parse_unsigned(s, 0xff) {
        Some(v) => if v > 0 {
            Some(v as u8)
        } else {
            None
        },
        None => None,
    }
}

/// Reads `s` as a string of digits, without a sign, that denotes at most `max`.
pub fn parse_digits(s: &[char], max: u64) -> (r: Option<u64>)
    ensures
        r is Some <==> s@.len() >= 1 && all_digits(s@) && decimal_value(s@) <= max,
        r matches Some(v) ==> v == decimal_value(s@),
{
    if s.len() == 0 {
        return None;
    }
    if s[0] == '+' {
        assert(!is_digit(s@[0]));
        return None;
    }
    parse_unsigned(s, max)
}

/// The ASCII digit for `d`, which is below ten.
pub open spec fn digit_char(d: nat) -> char {
    (0x30 + d) as char
}

/// `n` in decimal, without leading zeros.
pub open spec fn decimal(n: nat) -> Seq<char>
    decreases n,
{
    if n < 10 {
        seq![digit_char(n)]
    } else {
        decimal(n / 10).push(digit_char(n % 10))
    }
}

/// The digit characters stand for their values, and none is a colon.
pub proof fn lemma_digit_char(d: nat)
    requires
        d < 10,
    ensures
        is_digit(digit_char(d)),
        digit_value(digit_char(d)) == d,
        digit_char(d) != ':',
{
}

/// `decimal` writes a number that reads back as itself.
pub proof fn lemma_decimal(n: nat)
    ensures
        decimal(n).len() >= 1,
        all_digits(decimal(n)),
        decimal_value(decimal(n)) == n,
    decreases n,
{
    let s = decimal(n);
    lemma_digit_char(n % 10);
    if n < 10 {
        assert(s.drop_last() =~= Seq::<char>::empty());
        assert(decimal_value(s.drop_last()) == 0);
    } else {
        lemma_decimal(n / 10);
        assert(s.drop_last() =~= decimal(n / 10));
        assert(s.last() == digit_char(n % 10));
        assert(decimal_value(s) == (n / 10) * 10 + n % 10);
        assert forall|i: int| 0 <= i < s.len() implies is_digit(#[trigger] s[i]) by {
            if i < s.len() - 1 {
                assert(s[i] == decimal(n / 10)[i]);
            }
        }
    }
}

/// The character for the digit `d`.
pub fn digit_to_char(d: u64) -> (c: char)
    requires
        d < 10,
    ensures
        c == digit_char(d as nat),
{
    (0x30u8 + d as u8) as char
}

/// Appends `n` in decimal to `out`.
pub fn push_decimal(out: &mut Vec<char>, n: u64)
    ensures
        final(out)@ == old(out)@ + decimal(n as nat),
    decreases n,
{
    if n < 10 {
        out.push(digit_to_char(n));
        assert(out@ =~= old(out)@ + decimal(n as nat));
    } else {
        push_decimal(out, n / 10);
        out.push(digit_to_char(n % 10));
        assert(out@ =~= old(out)@ + decimal(n as nat));
    }
}

/// `n` in decimal, as a string.
pub fn decimal_string(n: u64) -> (s: String)
    ensures
        s@ == decimal(n as nat),
{
    let mut out: Vec<char> = Vec::new();
    push_decimal(&mut out, n);
    assert(out@ =~= decimal(n as nat));
    string_of(out.as_slice())
}

/// A digit is the character of its value.
pub proof fn lemma_digit_of_value(c: char)
    requires
        is_digit(c),
    ensures
        digit_value(c) <= 9,
        digit_char(digit_value(c)) == c,
        c != '0' ==> digit_value(c) >= 1,
{
    let n = c as u32;
    assert(0x30 + digit_value(c) == n);
    assert(n as char == c);
    assert('0' as u32 == 0x30);
}

/// A digit string that does not start with a zero denotes at least one.
pub proof fn lemma_decimal_positive(s: Seq<char>)
    requires
        s.len() >= 1,
        all_digits(s),
        s[0] != '0',
    ensures
        decimal_value(s) >= 1,
{
    let first = s.take(1);
    lemma_decimal_prefix(s, 1);
    assert(first.drop_last() =~= Seq::<char>::empty());
    assert(decimal_value(first.drop_last()) == 0);
    assert(first.last() == s[0]);
    assert(is_digit(s[0]));
    lemma_digit_of_value(s[0]);
    assert(decimal_value(first) == digit_value(s[0]));
}

/// Writing the number that a digit string denotes gives the string back, if
/// the string has no leading zero (a lone zero is fine).
pub proof fn lemma_decimal_of_value(s: Seq<char>)
    requires
        s.len() >= 1,
        all_digits(s),
        s.len() == 1 || s[0] != '0',
    ensures
        decimal(decimal_value(s)) == s,
    decreases s.len(),
{
    let head = s.drop_last();
    let c = s.last();
    assert(is_digit(c));
    lemma_digit_of_value(c);
    if s.len() == 1 {
        assert(head =~= Seq::<char>::empty());
        assert(decimal_value(head) == 0);
        assert(decimal(decimal_value(s)) =~= s);
    } else {
        assert(head[0] == s[0]);
        assert forall|i: int| 0 <= i < head.len() implies is_digit(#[trigger] head[i]) by {
            assert(head[i] == s[i]);
        }
        lemma_decimal_positive(head);
        lemma_decimal_of_value(head);
        let v = decimal_value(s);
        assert(v == decimal_value(head) * 10 + digit_value(c));
        assert(v / 10 == decimal_value(head));
        assert(v % 10 == digit_value(c));
        assert(decimal(v) =~= head.push(c));
        assert(head.push(c) =~= s);
    }
}

} // verus!
