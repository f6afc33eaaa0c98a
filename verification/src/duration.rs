//! Elapsed times in clock notation.
//!
//! A time is written `H:MM:SS` or `MM:SS`: fields of ASCII digits separated by
//! colons, seconds and (after an hour field) minutes with exactly two digits,
//! both below sixty. The hour field has one digit or more. Anything else is
//! not a time: no sign, no white space, no fraction of a second.

use crate::number::{
    all_digits, decimal, decimal_value, digit_char, digit_to_char, digit_value, is_digit,
    lemma_decimal, lemma_decimal_of_value, lemma_decimal_positive, lemma_digit_char,
    lemma_digit_of_value,
    parse_digits, push_decimal,
};
use crate::text::{
    chars_of, first_match, lemma_split_at_char, lemma_split_char_unfold, lemma_split_no_char,
    spec_split, split, string_of, views,
};
use vstd::prelude::*;

verus! {

/// A whole number of seconds.
#[derive(Clone, Copy, Debug, PartialEq, Eq, Structural)]
pub struct Duration {
    pub seconds: u64,
}

/// The separator between the fields of a time.
pub open spec fn colon() -> Seq<char> {
    seq![':']
}

/// The value of a two-digit field below sixty.
pub open spec fn sixtieth(s: Seq<char>) -> Option<nat> {
    if s.len() == 2 && all_digits(s) && decimal_value(s) < 60 {
        Some(decimal_value(s))
    } else {
        None
    }
}

/// The value of a minute field that leads the text: one or two digits, below
/// sixty.
pub open spec fn leading_minutes(s: Seq<char>) -> Option<nat> {
    if 1 <= s.len() <= 2 && all_digits(s) && decimal_value(s) < 60 {
        Some(decimal_value(s))
    } else {
        None
    }
}

/// The value of an hour field: one digit or more.
pub open spec fn hours(s: Seq<char>) -> Option<nat> {
    if 1 <= s.len() && all_digits(s) {
        Some(decimal_value(s))
    } else {
        None
    }
}

/// The number of seconds that `s` denotes, if it is a time that fits in 64
/// bits.
pub open spec fn spec_parse(s: Seq<char>) -> Option<nat> {
    let parts = spec_split(s, colon());
    if parts.len() == 2 {
        match (leading_minutes(parts[0]), sixtieth(parts[1])) {
            (Some(m), Some(sec)) => Some(m * 60 + sec),
            _ => None,
        }
    } else if parts.len() == 3 {
        match (hours(parts[0]), sixtieth(parts[1]), sixtieth(parts[2])) {
            (Some(h), Some(m), Some(sec)) => if h * 3600 + m * 60 + sec <= u64::MAX {
                Some(h * 3600 + m * 60 + sec)
            } else {
                None
            },
            _ => None,
        }
    } else {
        None
    }
}

/// `n`, which is below a hundred, in two digits.
pub open spec fn two_digits(n: nat) -> Seq<char> {
    seq![digit_char(n / 10), digit_char(n % 10)]
}

/// The text of `seconds`: `MM:SS` below one hour, else the hours in at least
/// two digits, then `:MM:SS`.
pub open spec fn spec_format(seconds: nat) -> Seq<char> {
    let h = seconds / 3600;
    let m = (seconds / 60) % 60;
    let s = seconds % 60;
    if h == 0 {
        two_digits(m) + colon() + two_digits(s)
    } else if h < 10 {
        two_digits(h) + colon() + two_digits(m) + colon() + two_digits(s)
    } else {
        decimal(h) + colon() + two_digits(m) + colon() + two_digits(s)
    }
}

proof fn lemma_two_digits(n: nat)
    requires
        n < 100,
    ensures
        two_digits(n).len() == 2,
        all_digits(two_digits(n)),
        decimal_value(two_digits(n)) == n,
{
    let s = two_digits(n);
    lemma_digit_char(n / 10);
    lemma_digit_char(n % 10);
    assert(s.drop_last() =~= seq![digit_char(n / 10)]);
    assert(s.drop_last().drop_last() =~= Seq::<char>::empty());
    assert(decimal_value(s.drop_last().drop_last()) == 0);
    assert(decimal_value(s.drop_last()) == n / 10);
}

/// A field of digits followed by `:MM:SS` reads back as its three values.
proof fn lemma_parse_three(head: Seq<char>, h: nat, m: nat, s: nat)
    requires
        head.len() >= 1,
        all_digits(head),
        decimal_value(head) == h,
        m < 60,
        s < 60,
        h * 3600 + m * 60 + s <= u64::MAX,
    ensures
        spec_parse(head + colon() + two_digits(m) + colon() + two_digits(s)) == Some(
            h * 3600 + m * 60 + s,
        ),
{
    let t = head + colon() + two_digits(m) + colon() + two_digits(s);
    let n = head.len() as int;
    lemma_two_digits(m);
    lemma_two_digits(s);
    lemma_digit_char(m / 10);
    lemma_digit_char(m % 10);
    lemma_digit_char(s / 10);
    lemma_digit_char(s % 10);
    assert(t.len() == n + 6);
    assert forall|j: int| 0 <= j < n implies t[j] != ':' by {
        assert(t[j] == head[j]);
        assert(is_digit(head[j]));
    }
    assert(t[n] == ':');
    assert(t[n + 1] == digit_char(m / 10));
    assert(t[n + 2] == digit_char(m % 10));
    assert(t[n + 3] == ':');
    assert(t[n + 4] == digit_char(s / 10));
    assert(t[n + 5] == digit_char(s % 10));
    lemma_split_at_char(t, ':', 0, n);
    lemma_split_at_char(t, ':', n + 1, n + 3);
    lemma_split_no_char(t, ':', n + 4);
    let parts = spec_split(t, colon());
    assert(parts =~= seq![t.subrange(0, n), t.subrange(n + 1, n + 3), t.subrange(n + 4, n + 6)]);
    assert(t.subrange(0, n) =~= head);
    assert(t.subrange(n + 1, n + 3) =~= two_digits(m));
    assert(t.subrange(n + 4, n + 6) =~= two_digits(s));
}

/// `MM:SS` reads back as its two values.
proof fn lemma_parse_two(m: nat, s: nat)
    requires
        m < 60,
        s < 60,
    ensures
        spec_parse(two_digits(m) + colon() + two_digits(s)) == Some(m * 60 + s),
{
    let t = two_digits(m) + colon() + two_digits(s);
    lemma_two_digits(m);
    lemma_two_digits(s);
    lemma_digit_char(m / 10);
    lemma_digit_char(m % 10);
    lemma_digit_char(s / 10);
    lemma_digit_char(s % 10);
    assert(t.len() == 5);
    assert(t[0] == digit_char(m / 10));
    assert(t[1] == digit_char(m % 10));
    assert(t[2] == ':');
    assert(t[3] == digit_char(s / 10));
    assert(t[4] == digit_char(s % 10));
    lemma_split_at_char(t, ':', 0, 2);
    lemma_split_no_char(t, ':', 3);
    let parts = spec_split(t, colon());
    assert(parts =~= seq![t.subrange(0, 2), t.subrange(3, 5)]);
    assert(t.subrange(0, 2) =~= two_digits(m));
    assert(t.subrange(3, 5) =~= two_digits(s));
}

/// Writing a duration and reading the text back gives the same duration:
/// nothing is lost on the way through the clock notation.
pub proof fn lemma_format_then_parse(seconds: nat)
    requires
        seconds <= u64::MAX,
    ensures
        spec_parse(spec_format(seconds)) == Some(seconds),
{
    let h = seconds / 3600;
    let m = (seconds / 60) % 60;
    let s = seconds % 60;
    assert(h * 3600 + m * 60 + s == seconds);
    if h == 0 {
        lemma_parse_two(m, s);
    } else if h < 10 {
        lemma_two_digits(h);
        lemma_parse_three(two_digits(h), h, m, s);
    } else {
        lemma_decimal(h);
        lemma_parse_three(decimal(h), h, m, s);
    }
}

/// Two digits are the two-digit text of what they denote.
proof fn lemma_two_digits_of_value(p: Seq<char>)
    requires
        p.len() == 2,
        all_digits(p),
    ensures
        decimal_value(p) < 100,
        two_digits(decimal_value(p)) == p,
{
    assert(is_digit(p[0]) && is_digit(p[1]));
    lemma_digit_of_value(p[0]);
    lemma_digit_of_value(p[1]);
    assert(p.drop_last().drop_last() =~= Seq::<char>::empty());
    assert(decimal_value(p.drop_last().drop_last()) == 0);
    assert(p.drop_last().last() == p[0]);
    assert(decimal_value(p.drop_last()) == digit_value(p[0]));
    assert(decimal_value(p) == digit_value(p[0]) * 10 + digit_value(p[1]));
    assert(two_digits(decimal_value(p)) =~= p);
}

/// The text is written the way a duration is written: minutes and seconds
/// in two digits each; hours, where there are any, not zero, in two digits or
/// more, and in more than two only without a leading zero.
pub open spec fn is_canonical(s: Seq<char>) -> bool {
    let parts = spec_split(s, colon());
    if parts.len() == 2 {
        parts[0].len() == 2
    } else if parts.len() == 3 {
        &&& parts[0].len() >= 2
        &&& decimal_value(parts[0]) > 0
        &&& (parts[0].len() == 2 || parts[0][0] != '0')
    } else {
        false
    }
}

/// A text that is cut into two pieces at its colons is the pieces around one
/// colon.
proof fn lemma_two_parts(s: Seq<char>)
    requires
        spec_split(s, colon()).len() == 2,
    ensures
        s == spec_split(s, colon())[0] + colon() + spec_split(s, colon())[1],
{
    let parts = spec_split(s, colon());
    lemma_split_char_unfold(s, ':', 0);
    let i = first_match(s, colon(), 0)->0;
    lemma_split_char_unfold(s, ':', i + 1);
    if first_match(s, colon(), i + 1) is Some {
        let j = first_match(s, colon(), i + 1)->0;
        lemma_split_char_unfold(s, ':', j + 1);
        assert(parts.len() >= 3);
    }
    assert(parts[0] == s.subrange(0, i));
    assert(parts[1] == s.subrange(i + 1, s.len() as int));
    assert(s =~= parts[0] + colon() + parts[1]);
}

/// A text that is cut into three pieces at its colons is the pieces around
/// two colons.
proof fn lemma_three_parts(s: Seq<char>)
    requires
        spec_split(s, colon()).len() == 3,
    ensures
        s == spec_split(s, colon())[0] + colon() + spec_split(s, colon())[1] + colon()
            + spec_split(s, colon())[2],
{
    let parts = spec_split(s, colon());
    lemma_split_char_unfold(s, ':', 0);
    let i = first_match(s, colon(), 0)->0;
    lemma_split_char_unfold(s, ':', i + 1);
    let j = first_match(s, colon(), i + 1)->0;
    lemma_split_char_unfold(s, ':', j + 1);
    if first_match(s, colon(), j + 1) is Some {
        let k = first_match(s, colon(), j + 1)->0;
        lemma_split_char_unfold(s, ':', k + 1);
        assert(parts.len() >= 4);
    }
    assert(parts[0] == s.subrange(0, i));
    assert(parts[1] == s.subrange(i + 1, j));
    assert(parts[2] == s.subrange(j + 1, s.len() as int));
    assert(s =~= parts[0] + colon() + parts[1] + colon() + parts[2]);
}

/// Hours, minutes and seconds are read back out of their sum.
proof fn lemma_fields_of_total(h: nat, m: nat, sec: nat)
    requires
        m < 60,
        sec < 60,
    ensures
        (h * 3600 + m * 60 + sec) / 3600 == h,
        ((h * 3600 + m * 60 + sec) / 60) % 60 == m,
        (h * 3600 + m * 60 + sec) % 60 == sec,
{
}

/// An hour field in canonical form is the text of the hours it denotes.
proof fn lemma_hours_text(p: Seq<char>)
    requires
        all_digits(p),
        p.len() >= 2,
        decimal_value(p) > 0,
        p.len() == 2 || p[0] != '0',
    ensures
        decimal_value(p) < 10 ==> two_digits(decimal_value(p)) == p,
        decimal_value(p) >= 10 ==> decimal(decimal_value(p)) == p,
{
    let head = p.drop_last();
    assert(head[0] == p[0]);
    assert forall|k: int| 0 <= k < head.len() implies is_digit(#[trigger] head[k]) by {
        assert(head[k] == p[k]);
    }
    assert(is_digit(p.last()));
    lemma_digit_of_value(p.last());
    lemma_digit_of_value(p[0]);
    if p[0] != '0' {
        lemma_decimal_positive(head);
        lemma_decimal_of_value(p);
    } else {
        lemma_two_digits_of_value(p);
        assert(head.drop_last() =~= Seq::<char>::empty());
        assert(decimal_value(head.drop_last()) == 0);
        assert(decimal_value(head) == digit_value(p[0]));
    }
    if p.len() == 2 {
        lemma_two_digits_of_value(p);
    }
}

/// Reading a time that is written the canonical way, and writing the duration
/// again, gives the same text.
pub proof fn lemma_parse_then_format(s: Seq<char>)
    requires
        spec_parse(s) is Some,
        is_canonical(s),
    ensures
        spec_format(spec_parse(s)->0) == s,
{
    let parts = spec_split(s, colon());
    if parts.len() == 2 {
        lemma_two_parts(s);
        lemma_two_digits_of_value(parts[0]);
        lemma_two_digits_of_value(parts[1]);
        lemma_fields_of_total(0, decimal_value(parts[0]), decimal_value(parts[1]));
    } else {
        lemma_three_parts(s);
        lemma_two_digits_of_value(parts[1]);
        lemma_two_digits_of_value(parts[2]);
        lemma_hours_text(parts[0]);
        lemma_fields_of_total(
            decimal_value(parts[0]),
            decimal_value(parts[1]),
            decimal_value(parts[2]),
        );
    }
}

fn push_two_digits(out: &mut Vec<char>, n: u64)
    requires
        n < 100,
    ensures
        final(out)@ == old(out)@ + two_digits(n as nat),
{
    out.push(digit_to_char(n / 10));
    out.push(digit_to_char(n % 10));
    assert(out@ =~= old(out)@ + two_digits(n as nat));
}

impl Duration {
    /// The duration of `seconds` seconds.
    pub fn new(seconds: u64) -> (d: Duration)
        ensures
            d.seconds == seconds,
    {
        Duration { seconds }
    }

    /// Reads a time from its characters.
    pub fn parse_chars(s: &[char]) -> (r: Option<Duration>)
        ensures
            r is Some <==> spec_parse(s@) is Some,
            r matches Some(d) ==> spec_parse(s@) == Some(d.seconds as nat),
    {
        let sep: [char; 1] = [':'];
        assert(sep@ =~= colon());
        let parts = split(s, sep.as_slice());
        assert(views(parts@).len() == parts@.len());
        if parts.len() == 2 {
            assert(views(parts@)[0] == parts@[0]@);
            assert(views(parts@)[1] == parts@[1]@);
            if parts[0].len() > 2 || parts[1].len() != 2 {
                return None;
            }
            match (parse_digits(parts[0].as_slice(), 59), parse_digits(parts[1].as_slice(), 59)) {
                (Some(m), Some(sec)) => Some(Duration { seconds: m * 60 + sec }),
                _ => None,
            }
        } else if parts.len() == 3 {
            assert(views(parts@)[0] == parts@[0]@);
            assert(views(parts@)[1] == parts@[1]@);
            assert(views(parts@)[2] == parts@[2]@);
            if parts[1].len() != 2 || parts[2].len() != 2 {
                return None;
            }
            match (
                parse_digits(parts[0].as_slice(), u64::MAX),
                parse_digits(parts[1].as_slice(), 59),
                parse_digits(parts[2].as_slice(), 59),
            ) {
                (Some(h), Some(m), Some(sec)) => {
                    let total: u128 = h as u128 * 3600 + m as u128 * 60 + sec as u128;
                    if total <= u64::MAX as u128 {
                        Some(Duration { seconds: total as u64 })
                    } else {
                        None
                    }
                },
                _ => None,
            }
        } else {
            None
        }
    }

    /// Reads a time.
    pub fn parse(text: &str) -> (r: Option<Duration>)
        ensures
            r is Some <==> spec_parse(text@) is Some,
            r matches Some(d) ==> spec_parse(text@) == Some(d.seconds as nat),
    {
        let s = chars_of(text);
        Duration::parse_chars(s.as_slice())
    }

    /// Writes the duration in clock notation.
    pub fn to_text(&self) -> (s: String)
        ensures
            s@ == spec_format(self.seconds as nat),
    {
        let h = self.seconds / 3600;
        let m = (self.seconds / 60) % 60;
        let sec = self.seconds % 60;
        let mut out: Vec<char> = Vec::new();
        if h > 0 {
            if h < 10 {
                push_two_digits(&mut out, h);
            } else {
                push_decimal(&mut out, h);
            }
            out.push(':');
        }
        push_two_digits(&mut out, m);
        out.push(':');
        push_two_digits(&mut out, sec);
        assert(out@ =~= spec_format(self.seconds as nat));
        string_of(out.as_slice())
    }
}

} // verus!
