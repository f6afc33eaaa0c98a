//! Scanning markup left to right.
//!
//! Some listings are not addressable by element: their tables are read from
//! the page source. A scan holds a position in the text and moves it forward:
//! over white space, over a tag that must stand right there, or to the next
//! occurrence of a delimiter. Every step either gives the new position or
//! fails, and never moves backwards.

use crate::text::{find_from, first_match, lemma_first_match, matches_at, occurs_at};
use vstd::prelude::*;

verus! {

/// A position as the contracts see it.
pub open spec fn as_int(p: Option<usize>) -> Option<int> {
    match p {
        Some(i) => Some(i as int),
        None => None,
    }
}

/// Blank, tab, carriage return or line feed.
pub open spec fn is_space(c: char) -> bool {
    c == ' ' || c == '\t' || c == '\r' || c == '\n'
}

/// The first position at or after `pos` that holds no white space.
pub open spec fn spec_skip_space(s: Seq<char>, pos: int) -> int
    decreases s.len() - pos,
{
    if 0 <= pos < s.len() && is_space(s[pos]) {
        spec_skip_space(s, pos + 1)
    } else {
        pos
    }
}

/// The position after `tag`, if `tag` stands at `pos`.
pub open spec fn spec_expect(s: Seq<char>, pos: int, tag: Seq<char>) -> Option<int> {
    if matches_at(s, tag, pos) {
        Some(pos + tag.len())
    } else {
        None
    }
}

/// The position of the next `tag` at or after `pos`.
pub open spec fn spec_until(s: Seq<char>, pos: int, tag: Seq<char>) -> Option<int> {
    first_match(s, tag, pos)
}

/// The position after the next `tag` at or after `pos`.
pub open spec fn spec_past(s: Seq<char>, pos: int, tag: Seq<char>) -> Option<int> {
    match first_match(s, tag, pos) {
        Some(i) => Some(i + tag.len()),
        None => None,
    }
}

/// Skipping white space moves forward, stays within the text, and stops
/// where no white space stands.
pub proof fn lemma_skip_space(s: Seq<char>, pos: int)
    requires
        0 <= pos <= s.len(),
    ensures
        pos <= spec_skip_space(s, pos) <= s.len(),
        spec_skip_space(s, pos) < s.len() ==> !is_space(s[spec_skip_space(s, pos)]),
        forall|j: int| pos <= j < spec_skip_space(s, pos) ==> is_space(s[j]),
    decreases s.len() - pos,
{
    if pos < s.len() && is_space(s[pos]) {
        lemma_skip_space(s, pos + 1);
    }
}

/// Whether `c` is white space.
pub fn space(c: char) -> (b: bool)
    ensures
        b == is_space(c),
{
    c == ' ' || c == '\t' || c == '\r' || c == '\n'
}

/// Moves over white space.
pub fn skip_space(s: &[char], pos: usize) -> (p: usize)
    requires
        pos <= s@.len(),
    ensures
        p == spec_skip_space(s@, pos as int),
        pos <= p <= s@.len(),
{
    let mut p: usize = pos;
    while p < s.len() && space(s[p])
        invariant
            pos <= p <= s@.len(),
            spec_skip_space(s@, pos as int) == spec_skip_space(s@, p as int),
        decreases s@.len() - p,
    {
        p = p + 1;
    }
    p
}

/// Moves over `tag`, which must stand at `pos`.
pub fn expect(s: &[char], pos: usize, tag: &[char]) -> (p: Option<usize>)
    requires
        pos <= s@.len(),
    ensures
        as_int(p) == spec_expect(s@, pos as int, tag@),
        p matches Some(q) ==> pos <= q <= s@.len(),
{
    let len = s.len();
    if occurs_at(s, tag, pos) {
        assert(pos + tag@.len() <= len);
        Some(pos + tag.len())
    } else {
        None
    }
}

/// Finds the next `tag`.
pub fn until(s: &[char], pos: usize, tag: &[char]) -> (p: Option<usize>)
    requires
        pos <= s@.len(),
    ensures
        as_int(p) == spec_until(s@, pos as int, tag@),
        p matches Some(q) ==> pos <= q && q + tag@.len() <= s@.len(),
{
    proof {
        lemma_first_match(s@, tag@, pos as int);
    }
    find_from(s, tag, pos)
}

/// Moves past the next `tag`. The text before the tag lies between `pos` and
/// the returned position less the length of the tag.
pub fn past(s: &[char], pos: usize, tag: &[char]) -> (p: Option<usize>)
    requires
        pos <= s@.len(),
    ensures
        as_int(p) == spec_past(s@, pos as int, tag@),
        p matches Some(q) ==> pos + tag@.len() <= q <= s@.len(),
{
    let len = s.len();
    match until(s, pos, tag) {
        Some(i) => {
            assert(i + tag@.len() <= len);
            Some(i + tag.len())
        },
        None => None,
    }
}

/// The text of a piece of markup: what stands outside its tags. `inside`
/// says whether the piece starts within a tag.
pub open spec fn spec_markup_text(s: Seq<char>, inside: bool) -> Seq<char>
    decreases s.len(),
{
    if s.len() == 0 {
        Seq::empty()
    } else if inside {
        spec_markup_text(s.drop_first(), s[0] != '>')
    } else if s[0] == '<' {
        spec_markup_text(s.drop_first(), true)
    } else {
        seq![s[0]] + spec_markup_text(s.drop_first(), false)
    }
}

/// The text of a piece of markup; `within_tag` says whether the piece starts
/// within a tag.
pub fn markup_text(s: &[char], within_tag: bool) -> (out: Vec<char>)
    ensures
        out@ == spec_markup_text(s@, within_tag),
{
    let mut out: Vec<char> = Vec::new();
    let mut inside = within_tag;
    let mut i: usize = 0;
    assert(s@.skip(0) =~= s@);
    assert(Seq::<char>::empty() + spec_markup_text(s@, within_tag) =~= spec_markup_text(
        s@,
        within_tag,
    ));
    while i < s.len()
        invariant
            i <= s@.len(),
            spec_markup_text(s@, within_tag) == out@ + spec_markup_text(
                s@.skip(i as int),
                inside,
            ),
        decreases s@.len() - i,
    {
        let c = s[i];
        proof {
            assert(s@.skip(i as int)[0] == c);
            assert(s@.skip(i as int).drop_first() =~= s@.skip(i + 1));
        }
        let ghost before = out@;
        if inside {
            inside = c != '>';
        } else if c == '<' {
            inside = true;
        } else {
            out.push(c);
            assert(before + (seq![c] + spec_markup_text(s@.skip(i + 1), false)) =~= out@
                + spec_markup_text(s@.skip(i + 1), false));
        }
        i = i + 1;
    }
    assert(out@ + Seq::<char>::empty() =~= out@);
    out
}

} // verus!
