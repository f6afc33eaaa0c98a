//! Searching and cutting text, held as sequences of characters.
//!
//! Everything the extractors know about a page arrives as text. The functions
//! here work on `[char]`, whose view is the same `Seq<char>` that a `str` has,
//! so a contract stated over a character sequence speaks of the string itself.

use vstd::prelude::*;

verus! {

/// The characters of `s`, in order.
pub fn chars_of(s: &str) -> (v: Vec<char>)
    ensures
        v@ == s@,
{
    let mut v: Vec<char> = Vec::new();
    for c in it: s.chars()
        invariant
            v@ == it.seq().take(it.index() as int),
            it.seq() == s@,
    {
        v.push(c);
    }
    v
}

/// Trusted: `String::from_iter` over a slice of characters. The standard
/// library documents that the string collects the characters in order, which is
/// all that is claimed here.
#[verifier::external_body]
pub(crate) fn string_of(v: &[char]) -> (s: String)
    ensures
        s@ == v@,
{
    String::from_iter(v)
}

/// The view of a text that may be missing.
pub open spec fn optional_text(s: Option<String>) -> Option<Seq<char>> {
    match s {
        Some(t) => Some(t@),
        None => None,
    }
}

/// Appends the characters of `s` to `out`.
pub fn push_str(out: &mut Vec<char>, s: &str)
    ensures
        final(out)@ == old(out)@ + s@,
{
    let ghost before = out@;
    for c in it: s.chars()
        invariant
            out@ == before + it.seq().take(it.index() as int),
            it.seq() == s@,
    {
        out.push(c);
        assert(it.seq().take(it.index() + 1) =~= it.seq().take(it.index() as int).push(c));
    }
    assert(s@.take(s@.len() as int) =~= s@);
}

/// Appends `s` to `out`.
pub fn push_chars(out: &mut Vec<char>, s: &[char])
    ensures
        final(out)@ == old(out)@ + s@,
{
    let ghost before = out@;
    let mut i: usize = 0;
    while i < s.len()
        invariant
            i <= s@.len(),
            out@ == before + s@.take(i as int),
        decreases s@.len() - i,
    {
        out.push(s[i]);
        assert(s@.take(i + 1) =~= s@.take(i as int).push(s@[i as int]));
        i = i + 1;
    }
    assert(s@.take(s@.len() as int) =~= s@);
}

/// `pat` occurs in `s` starting at index `i`.
pub open spec fn matches_at(s: Seq<char>, pat: Seq<char>, i: int) -> bool {
    &&& 0 <= i
    &&& i + pat.len() <= s.len()
    &&& s.subrange(i, i + pat.len()) == pat
}

/// The least index at or after `from` where `pat` occurs in `s`.
pub open spec fn first_match(s: Seq<char>, pat: Seq<char>, from: int) -> Option<int>
    decreases s.len() + 1 - from,
{
    if from < 0 || from + pat.len() > s.len() {
        None
    } else if matches_at(s, pat, from) {
        Some(from)
    } else {
        first_match(s, pat, from + 1)
    }
}

/// `pat` occurs somewhere in `s`.
pub open spec fn spec_contains(s: Seq<char>, pat: Seq<char>) -> bool {
    exists|i: int| matches_at(s, pat, i)
}

/// `first_match` finds an occurrence exactly when there is one at or after
/// `from`, and the one it finds is the least.
pub proof fn lemma_first_match(s: Seq<char>, pat: Seq<char>, from: int)
    requires
        0 <= from,
    ensures
        match first_match(s, pat, from) {
            Some(i) => {
                &&& from <= i
                &&& matches_at(s, pat, i)
                &&& forall|j: int| from <= j < i ==> !matches_at(s, pat, j)
            },
            None => forall|j: int| from <= j ==> !matches_at(s, pat, j),
        },
    decreases s.len() + 1 - from,
{
    if from + pat.len() > s.len() {
    } else if matches_at(s, pat, from) {
    } else {
        lemma_first_match(s, pat, from + 1);
    }
}

/// An occurrence with none before it is the one `first_match` reports.
pub proof fn lemma_first_match_is(s: Seq<char>, pat: Seq<char>, from: int, i: int)
    requires
        0 <= from <= i,
        matches_at(s, pat, i),
        forall|j: int| from <= j < i ==> !matches_at(s, pat, j),
    ensures
        first_match(s, pat, from) == Some(i),
    decreases i - from,
{
    if from < i {
        lemma_first_match_is(s, pat, from + 1, i);
    }
}

/// Containment is the same as `first_match` from the start finding something.
pub proof fn lemma_contains_first_match(s: Seq<char>, pat: Seq<char>)
    ensures
        spec_contains(s, pat) <==> first_match(s, pat, 0) is Some,
{
    lemma_first_match(s, pat, 0);
    if first_match(s, pat, 0) is None {
        assert forall|i: int| !matches_at(s, pat, i) by {
            if 0 <= i {
            }
        }
    }
}

/// Whether `pat` occurs in `s` at index `i`.
pub fn occurs_at(s: &[char], pat: &[char], i: usize) -> (b: bool)
    ensures
        b == matches_at(s@, pat@, i as int),
{
    let n = pat.len();
    let len = s.len();
    if i > len || n > len - i {
        return false;
    }
    let mut k: usize = 0;
    while k < n
        invariant
            n == pat@.len(),
            len == s@.len(),
            i + n <= len,
            k <= n,
            forall|j: int| 0 <= j < k ==> s@[i + j] == pat@[j],
        decreases n - k,
    {
        if s[i + k] != pat[k] {
            proof {
                let sub = s@.subrange(i as int, i + n);
                assert(sub[k as int] == s@[i + k]);
            }
            return false;
        }
        k = k + 1;
    }
    assert(s@.subrange(i as int, i + n) =~= pat@);
    true
}

/// The first index at or after `from` where `pat` occurs in `s`.
pub fn find_from(s: &[char], pat: &[char], from: usize) -> (r: Option<usize>)
    ensures
        r is Some <==> first_match(s@, pat@, from as int) is Some,
        r matches Some(i) ==> first_match(s@, pat@, from as int) == Some(i as int),
{
    let len = s.len();
    let mut i: usize = from;
    while i <= len && pat.len() <= len - i
        invariant
            len == s@.len(),
            from <= i,
            first_match(s@, pat@, from as int) == first_match(s@, pat@, i as int),
        decreases len + 1 - i,
    {
        if occurs_at(s, pat, i) {
            return Some(i);
        }
        assert(i < len) by {
            if pat@.len() == 0 {
                assert(s@.subrange(i as int, i as int) =~= pat@);
            }
        }
        i = i + 1;
    }
    None
}

/// Whether `pat` occurs anywhere in `s`.
pub fn contains(s: &[char], pat: &[char]) -> (b: bool)
    ensures
        b == spec_contains(s@, pat@),
{
    proof {
        lemma_contains_first_match(s@, pat@);
    }
    find_from(s, pat, 0).is_some()
}

/// Whether the two slices hold the same characters.
pub fn same(a: &[char], b: &[char]) -> (r: bool)
    ensures
        r == (a@ == b@),
{
    if a.len() != b.len() {
        return false;
    }
    let r = occurs_at(a, b, 0);
    proof {
        assert(a@.subrange(0, a@.len() as int) =~= a@);
    }
    r
}

/// Whether `s` spells out `word`.
pub fn spells(s: &[char], word: &str) -> (r: bool)
    ensures
        r == (s@ == word@),
{
    let w = chars_of(word);
    same(s, w.as_slice())
}

/// A copy of `s[from..to]`.
pub fn slice_of(s: &[char], from: usize, to: usize) -> (v: Vec<char>)
    requires
        from <= to <= s@.len(),
    ensures
        v@ == s@.subrange(from as int, to as int),
{
    let mut v: Vec<char> = Vec::new();
    let mut i: usize = from;
    while i < to
        invariant
            from <= i <= to <= s@.len(),
            v@ == s@.subrange(from as int, i as int),
        decreases to - i,
    {
        v.push(s[i]);
        assert(v@ =~= s@.subrange(from as int, i + 1));
        i = i + 1;
    }
    v
}

/// The view of each piece, in order.
pub open spec fn views(pieces: Seq<Vec<char>>) -> Seq<Seq<char>> {
    Seq::new(pieces.len(), |i: int| pieces[i]@)
}

/// The pieces of `s` from index `from` on, cut at each occurrence of `pat`,
/// scanning left to right and resuming after each occurrence. There is always
/// at least one piece; a piece may be empty.
pub open spec fn split_from(s: Seq<char>, pat: Seq<char>, from: int) -> Seq<Seq<char>>
    decreases s.len() + 1 - from,
{
    match first_match(s, pat, from) {
        Some(i) => if from <= i && 0 < pat.len() && i + pat.len() <= s.len() {
            seq![s.subrange(from, i)] + split_from(s, pat, i + pat.len())
        } else {
            seq![s.subrange(from, s.len() as int)]
        },
        None => seq![s.subrange(from, s.len() as int)],
    }
}

/// The pieces of `s` between the occurrences of `pat`.
pub open spec fn spec_split(s: Seq<char>, pat: Seq<char>) -> Seq<Seq<char>> {
    split_from(s, pat, 0)
}

/// Cuts `s` at each occurrence of `pat`.
pub fn split(s: &[char], pat: &[char]) -> (out: Vec<Vec<char>>)
    requires
        pat@.len() > 0,
    ensures
        views(out@) == spec_split(s@, pat@),
        out@.len() > 0,
{
    let len = s.len();
    let mut out: Vec<Vec<char>> = Vec::new();
    let mut pos: usize = 0;
    loop
        invariant
            len == s@.len(),
            pat@.len() > 0,
            pos <= len,
            spec_split(s@, pat@) == views(out@) + split_from(s@, pat@, pos as int),
        decreases len - pos,
    {
        let ghost before = out@;
        match find_from(s, pat, pos) {
            Some(i) => {
                proof {
                    lemma_first_match(s@, pat@, pos as int);
                }
                out.push(slice_of(s, pos, i));
                assert(views(out@) =~= views(before) + seq![s@.subrange(pos as int, i as int)]);
                pos = i + pat.len();
            },
            None => {
                out.push(slice_of(s, pos, len));
                assert(views(out@) =~= views(before) + seq![s@.subrange(pos as int, len as int)]);
                return out;
            },
        }
    }
}

/// `s` without the leading `prefix`, when it starts with it.
pub open spec fn spec_strip_prefix(s: Seq<char>, prefix: Seq<char>) -> Option<Seq<char>> {
    if matches_at(s, prefix, 0) {
        Some(s.subrange(prefix.len() as int, s.len() as int))
    } else {
        None
    }
}

/// `s` without the trailing `suffix`, when it ends with it.
pub open spec fn spec_strip_suffix(s: Seq<char>, suffix: Seq<char>) -> Option<Seq<char>> {
    if matches_at(s, suffix, s.len() - suffix.len()) {
        Some(s.subrange(0, s.len() - suffix.len()))
    } else {
        None
    }
}

/// Removes `prefix` from the front of `s`.
pub fn strip_prefix(s: &[char], prefix: &[char]) -> (r: Option<Vec<char>>)
    ensures
        r is Some <==> spec_strip_prefix(s@, prefix@) is Some,
        r matches Some(v) ==> spec_strip_prefix(s@, prefix@) == Some(v@),
{
    if occurs_at(s, prefix, 0) {
        Some(slice_of(s, prefix.len(), s.len()))
    } else {
        None
    }
}

/// Removes `suffix` from the end of `s`.
pub fn strip_suffix(s: &[char], suffix: &[char]) -> (r: Option<Vec<char>>)
    ensures
        r is Some <==> spec_strip_suffix(s@, suffix@) is Some,
        r matches Some(v) ==> spec_strip_suffix(s@, suffix@) == Some(v@),
{
    if suffix.len() <= s.len() && occurs_at(s, suffix, s.len() - suffix.len()) {
        Some(slice_of(s, 0, s.len() - suffix.len()))
    } else {
        None
    }
}

/// The characters with the Unicode property `White_Space`.
pub open spec fn is_white_space(c: char) -> bool {
    let n = c as u32;
    ||| 0x09 <= n <= 0x0d
    ||| n == 0x20
    ||| n == 0x85
    ||| n == 0xa0
    ||| n == 0x1680
    ||| 0x2000 <= n <= 0x200a
    ||| n == 0x2028
    ||| n == 0x2029
    ||| n == 0x202f
    ||| n == 0x205f
    ||| n == 0x3000
}

/// Nothing is left of `s` once white space is trimmed from both ends.
pub open spec fn spec_is_blank(s: Seq<char>) -> bool {
    forall|i: int| 0 <= i < s.len() ==> is_white_space(#[trigger] s[i])
}

/// Whether `c` is white space.
pub fn white_space(c: char) -> (b: bool)
    ensures
        b == is_white_space(c),
{
    let n: u32 = c as u32;
    (0x09 <= n && n <= 0x0d) || n == 0x20 || n == 0x85 || n == 0xa0 || n == 0x1680 || (0x2000 <= n
        && n <= 0x200a) || n == 0x2028 || n == 0x2029 || n == 0x202f || n == 0x205f || n == 0x3000
}

/// Whether `s` holds nothing but white space.
pub fn is_blank(s: &[char]) -> (b: bool)
    ensures
        b == spec_is_blank(s@),
{
    let mut i: usize = 0;
    while i < s.len()
        invariant
            i <= s@.len(),
            forall|j: int| 0 <= j < i ==> is_white_space(#[trigger] s@[j]),
        decreases s@.len() - i,
    {
        if !white_space(s[i]) {
            return false;
        }
        i = i + 1;
    }
    true
}

/// The line break that separates the lines of an element's text.
pub open spec fn newline() -> Seq<char> {
    seq!['\n']
}

/// The lines of `s`.
pub open spec fn spec_lines(s: Seq<char>) -> Seq<Seq<char>> {
    spec_split(s, newline())
}

/// The last line of `s`: the whole of it when it holds no line break.
pub open spec fn spec_last_line(s: Seq<char>) -> Seq<char> {
    spec_lines(s).last()
}

/// The first line of `s`.
pub open spec fn spec_first_line(s: Seq<char>) -> Seq<char> {
    spec_lines(s).first()
}

/// Cuts `s` into its lines.
pub fn lines(s: &[char]) -> (out: Vec<Vec<char>>)
    ensures
        views(out@) == spec_lines(s@),
        out@.len() > 0,
{
    let nl: [char; 1] = ['\n'];
    assert(nl@ =~= newline());
    split(s, nl.as_slice())
}

/// A one-character pattern occurs exactly where that character stands.
pub proof fn lemma_matches_char(s: Seq<char>, c: char, i: int)
    ensures
        matches_at(s, seq![c], i) <==> (0 <= i < s.len() && s[i] == c),
{
    if 0 <= i < s.len() {
        if s[i] == c {
            assert(s.subrange(i, i + 1) =~= seq![c]);
        } else {
            assert(s.subrange(i, i + 1)[0] == s[i]);
        }
    }
}

/// Cutting at a character: the piece up to its first occurrence, then the
/// pieces of what follows it.
pub proof fn lemma_split_at_char(s: Seq<char>, c: char, from: int, i: int)
    requires
        0 <= from <= i < s.len(),
        s[i] == c,
        forall|j: int| from <= j < i ==> s[j] != c,
    ensures
        split_from(s, seq![c], from) == seq![s.subrange(from, i)] + split_from(s, seq![c], i + 1),
{
    lemma_matches_char(s, c, i);
    assert forall|j: int| from <= j < i implies !matches_at(s, seq![c], j) by {
        lemma_matches_char(s, c, j);
    }
    lemma_first_match_is(s, seq![c], from, i);
}

/// Cutting at a character that does not occur again leaves one last piece.
pub proof fn lemma_split_no_char(s: Seq<char>, c: char, from: int)
    requires
        0 <= from <= s.len(),
        forall|j: int| from <= j < s.len() ==> s[j] != c,
    ensures
        split_from(s, seq![c], from) == seq![s.subrange(from, s.len() as int)],
{
    lemma_first_match(s, seq![c], from);
    if let Some(i) = first_match(s, seq![c], from) {
        lemma_matches_char(s, c, i);
    }
}

/// The pieces put together, one after the other.
pub open spec fn spec_concat(pieces: Seq<Seq<char>>) -> Seq<char>
    decreases pieces.len(),
{
    if pieces.len() == 0 {
        Seq::empty()
    } else {
        spec_concat(pieces.drop_last()) + pieces.last()
    }
}

/// `s` with every occurrence of `pat` taken out, scanning left to right.
pub open spec fn spec_without(s: Seq<char>, pat: Seq<char>) -> Seq<char> {
    spec_concat(spec_split(s, pat))
}

/// Takes every occurrence of `pat` out of `s`.
pub fn without(s: &[char], pat: &[char]) -> (out: Vec<char>)
    requires
        pat@.len() > 0,
    ensures
        out@ == spec_without(s@, pat@),
{
    let pieces = split(s, pat);
    let ghost all = views(pieces@);
    let mut out: Vec<char> = Vec::new();
    let mut i: usize = 0;
    while i < pieces.len()
        invariant
            i <= pieces@.len(),
            all == views(pieces@),
            out@ == spec_concat(all.take(i as int)),
        decreases pieces@.len() - i,
    {
        proof {
            assert(all.take(i + 1).drop_last() =~= all.take(i as int));
            assert(all.take(i + 1).last() == pieces@[i as int]@);
        }
        push_chars(&mut out, pieces[i].as_slice());
        i = i + 1;
    }
    assert(all.take(pieces@.len() as int) =~= all);
    out
}

/// The pieces cut at a character are the text before its first occurrence
/// and the pieces of what follows; without an occurrence there is one piece.
pub proof fn lemma_split_char_unfold(s: Seq<char>, c: char, from: int)
    requires
        0 <= from <= s.len(),
    ensures
        split_from(s, seq![c], from).len() >= 1,
        match first_match(s, seq![c], from) {
            Some(i) => {
                &&& from <= i < s.len()
                &&& s[i] == c
                &&& split_from(s, seq![c], from) == seq![s.subrange(from, i)] + split_from(
                    s,
                    seq![c],
                    i + 1,
                )
            },
            None => split_from(s, seq![c], from) == seq![s.subrange(from, s.len() as int)],
        },
{
    lemma_first_match(s, seq![c], from);
    if let Some(i) = first_match(s, seq![c], from) {
        lemma_matches_char(s, c, i);
    }
}

} // verus!
