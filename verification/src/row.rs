//! What becomes of one row of a page, and of a page of rows.
//!
//! A row either yields a record or is discarded. A discard is expected when
//! the row is a column heading or stands for someone who did not finish; such
//! rows are known by the last line of their text. Every other discard is
//! unexpected and is reported, so that lost data is seen.

use crate::text::{chars_of, lines, optional_text, spec_last_line, spells, views};
use vstd::prelude::*;

verus! {

/// Why a row gave no record.
#[derive(Clone, Copy, Debug, PartialEq, Eq, Structural)]
pub enum DiscardReason {
    /// A heading or a non-finisher: nothing to report.
    Expected,
    /// A required field was missing or unreadable: reported.
    Unexpected,
}

/// `line` is one of the two markers of a row that holds no result.
pub open spec fn is_sentinel(line: Seq<char>) -> bool {
    line == "DNF"@ || line == "TIME"@
}

/// The last line of `text` is a marker.
pub open spec fn ends_in_sentinel(text: Seq<char>) -> bool {
    is_sentinel(spec_last_line(text))
}

/// How a discarded row with this text (if it could be read) is classed.
pub open spec fn spec_classify(text: Option<Seq<char>>) -> DiscardReason {
    match text {
        Some(t) => if ends_in_sentinel(t) {
            DiscardReason::Expected
        } else {
            DiscardReason::Unexpected
        },
        None => DiscardReason::Unexpected,
    }
}

/// Whether the last line of the text `v` is a marker.
pub fn has_sentinel_chars(v: &[char]) -> (b: bool)
    ensures
        b == ends_in_sentinel(v@),
{
    let ls = lines(v);
    let last = &ls[ls.len() - 1];
    assert(views(ls@).last() == ls@[ls@.len() - 1]@);
    spells(last.as_slice(), "DNF") || spells(last.as_slice(), "TIME")
}

/// Whether the last line of `text` is a marker.
pub fn has_sentinel(text: &str) -> (b: bool)
    ensures
        b == ends_in_sentinel(text@),
{
    let v = chars_of(text);
    has_sentinel_chars(v.as_slice())
}

/// Classes the discard of a row by the row's text.
pub fn classify_discard(text: Option<&str>) -> (r: DiscardReason)
    ensures
        r == spec_classify(
            match text {
                Some(t) => Some(t@),
                None => None,
            },
        ),
{
    match text {
        Some(t) => if has_sentinel(t) {
            DiscardReason::Expected
        } else {
            DiscardReason::Unexpected
        },
        None => DiscardReason::Unexpected,
    }
}

/// The outcome of extracting one row: a record `R`, a silent discard, or a
/// discard with a diagnostic `D`.
pub enum RowOutcome<R, D> {
    Record(R),
    Silent,
    Reported(D),
}

impl<R, D> RowOutcome<R, D> {
    /// Why the row gave no record, if it gave none: a silent discard was
    /// expected, a reported one was not.
    pub open spec fn spec_discard_reason(self) -> Option<DiscardReason> {
        match self {
            RowOutcome::Record(_) => None,
            RowOutcome::Silent => Some(DiscardReason::Expected),
            RowOutcome::Reported(_) => Some(DiscardReason::Unexpected),
        }
    }

    /// Why the row gave no record, if it gave none.
    pub fn discard_reason(&self) -> (r: Option<DiscardReason>)
        ensures
            r == self.spec_discard_reason(),
    {
        match self {
            RowOutcome::Record(_) => None,
            RowOutcome::Silent => Some(DiscardReason::Expected),
            RowOutcome::Reported(_) => Some(DiscardReason::Unexpected),
        }
    }
}

/// What is reported of a row that was discarded unexpectedly.
pub struct Diagnostic<K> {
    /// The text of the row, if it could be read.
    pub text: Option<String>,
    /// The rule that the row failed.
    pub rule: K,
}

/// A diagnostic as the contracts see it.
pub struct DiagnosticView<K> {
    pub text: Option<Seq<char>>,
    pub rule: K,
}

impl<K> View for Diagnostic<K> {
    type V = DiagnosticView<K>;

    open spec fn view(&self) -> DiagnosticView<K> {
        DiagnosticView { text: optional_text(self.text), rule: self.rule }
    }
}

/// The view of a diagnostic.
pub open spec fn diagnostic_view<K>() -> spec_fn(Diagnostic<K>) -> DiagnosticView<K> {
    |d: Diagnostic<K>| d@
}

/// What one page gives: the records of its rows, and the diagnostics of the
/// rows that were discarded unexpectedly, both in row order.
pub struct PageBatch<R, D> {
    pub records: Vec<R>,
    pub diagnostics: Vec<D>,
}

/// The records among `outcomes`, in order.
pub open spec fn records_of<R, D>(outcomes: Seq<RowOutcome<R, D>>) -> Seq<R>
    decreases outcomes.len(),
{
    if outcomes.len() == 0 {
        Seq::empty()
    } else {
        match outcomes.last() {
            RowOutcome::Record(r) => records_of(outcomes.drop_last()).push(r),
            _ => records_of(outcomes.drop_last()),
        }
    }
}

/// The diagnostics among `outcomes`, in order.
pub open spec fn diagnostics_of<R, D>(outcomes: Seq<RowOutcome<R, D>>) -> Seq<D>
    decreases outcomes.len(),
{
    if outcomes.len() == 0 {
        Seq::empty()
    } else {
        match outcomes.last() {
            RowOutcome::Reported(d) => diagnostics_of(outcomes.drop_last()).push(d),
            _ => diagnostics_of(outcomes.drop_last()),
        }
    }
}

/// Gathers the outcomes of a page's rows into the page's batch.
pub fn assemble<R, D>(outcomes: Vec<RowOutcome<R, D>>) -> (batch: PageBatch<R, D>)
    ensures
        batch.records@ == records_of(outcomes@),
        batch.diagnostics@ == diagnostics_of(outcomes@),
{
    let ghost all = outcomes@;
    let mut records: Vec<R> = Vec::new();
    let mut diagnostics: Vec<D> = Vec::new();
    let mut done: Ghost<int> = Ghost(0);
    for outcome in it: outcomes
        invariant
            it.seq() == all,
            done@ == it.index(),
            records@ == records_of(all.take(done@)),
            diagnostics@ == diagnostics_of(all.take(done@)),
    {
        proof {
            let k = done@;
            assert(all.take(k + 1).drop_last() =~= all.take(k));
            assert(all.take(k + 1).last() == outcome);
            done@ = k + 1;
        }
        match outcome {
            RowOutcome::Record(r) => {
                records.push(r);
            },
            RowOutcome::Silent => {},
            RowOutcome::Reported(d) => {
                diagnostics.push(d);
            },
        }
    }
    assert(all.take(all.len() as int) =~= all);
    PageBatch { records, diagnostics }
}

/// Records come out in row order: the records of two runs of rows, one after
/// the other, are the records of the first followed by those of the second.
pub proof fn lemma_records_concat<R, D>(a: Seq<RowOutcome<R, D>>, b: Seq<RowOutcome<R, D>>)
    ensures
        records_of(a + b) == records_of(a) + records_of(b),
        diagnostics_of(a + b) == diagnostics_of(a) + diagnostics_of(b),
    decreases b.len(),
{
    if b.len() == 0 {
        assert(a + b =~= a);
        assert(records_of(a) + records_of(b) =~= records_of(a));
        assert(diagnostics_of(a) + diagnostics_of(b) =~= diagnostics_of(a));
    } else {
        lemma_records_concat(a, b.drop_last());
        assert((a + b).drop_last() =~= a + b.drop_last());
        assert((a + b).last() == b.last());
        match b.last() {
            RowOutcome::Record(r) => {
                assert(records_of(a + b) =~= records_of(a) + records_of(b));
            },
            RowOutcome::Silent => {},
            RowOutcome::Reported(d) => {
                assert(diagnostics_of(a + b) =~= diagnostics_of(a) + diagnostics_of(b));
            },
        }
    }
}

/// A discarded row is absent from the batch and takes nothing else with it:
/// the page's records are those of the page without that row.
pub proof fn lemma_discard_leaves_others<R, D>(outcomes: Seq<RowOutcome<R, D>>, i: int)
    requires
        0 <= i < outcomes.len(),
        !(outcomes[i] is Record),
    ensures
        records_of(outcomes) == records_of(outcomes.remove(i)),
{
    let before = outcomes.take(i);
    let one = seq![outcomes[i]];
    let after = outcomes.skip(i + 1);
    assert(outcomes =~= before + one + after);
    assert(outcomes.remove(i) =~= before + after);
    lemma_records_concat(before + one, after);
    lemma_records_concat(before, one);
    lemma_records_concat(before, after);
    assert(one.drop_last() =~= Seq::<RowOutcome<R, D>>::empty());
    assert(one.last() == outcomes[i]);
    assert(records_of(one.drop_last()) =~= Seq::<R>::empty());
    assert(records_of(one) =~= Seq::<R>::empty());
    assert(records_of(before) + records_of(one) =~= records_of(before));
}

/// A row that yields a record is emitted, between the records of the rows
/// before it and those of the rows after it.
pub proof fn lemma_record_is_emitted<R, D>(outcomes: Seq<RowOutcome<R, D>>, i: int)
    requires
        0 <= i < outcomes.len(),
        outcomes[i] is Record,
    ensures
        records_of(outcomes) == records_of(outcomes.take(i)).push(outcomes[i]->Record_0)
            + records_of(outcomes.skip(i + 1)),
{
    let before = outcomes.take(i);
    let one = seq![outcomes[i]];
    let after = outcomes.skip(i + 1);
    assert(outcomes =~= before + one + after);
    lemma_records_concat(before + one, after);
    lemma_records_concat(before, one);
    assert(one.drop_last() =~= Seq::<RowOutcome<R, D>>::empty());
    assert(one.last() == outcomes[i]);
    assert(records_of(one.drop_last()) =~= Seq::<R>::empty());
    assert(records_of(one) =~= seq![outcomes[i]->Record_0]);
    assert(records_of(before) + records_of(one) =~= records_of(before).push(
        outcomes[i]->Record_0,
    ));
}

/// A row that is discarded silently adds no diagnostic.
pub proof fn lemma_silent_adds_no_diagnostic<R, D>(outcomes: Seq<RowOutcome<R, D>>, i: int)
    requires
        0 <= i < outcomes.len(),
        outcomes[i] is Silent,
    ensures
        diagnostics_of(outcomes) == diagnostics_of(outcomes.remove(i)),
        records_of(outcomes) == records_of(outcomes.remove(i)),
{
    let before = outcomes.take(i);
    let one = seq![outcomes[i]];
    let after = outcomes.skip(i + 1);
    assert(outcomes =~= before + one + after);
    assert(outcomes.remove(i) =~= before + after);
    lemma_records_concat(before + one, after);
    lemma_records_concat(before, one);
    lemma_records_concat(before, after);
    assert(one.drop_last() =~= Seq::<RowOutcome<R, D>>::empty());
    assert(one.last() == outcomes[i]);
    assert(diagnostics_of(one.drop_last()) =~= Seq::<D>::empty());
    assert(diagnostics_of(one) =~= Seq::<D>::empty());
    assert(diagnostics_of(before) + diagnostics_of(one) =~= diagnostics_of(before));
    lemma_discard_leaves_others(outcomes, i);
}

/// The outcome with its record seen through `f` and its diagnostic through `g`.
pub open spec fn map_outcome<R, D, R2, D2>(
    outcome: RowOutcome<R, D>,
    f: spec_fn(R) -> R2,
    g: spec_fn(D) -> D2,
) -> RowOutcome<R2, D2> {
    match outcome {
        RowOutcome::Record(r) => RowOutcome::Record(f(r)),
        RowOutcome::Silent => RowOutcome::Silent,
        RowOutcome::Reported(d) => RowOutcome::Reported(g(d)),
    }
}

/// Each outcome seen through `f` and `g`.
pub open spec fn map_outcomes<R, D, R2, D2>(
    outcomes: Seq<RowOutcome<R, D>>,
    f: spec_fn(R) -> R2,
    g: spec_fn(D) -> D2,
) -> Seq<RowOutcome<R2, D2>> {
    Seq::new(outcomes.len(), |i: int| map_outcome(outcomes[i], f, g))
}

/// Gathering commutes with viewing: the records of the viewed outcomes are the
/// views of the records.
pub proof fn lemma_records_map<R, D, R2, D2>(
    outcomes: Seq<RowOutcome<R, D>>,
    f: spec_fn(R) -> R2,
    g: spec_fn(D) -> D2,
)
    ensures
        records_of(map_outcomes(outcomes, f, g)) == records_of(outcomes).map_values(f),
        diagnostics_of(map_outcomes(outcomes, f, g)) == diagnostics_of(outcomes).map_values(g),
    decreases outcomes.len(),
{
    let mapped = map_outcomes(outcomes, f, g);
    if outcomes.len() == 0 {
        assert(records_of(mapped) =~= records_of(outcomes).map_values(f));
        assert(diagnostics_of(mapped) =~= diagnostics_of(outcomes).map_values(g));
    } else {
        lemma_records_map(outcomes.drop_last(), f, g);
        assert(mapped.drop_last() =~= map_outcomes(outcomes.drop_last(), f, g));
        assert(mapped.last() == map_outcome(outcomes.last(), f, g));
        assert(records_of(mapped) =~= records_of(outcomes).map_values(f));
        assert(diagnostics_of(mapped) =~= diagnostics_of(outcomes).map_values(g));
    }
}

} // verus!
