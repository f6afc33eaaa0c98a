//! Choosing an option of a filter control.
//!
//! A filter step names a control and the labels that would do. The options of
//! the control are scanned in document order and the first whose text matches
//! any of the labels is chosen. With `Match::Exact` a label matches the text
//! equal to it; with `Match::Contains` it matches every text that holds it,
//! which would also pick broader labels: "Marathon" is found in "Half
//! Marathon". So matching by containment is refused where the text of one
//! option is part of the text of another.

use crate::text::{chars_of, contains, same, spec_contains, string_of};
use vstd::prelude::*;

verus! {

/// How a label is compared with the text of an option.
#[derive(Clone, Copy, Debug, PartialEq, Eq, Structural)]
pub enum Match {
    Contains,
    Exact,
}

/// `label` matches `text` under `mode`.
pub open spec fn label_matches(text: Seq<char>, label: Seq<char>, mode: Match) -> bool {
    match mode {
        Match::Contains => spec_contains(text, label),
        Match::Exact => text == label,
    }
}

/// One of `labels` matches `text`.
pub open spec fn any_label_matches(text: Seq<char>, labels: Seq<Seq<char>>, mode: Match) -> bool {
    exists|k: int| 0 <= k < labels.len() && label_matches(text, #[trigger] labels[k], mode)
}

/// The scan stops at this option: it matches, or its text could not be read.
pub open spec fn stops_scan(
    option: Option<Seq<char>>,
    labels: Seq<Seq<char>>,
    mode: Match,
) -> bool {
    match option {
        Some(text) => any_label_matches(text, labels, mode),
        None => true,
    }
}

/// The option chosen from `options`: the first that matches, provided that the
/// text of every option before it could be read.
pub open spec fn spec_choose(
    options: Seq<Option<Seq<char>>>,
    labels: Seq<Seq<char>>,
    mode: Match,
) -> Option<int> {
    if exists|i: int| is_choice(options, labels, mode, i) {
        Some(choose|i: int| is_choice(options, labels, mode, i))
    } else {
        None
    }
}

/// Option `i` matches and no option before it stops the scan.
pub open spec fn is_choice(
    options: Seq<Option<Seq<char>>>,
    labels: Seq<Seq<char>>,
    mode: Match,
    i: int,
) -> bool {
    &&& 0 <= i < options.len()
    &&& options[i] is Some
    &&& any_label_matches(options[i]->0, labels, mode)
    &&& forall|j: int| 0 <= j < i ==> !stops_scan(#[trigger] options[j], labels, mode)
}

/// There is at most one choice.
pub proof fn lemma_choice_unique(
    options: Seq<Option<Seq<char>>>,
    labels: Seq<Seq<char>>,
    mode: Match,
    i: int,
    j: int,
)
    requires
        is_choice(options, labels, mode, i),
        is_choice(options, labels, mode, j),
    ensures
        i == j,
{
    if i < j {
        assert(stops_scan(options[i], labels, mode));
    } else if j < i {
        assert(stops_scan(options[j], labels, mode));
    }
}

/// With exact matching the text of the chosen option is one of the labels: a
/// broader label is never taken for the one asked for.
pub proof fn lemma_exact_choice_is_a_label(
    options: Seq<Option<Seq<char>>>,
    labels: Seq<Seq<char>>,
    i: int,
)
    requires
        is_choice(options, labels, Match::Exact, i),
    ensures
        exists|k: int| 0 <= k < labels.len() && #[trigger] labels[k] == options[i]->0,
{
    let k = choose|k: int|
        0 <= k < labels.len() && label_matches(options[i]->0, #[trigger] labels[k], Match::Exact);
    assert(labels[k] == options[i]->0);
}

/// The view of each string.
pub open spec fn texts(strings: Seq<String>) -> Seq<Seq<char>> {
    Seq::new(strings.len(), |i: int| strings[i]@)
}

/// The view of each string that is there.
pub open spec fn optional_texts(strings: Seq<Option<String>>) -> Seq<Option<Seq<char>>> {
    Seq::new(
        strings.len(),
        |i: int|
            match strings[i] {
                Some(s) => Some(s@),
                None => None,
            },
    )
}

/// Whether `label` matches `text` under `mode`.
pub fn matches(text: &[char], label: &[char], mode: Match) -> (b: bool)
    ensures
        b == label_matches(text@, label@, mode),
{
    match mode {
        Match::Contains => contains(text, label),
        Match::Exact => same(text, label),
    }
}

/// Whether one of `labels` matches `text` under `mode`.
pub fn matches_any(text: &str, labels: &Vec<String>, mode: Match) -> (b: bool)
    ensures
        b == any_label_matches(text@, texts(labels@), mode),
{
    let t = chars_of(text);
    let mut k: usize = 0;
    while k < labels.len()
        invariant
            k <= labels@.len(),
            t@ == text@,
            forall|j: int| 0 <= j < k ==> !label_matches(text@, #[trigger] texts(labels@)[j], mode),
        decreases labels@.len() - k,
    {
        let label = chars_of(labels[k].as_str());
        assert(texts(labels@)[k as int] == labels@[k as int]@);
        if matches(t.as_slice(), label.as_slice(), mode) {
            return true;
        }
        k = k + 1;
    }
    false
}

/// Scans `options` in order for the first that one of `labels` matches. The
/// scan ends without a choice at an option whose text could not be read.
pub fn choose_option(options: &Vec<Option<String>>, labels: &Vec<String>, mode: Match) -> (r:
    Option<usize>)
    ensures
        r matches Some(i) ==> is_choice(optional_texts(options@), texts(labels@), mode, i as int),
        r is None ==> forall|i: int| !is_choice(optional_texts(options@), texts(labels@), mode, i),
        (match r {
            Some(i) => Some(i as int),
            None => None,
        }) == spec_choose(optional_texts(options@), texts(labels@), mode),
{
    let ghost opts = optional_texts(options@);
    let ghost labs = texts(labels@);
    let mut i: usize = 0;
    while i < options.len()
        invariant
            i <= options@.len(),
            opts == optional_texts(options@),
            labs == texts(labels@),
            forall|j: int| 0 <= j < i ==> !stops_scan(#[trigger] opts[j], labs, mode),
        decreases options@.len() - i,
    {
        match &options[i] {
            None => {
                assert(stops_scan(opts[i as int], labs, mode));
                assert forall|k: int| !is_choice(opts, labs, mode, k) by {
                    if is_choice(opts, labs, mode, k) {
                        if k > i {
                            assert(!stops_scan(opts[i as int], labs, mode));
                        } else if k < i {
                            assert(!stops_scan(opts[k], labs, mode));
                        }
                    }
                }
                return None;
            },
            Some(text) => {
                assert(opts[i as int] == Some(text@));
                if matches_any(text.as_str(), labels, mode) {
                    assert(is_choice(opts, labs, mode, i as int));
                    proof {
                        let c = choose|c: int| is_choice(opts, labs, mode, c);
                        lemma_choice_unique(opts, labs, mode, c, i as int);
                    }
                    return Some(i);
                }
            },
        }
        i = i + 1;
    }
    assert forall|k: int| !is_choice(opts, labs, mode, k) by {
        if is_choice(opts, labs, mode, k) {
            assert(!stops_scan(opts[k], labs, mode));
        }
    }
    None
}

/// The text of one option is part of the text of another: `inner` is not
/// empty, differs from `outer`, and occurs in it.
pub open spec fn is_part_of(inner: Option<Seq<char>>, outer: Option<Seq<char>>) -> bool {
    &&& inner is Some
    &&& outer is Some
    &&& inner->0.len() > 0
    &&& inner->0 != outer->0
    &&& spec_contains(outer->0, inner->0)
}

/// The options are ambiguous for matching by containment: the text of one of
/// them is part of the text of another, so that a label which is found in the
/// narrower one is found in the broader one too ("Marathon" in "Half
/// Marathon").
pub open spec fn spec_ambiguous(options: Seq<Option<Seq<char>>>) -> bool {
    exists|i: int, j: int|
        0 <= i < options.len() && 0 <= j < options.len() && #[trigger] is_part_of(
            options[i],
            options[j],
        )
}

/// Whether the options are ambiguous for matching by containment.
pub fn ambiguous(options: &Vec<Option<String>>) -> (b: bool)
    ensures
        b == spec_ambiguous(optional_texts(options@)),
{
    let ghost opts = optional_texts(options@);
    let n = options.len();
    let mut i: usize = 0;
    while i < n
        invariant
            n == options@.len(),
            i <= n,
            opts == optional_texts(options@),
            forall|a: int, b: int|
                0 <= a < i && 0 <= b < n ==> !#[trigger] is_part_of(opts[a], opts[b]),
        decreases n - i,
    {
        match &options[i] {
            None => {
                assert(opts[i as int] is None);
            },
            Some(text) => {
                assert(opts[i as int] == Some(text@));
                let inner = chars_of(text.as_str());
                let mut j: usize = 0;
                while j < n
                    invariant
                        n == options@.len(),
                        i < n,
                        j <= n,
                        opts == optional_texts(options@),
                        opts[i as int] == Some(inner@),
                        forall|b: int|
                            0 <= b < j ==> !#[trigger] is_part_of(opts[i as int], opts[b]),
                    decreases n - j,
                {
                    match &options[j] {
                        None => {
                            assert(opts[j as int] is None);
                        },
                        Some(other) => {
                            assert(opts[j as int] == Some(other@));
                            let outer = chars_of(other.as_str());
                            if inner.len() > 0 && !same(inner.as_slice(), outer.as_slice())
                                && contains(outer.as_slice(), inner.as_slice()) {
                                assert(is_part_of(opts[i as int], opts[j as int]));
                                return true;
                            }
                        },
                    }
                    j = j + 1;
                }
            },
        }
        i = i + 1;
    }
    false
}

/// Why no option was selected.
#[derive(Clone, Copy, Debug, PartialEq, Eq, Structural)]
pub enum SelectProblem {
    /// No option of the control matched any of the labels.
    NotFound,
    /// The labels were to be matched by containment, and the options are
    /// ambiguous for that.
    Ambiguous,
}

/// What selecting comes to. Matching by containment is refused outright where
/// the options are ambiguous for it; otherwise the first option that matches
/// is chosen.
pub open spec fn spec_select(
    options: Seq<Option<Seq<char>>>,
    labels: Seq<Seq<char>>,
    mode: Match,
) -> Result<int, SelectProblem> {
    if mode == Match::Contains && spec_ambiguous(options) {
        Err(SelectProblem::Ambiguous)
    } else {
        match spec_choose(options, labels, mode) {
            Some(i) => Ok(i),
            None => Err(SelectProblem::NotFound),
        }
    }
}

/// Matching by containment never settles on a broader label in silence: where
/// an option is selected, no option's text is part of another's.
pub proof fn lemma_contains_selects_unambiguously(
    options: Seq<Option<Seq<char>>>,
    labels: Seq<Seq<char>>,
    i: int,
)
    requires
        spec_select(options, labels, Match::Contains) == Ok::<int, SelectProblem>(i),
    ensures
        is_choice(options, labels, Match::Contains, i),
        forall|a: int, b: int|
            0 <= a < options.len() && 0 <= b < options.len() ==> !#[trigger] is_part_of(
                options[a],
                options[b],
            ),
{
}

/// One step of an extraction plan that sets a filter.
pub struct FilterStep {
    /// The selector of the control.
    pub selector: String,
    /// The labels that would do, any of them.
    pub labels: Vec<String>,
    pub mode: Match,
}

/// No option was selected: why, at which control, and for which labels.
#[derive(Debug)]
pub struct SelectError {
    pub problem: SelectProblem,
    pub selector: String,
    pub labels: Vec<String>,
}

/// A copy of `strings`.
pub fn copy_strings(strings: &Vec<String>) -> (out: Vec<String>)
    ensures
        texts(out@) == texts(strings@),
{
    let mut out: Vec<String> = Vec::new();
    let mut i: usize = 0;
    while i < strings.len()
        invariant
            i <= strings@.len(),
            out@.len() == i,
            forall|j: int| 0 <= j < i ==> out@[j]@ == strings@[j]@,
        decreases strings@.len() - i,
    {
        out.push(strings[i].clone());
        i = i + 1;
    }
    assert(texts(out@) =~= texts(strings@));
    out
}

/// The marker is present in the attribute: the control shows the state that
/// the marker stands for.
pub open spec fn spec_has_marker(attribute: Option<Seq<char>>, marker: Seq<char>) -> bool {
    attribute matches Some(value) && spec_contains(value, marker)
}

/// Whether the attribute of a control, if it has one, holds `marker`.
pub fn has_marker(attribute: Option<&str>, marker: &str) -> (b: bool)
    ensures
        b == spec_has_marker(
            match attribute {
                Some(a) => Some(a@),
                None => None,
            },
            marker@,
        ),
{
    match attribute {
        Some(value) => {
            let v = chars_of(value);
            let m = chars_of(marker);
            contains(v.as_slice(), m.as_slice())
        },
        None => false,
    }
}

impl FilterStep {
    /// A step for the control at `selector`.
    pub fn new(selector: &str, labels: Vec<String>, mode: Match) -> (step: FilterStep)
        ensures
            step.selector@ == selector@,
            step.labels == labels,
            step.mode == mode,
    {
        let s = chars_of(selector);
        FilterStep { selector: string_of(s.as_slice()), labels, mode }
    }

    /// Picks the option to click from the texts of the control's options, in
    /// document order. Fails, naming the control and the labels, when no option
    /// matches, or when the labels are to be matched by containment and the
    /// options are ambiguous for that.
    pub fn select(&self, options: &Vec<Option<String>>) -> (r: Result<usize, SelectError>)
        ensures
            match r {
                Ok(i) => spec_select(optional_texts(options@), texts(self.labels@), self.mode)
                    == Ok::<int, SelectProblem>(i as int),
                Err(e) => {
                    &&& spec_select(optional_texts(options@), texts(self.labels@), self.mode)
                        == Err::<int, SelectProblem>(e.problem)
                    &&& e.selector@ == self.selector@
                    &&& texts(e.labels@) == texts(self.labels@)
                },
            },
    {
        let refused = match self.mode {
            Match::Contains => ambiguous(options),
            Match::Exact => false,
        };
        let problem = if refused {
            SelectProblem::Ambiguous
        } else {
            match choose_option(options, &self.labels, self.mode) {
                Some(i) => {
                    return Ok(i);
                },
                None => SelectProblem::NotFound,
            }
        };
        Err(
            SelectError {
                problem,
                selector: self.selector.clone(),
                labels: copy_strings(&self.labels),
            },
        )
    }
}

} // verus!
