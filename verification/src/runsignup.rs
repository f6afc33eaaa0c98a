//! Results hosted by RunSignup: one long table, read from the page source.

use crate::duration::{spec_parse, Duration};
use crate::options::{ConfigError, Opt, Site, YearProblem};
use crate::row::{
    assemble, diagnostic_view, diagnostics_of, ends_in_sentinel, has_sentinel_chars,
    lemma_records_map, map_outcome, map_outcomes, records_of, Diagnostic, DiagnosticView,
    PageBatch, RowOutcome,
};
use crate::scan::{markup_text, past, spec_markup_text, spec_past, spec_until, until};
use crate::text::{
    chars_of, slice_of, spec_split, spec_without, split, string_of, views, without,
};
use vstd::prelude::*;

verus! {

/// The one listing that is collected: The Quad of 2020.
#[derive(Clone, Copy, Debug, PartialEq, Eq, Structural)]
pub struct Params;

impl Params {
    /// The listing for a request: only the year 2020 is collected.
    pub fn new(opt: Opt) -> (r: Result<Params, ConfigError>)
        ensures
            r == if opt.year.0 == 2020 {
                Ok::<Params, ConfigError>(Params)
            } else {
                Err(
                    ConfigError::YearUnavailable {
                        site: Site::RunSignup,
                        event: opt.event,
                        year: opt.year,
                        problem: YearProblem::NotCollected,
                    },
                )
            },
    {
        if opt.year.0 == 2020 {
            Ok(Params)
        } else {
            Err(
                ConfigError::YearUnavailable {
                    site: Site::RunSignup,
                    event: opt.event,
                    year: opt.year,
                    problem: YearProblem::NotCollected,
                },
            )
        }
    }

    /// The address of the listing, with all rows on one page.
    pub fn url(&self) -> (s: String)
        ensures
            s@ == "https://runsignup.com/Race/Results/84435/#resultSetId-189088;perpage:5000"@,
    {
        "https://runsignup.com/Race/Results/84435/#resultSetId-189088;perpage:5000".to_owned()
    }
}

/// One finisher.
pub struct Placement {
    pub place: String,
    pub name: String,
    pub clock_time: Duration,
}

/// A finisher as the contracts see one.
pub struct PlacementView {
    pub place: Seq<char>,
    pub name: Seq<char>,
    pub clock_time: nat,
}

impl View for Placement {
    type V = PlacementView;

    open spec fn view(&self) -> PlacementView {
        PlacementView {
            place: self.place@,
            name: self.name@,
            clock_time: self.clock_time.seconds as nat,
        }
    }
}

/// A name without the tags that set its family name in bold.
pub open spec fn spec_plain_name(name: Seq<char>) -> Seq<char> {
    spec_without(spec_without(name, "<b>"@), "</b>"@)
}

impl Placement {
    /// A finisher from the three fields of a row; the bold tags are taken out
    /// of the name.
    pub fn new(fields: (&str, &str, Duration)) -> (p: Placement)
        ensures
            p@ == (PlacementView {
                place: fields.0@,
                name: spec_plain_name(fields.1@),
                clock_time: fields.2.seconds as nat,
            }),
    {
        let place = chars_of(fields.0);
        let name = chars_of(fields.1);
        Placement::from_chars(place.as_slice(), name.as_slice(), fields.2)
    }

    fn from_chars(place: &[char], name: &[char], clock_time: Duration) -> (p: Placement)
        ensures
            p@ == (PlacementView {
                place: place@,
                name: spec_plain_name(name@),
                clock_time: clock_time.seconds as nat,
            }),
    {
        proof {
            reveal_strlit("<b>");
            reveal_strlit("</b>");
        }
        let open = chars_of("<b>");
        let close = chars_of("</b>");
        let half = without(name, open.as_slice());
        let plain = without(half.as_slice(), close.as_slice());
        Placement {
            place: string_of(place),
            name: string_of(plain.as_slice()),
            clock_time,
        }
    }
}

/// The rule that a row failed.
#[derive(Clone, Copy, Debug, PartialEq, Eq, Structural)]
pub enum Rule {
    Place,
    Name,
    Time,
}

/// The finisher that a row describes, or the first rule that it fails. `s` is
/// the markup of the row from behind the marker that starts it. The place is
/// the text of the cell of class `place`; the name is what the cell of class
/// `name` holds, less its bold tags; the time is the text behind the next
/// `class="time">`.
pub open spec fn spec_placement(s: Seq<char>) -> Result<PlacementView, Rule> {
    let p1 = spec_past(s, 0, "<td class=\"place\">"@);
    let e1 = if p1 is Some {
        spec_until(s, p1->0, "<"@)
    } else {
        None
    };
    if e1 is None {
        Err(Rule::Place)
    } else {
        let p2 = spec_past(s, e1->0, "<td class=\"name\">"@);
        let e2 = if p2 is Some {
            spec_until(s, p2->0, "</td>"@)
        } else {
            None
        };
        if e2 is None {
            Err(Rule::Name)
        } else {
            let p3 = spec_past(s, e2->0, "class=\"time\">"@);
            let e3 = if p3 is Some {
                spec_until(s, p3->0, "<"@)
            } else {
                None
            };
            if e3 is None || spec_parse(s.subrange(p3->0, e3->0)) is None {
                Err(Rule::Time)
            } else {
                Ok(
                    PlacementView {
                        place: s.subrange(p1->0, e1->0),
                        name: spec_plain_name(s.subrange(p2->0, e2->0)),
                        clock_time: spec_parse(s.subrange(p3->0, e3->0))->0,
                    },
                )
            }
        }
    }
}

/// Reads a finisher from the markup of a row.
pub fn placement(s: &[char]) -> (r: Result<Placement, Rule>)
    ensures
        match r {
            Ok(p) => spec_placement(s@) == Ok::<_, Rule>(p@),
            Err(rule) => spec_placement(s@) == Err::<PlacementView, _>(rule),
        },
{
    proof {
        reveal_strlit("<td class=\"place\">");
        reveal_strlit("<td class=\"name\">");
        reveal_strlit("class=\"time\">");
        reveal_strlit("<");
        reveal_strlit("</td>");
    }
    let place_tag = chars_of("<td class=\"place\">");
    let name_tag = chars_of("<td class=\"name\">");
    let time_tag = chars_of("class=\"time\">");
    let lt = chars_of("<");
    let close = chars_of("</td>");
    let p1 = match past(s, 0, place_tag.as_slice()) {
        Some(p) => p,
        None => {
            return Err(Rule::Place);
        },
    };
    let e1 = match until(s, p1, lt.as_slice()) {
        Some(p) => p,
        None => {
            return Err(Rule::Place);
        },
    };
    let p2 = match past(s, e1, name_tag.as_slice()) {
        Some(p) => p,
        None => {
            return Err(Rule::Name);
        },
    };
    let e2 = match until(s, p2, close.as_slice()) {
        Some(p) => p,
        None => {
            return Err(Rule::Name);
        },
    };
    let p3 = match past(s, e2, time_tag.as_slice()) {
        Some(p) => p,
        None => {
            return Err(Rule::Time);
        },
    };
    let e3 = match until(s, p3, lt.as_slice()) {
        Some(p) => p,
        None => {
            return Err(Rule::Time);
        },
    };
    let time_text = slice_of(s, p3, e3);
    let clock_time = match Duration::parse_chars(time_text.as_slice()) {
        Some(d) => d,
        None => {
            return Err(Rule::Time);
        },
    };
    let place = slice_of(s, p1, e1);
    let name = slice_of(s, p2, e2);
    Ok(Placement::from_chars(place.as_slice(), name.as_slice(), clock_time))
}

/// What becomes of a row: discarded in silence if the last line of its text
/// is a marker, else a record if it meets every rule, else discarded with a
/// diagnostic. The markup starts within the opening tag of the row.
pub open spec fn spec_outcome(s: Seq<char>) -> RowOutcome<PlacementView, DiagnosticView<Rule>> {
    if ends_in_sentinel(spec_markup_text(s, true)) {
        RowOutcome::Silent
    } else {
        match spec_placement(s) {
            Ok(p) => RowOutcome::Record(p),
            Err(rule) => RowOutcome::Reported(DiagnosticView { text: Some(s), rule }),
        }
    }
}

/// The markup of each row of a page: what follows each marker of a row, up to
/// the next marker.
pub open spec fn spec_rows(s: Seq<char>) -> Seq<Seq<char>> {
    spec_split(s, "<tr data-result-url=\""@).drop_first()
}

/// The outcomes of the rows of a page.
pub open spec fn spec_page(s: Seq<char>) -> Seq<RowOutcome<PlacementView, DiagnosticView<Rule>>> {
    Seq::new(spec_rows(s).len(), |i: int| spec_outcome(spec_rows(s)[i]))
}

/// The view of a finisher.
pub open spec fn placement_view() -> spec_fn(Placement) -> PlacementView {
    |p: Placement| p@
}

/// Extracts one row from its markup.
pub fn row_outcome(s: &[char]) -> (r: RowOutcome<Placement, Diagnostic<Rule>>)
    ensures
        map_outcome(r, placement_view(), diagnostic_view::<Rule>()) == spec_outcome(s@),
{
    let text = markup_text(s, true);
    if has_sentinel_chars(text.as_slice()) {
        return RowOutcome::Silent;
    }
    match placement(s) {
        Ok(p) => RowOutcome::Record(p),
        Err(rule) => RowOutcome::Reported(Diagnostic { text: Some(string_of(s)), rule }),
    }
}

/// A row whose text ends in a marker leaves no trace.
pub proof fn lemma_sentinel_is_silent(s: Seq<char>)
    requires
        ends_in_sentinel(spec_markup_text(s, true)),
    ensures
        spec_outcome(s) is Silent,
{
}

/// Extracts the page whose source is `input`: each of its rows, in order.
pub fn placements(input: &str) -> (batch: PageBatch<Placement, Diagnostic<Rule>>)
    ensures
        batch.records@.map_values(placement_view()) == records_of(spec_page(input@)),
        batch.diagnostics@.map_values(diagnostic_view::<Rule>()) == diagnostics_of(
            spec_page(input@),
        ),
{
    proof {
        reveal_strlit("<tr data-result-url=\"");
    }
    let s = chars_of(input);
    let marker = chars_of("<tr data-result-url=\"");
    let pieces = split(s.as_slice(), marker.as_slice());
    let ghost rows = spec_rows(input@);
    assert(rows =~= views(pieces@).drop_first());
    let mut outcomes: Vec<RowOutcome<Placement, Diagnostic<Rule>>> = Vec::new();
    let mut i: usize = 1;
    while i < pieces.len()
        invariant
            1 <= i <= pieces@.len(),
            rows == views(pieces@).drop_first(),
            outcomes@.len() == i - 1,
            forall|j: int|
                0 <= j < i - 1 ==> map_outcome(
                    #[trigger] outcomes@[j],
                    placement_view(),
                    diagnostic_view::<Rule>(),
                ) == spec_outcome(rows[j]),
        decreases pieces@.len() - i,
    {
        assert(rows[i - 1] == pieces@[i as int]@);
        outcomes.push(row_outcome(pieces[i].as_slice()));
        i = i + 1;
    }
    proof {
        lemma_records_map(outcomes@, placement_view(), diagnostic_view::<Rule>());
        assert(map_outcomes(outcomes@, placement_view(), diagnostic_view::<Rule>()) =~= spec_page(
            input@,
        ));
    }
    assemble(outcomes)
}

} // verus!
