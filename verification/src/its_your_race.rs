//! Results hosted by It's Your Race: a structured listing with a next-page
//! link, filtered by year and race through drop-down lists, and a list of
//! participants beside it.

use crate::duration::{spec_parse, Duration};
use crate::filter::{optional_texts, texts};
use crate::number::{decimal, parse_positive_u16, push_decimal, spec_parse_positive_u16};
use crate::options::{ConfigError, Event, Opt, Race, Site, Year};
use crate::row::{
    assemble, diagnostic_view, diagnostics_of, ends_in_sentinel, has_sentinel, lemma_records_map,
    map_outcome, map_outcomes, records_of, Diagnostic, DiagnosticView, PageBatch, RowOutcome,
};
use crate::text::{
    chars_of, find_from, first_match, lemma_first_match, lines, optional_text, push_str,
    slice_of, spec_lines, spec_split, spec_strip_suffix, split, string_of, strip_suffix, views,
};
use vstd::prelude::*;

verus! {

/// Which listing to collect.
pub struct Params {
    pub event_id: u32,
    /// The labels under which the race list has carried the race over the
    /// years.
    pub race_menus: Vec<String>,
    pub year: Year,
    /// Collect the participants instead of the placements.
    pub participant: bool,
}

/// The labels of the solo male heavy category.
pub open spec fn solo_male_heavies() -> Seq<Seq<char>> {
    seq!["CIVILIAN Male Heavy"@, "Individual CIVILIAN Male Heavy"@]
}

/// A listing as the contracts see it.
pub struct ParamsView {
    pub event_id: u32,
    pub race_menus: Seq<Seq<char>>,
    pub year: Year,
    pub participant: bool,
}

impl View for Params {
    type V = ParamsView;

    open spec fn view(&self) -> ParamsView {
        ParamsView {
            event_id: self.event_id,
            race_menus: texts(self.race_menus@),
            year: self.year,
            participant: self.participant,
        }
    }
}

/// What a request for the Bataan Memorial Death March comes to: the listing
/// of the solo male heavy category, the one that is collected.
pub open spec fn spec_bmdm(opt: Opt) -> Result<ParamsView, ConfigError> {
    if opt.race == Race::SoloMaleHeavy {
        Ok(
            ParamsView {
                event_id: 6574,
                race_menus: solo_male_heavies(),
                year: opt.year,
                participant: opt.participant,
            },
        )
    } else {
        Err(ConfigError::RaceUnavailable { event: opt.event, race: opt.race })
    }
}

/// What a request comes to.
pub open spec fn spec_params(opt: Opt) -> Result<ParamsView, ConfigError> {
    if opt.event == Event::BMDM {
        spec_bmdm(opt)
    } else {
        Err(ConfigError::WrongSite { site: Site::ItsYourRace, event: opt.event })
    }
}

/// A result as the contracts see it.
pub open spec fn result_view(r: Result<Params, ConfigError>) -> Result<ParamsView, ConfigError> {
    match r {
        Ok(p) => Ok(p@),
        Err(e) => Err(e),
    }
}

impl Params {
    /// The listing for a request.
    pub fn new(opt: Opt) -> (r: Result<Params, ConfigError>)
        ensures
            result_view(r) == spec_params(opt),
    {
        match opt.event {
            Event::BMDM => Params::new_bmdm(opt),
            _ => Err(ConfigError::WrongSite { site: Site::ItsYourRace, event: opt.event }),
        }
    }

    /// The listing of the Bataan Memorial Death March.
    pub fn new_bmdm(opt: Opt) -> (r: Result<Params, ConfigError>)
        ensures
            result_view(r) == spec_bmdm(opt),
    {
        match opt.race {
            Race::SoloMaleHeavy => {},
            _ => {
                return Err(ConfigError::RaceUnavailable { event: opt.event, race: opt.race });
            },
        }
        let mut race_menus: Vec<String> = Vec::new();
        let a = chars_of("CIVILIAN Male Heavy");
        race_menus.push(string_of(a.as_slice()));
        let b = chars_of("Individual CIVILIAN Male Heavy");
        race_menus.push(string_of(b.as_slice()));
        assert(texts(race_menus@) =~= solo_male_heavies());
        Ok(Params { event_id: 6574, race_menus, year: opt.year, participant: opt.participant })
    }

    /// The address of the results page.
    pub fn url(&self) -> (s: String)
        ensures
            s@ == "https://www.itsyourrace.com/Results.aspx?id="@ + decimal(self.event_id as nat),
    {
        let mut out: Vec<char> = Vec::new();
        push_str(&mut out, "https://www.itsyourrace.com/Results.aspx?id=");
        push_decimal(&mut out, self.event_id as u64);
        assert(out@ =~= "https://www.itsyourrace.com/Results.aspx?id="@ + decimal(
            self.event_id as nat,
        ));
        string_of(out.as_slice())
    }

    /// The label to pick in the year list.
    pub fn year_label(&self) -> (s: String)
        ensures
            s@ == decimal(self.year.0 as nat),
    {
        let mut out: Vec<char> = Vec::new();
        push_decimal(&mut out, self.year.0 as u64);
        assert(out@ =~= decimal(self.year.0 as nat));
        string_of(out.as_slice())
    }
}

/// What came of looking for an element.
#[derive(Clone, Copy, Debug, PartialEq, Eq, Structural)]
pub enum Lookup {
    Found,
    /// The page has no such element.
    Missing,
    /// The transport failed.
    Failed,
}

/// The transport failed; the scrape cannot go on.
#[derive(Clone, Copy, Debug, PartialEq, Eq, Structural)]
pub struct TransportFailure;

/// Whether there is a further page, from the search for the next-page link:
/// there is one if the link is there, none if the page has no such link.
pub fn next_button(lookup: Lookup) -> (r: Result<bool, TransportFailure>)
    ensures
        r == match lookup {
            Lookup::Found => Ok::<bool, TransportFailure>(true),
            Lookup::Missing => Ok(false),
            Lookup::Failed => Err(TransportFailure),
        },
{
    match lookup {
        Lookup::Found => Ok(true),
        Lookup::Missing => Ok(false),
        Lookup::Failed => Err(TransportFailure),
    }
}

/// What the attempt to select a label in a drop-down list came to.
#[derive(Clone, Copy, Debug, PartialEq, Eq, Structural)]
pub enum LabelOutcome {
    Selected,
    /// The list has no option with that label.
    NoSuchOption,
    /// Any other failure; it is passed over like a missing option.
    Failed,
}

/// What to do about a drop-down list next.
#[derive(Clone, Copy, Debug, PartialEq, Eq, Structural)]
pub enum LabelDecision {
    /// A label was selected.
    Done,
    /// Try the label with this index.
    Try(usize),
    /// None of the labels is in the list.
    NotFound,
}

/// Where the search through `count` labels starts.
pub fn first_label(count: usize) -> (d: LabelDecision)
    ensures
        d == if count == 0 {
            LabelDecision::NotFound
        } else {
            LabelDecision::Try(0)
        },
{
    if count == 0 {
        LabelDecision::NotFound
    } else {
        LabelDecision::Try(0)
    }
}

/// What follows the attempt on label `index` of `count`: done if it was
/// selected, else the next label, until none is left.
pub fn after_label(index: usize, count: usize, outcome: LabelOutcome) -> (d: LabelDecision)
    ensures
        d == if outcome == LabelOutcome::Selected {
            LabelDecision::Done
        } else if index + 1 < count {
            LabelDecision::Try((index + 1) as usize)
        } else {
            LabelDecision::NotFound
        },
{
    match outcome {
        LabelOutcome::Selected => LabelDecision::Done,
        _ => if index < count && index + 1 < count {
            LabelDecision::Try(index + 1)
        } else {
            LabelDecision::NotFound
        },
    }
}

/// What was read of one row of the placements.
pub struct Row {
    /// The text of the overall place.
    pub place: Option<String>,
    /// The text of the name cell: the name, then the bib in brackets.
    pub name: Option<String>,
    /// The text of the chip time.
    pub chiptime: Option<String>,
    /// The text of the pace.
    pub pace: Option<String>,
    /// The text of the whole row.
    pub text: Option<String>,
}

/// A row as the contracts see it.
pub struct RowView {
    pub place: Option<Seq<char>>,
    pub name: Option<Seq<char>>,
    pub chiptime: Option<Seq<char>>,
    pub pace: Option<Seq<char>>,
    pub text: Option<Seq<char>>,
}

impl View for Row {
    type V = RowView;

    open spec fn view(&self) -> RowView {
        RowView {
            place: optional_text(self.place),
            name: optional_text(self.name),
            chiptime: optional_text(self.chiptime),
            pace: optional_text(self.pace),
            text: optional_text(self.text),
        }
    }
}

/// One finisher.
pub struct Placement {
    pub rank: u16,
    pub name: String,
    pub bib: String,
    pub time: Duration,
    pub pace: Duration,
}

/// A finisher as the contracts see one.
pub struct PlacementView {
    pub rank: u16,
    pub name: Seq<char>,
    pub bib: Seq<char>,
    pub time: nat,
    pub pace: nat,
}

impl View for Placement {
    type V = PlacementView;

    open spec fn view(&self) -> PlacementView {
        PlacementView {
            rank: self.rank,
            name: self.name@,
            bib: self.bib@,
            time: self.time.seconds as nat,
            pace: self.pace.seconds as nat,
        }
    }
}

/// The rule that a row failed.
#[derive(Clone, Copy, Debug, PartialEq, Eq, Structural)]
pub enum Rule {
    Rank,
    Name,
    Time,
    Pace,
}

/// The text up to the first occurrence of `end`, if `end` occurs.
pub open spec fn spec_until(s: Seq<char>, end: Seq<char>) -> Option<Seq<char>> {
    match first_match(s, end, 0) {
        Some(i) => Some(s.subrange(0, i)),
        None => None,
    }
}

/// Name and bib, from a text of the form `name (# bib)`: exactly one " (# ",
/// and a closing bracket after it.
pub open spec fn spec_name_and_bib(s: Seq<char>) -> Option<(Seq<char>, Seq<char>)> {
    let pieces = spec_split(s, " (# "@);
    if pieces.len() != 2 {
        None
    } else {
        match spec_until(pieces[1], seq![')']) {
            Some(bib) => Some((pieces[0], bib)),
            None => None,
        }
    }
}

/// The pace, from a text of the form `M:SS/mile`.
pub open spec fn spec_pace(s: Seq<char>) -> Option<nat> {
    match spec_strip_suffix(s, "/mile"@) {
        Some(t) => spec_parse(t),
        None => None,
    }
}

/// The finisher that a row describes, or the first rule that the row fails.
pub open spec fn spec_placement(row: RowView) -> Result<PlacementView, Rule> {
    if row.place is None || spec_parse_positive_u16(row.place->0) is None {
        Err(Rule::Rank)
    } else if row.name is None || spec_name_and_bib(row.name->0) is None {
        Err(Rule::Name)
    } else if row.chiptime is None || spec_parse(row.chiptime->0) is None {
        Err(Rule::Time)
    } else if row.pace is None || spec_pace(row.pace->0) is None {
        Err(Rule::Pace)
    } else {
        let name_and_bib = spec_name_and_bib(row.name->0).unwrap();
        Ok(
            PlacementView {
                rank: spec_parse_positive_u16(row.place->0)->0,
                name: name_and_bib.0,
                bib: name_and_bib.1,
                time: spec_parse(row.chiptime->0)->0,
                pace: spec_pace(row.pace->0)->0,
            },
        )
    }
}

fn until(s: &[char], end: &[char]) -> (r: Option<Vec<char>>)
    ensures
        r is Some <==> spec_until(s@, end@) is Some,
        r matches Some(v) ==> spec_until(s@, end@) == Some(v@),
{
    match find_from(s, end, 0) {
        Some(i) => {
            proof {
                lemma_first_match(s@, end@, 0);
            }
            Some(slice_of(s, 0, i))
        },
        None => None,
    }
}

fn name_and_bib(s: &[char]) -> (r: Option<(Vec<char>, Vec<char>)>)
    ensures
        r is Some <==> spec_name_and_bib(s@) is Some,
        r matches Some(v) ==> spec_name_and_bib(s@) == Some((v.0@, v.1@)),
{
    let sep = chars_of(" (# ");
    proof {
        reveal_strlit(" (# ");
    }
    let pieces = split(s, sep.as_slice());
    assert(views(pieces@).len() == pieces@.len());
    if pieces.len() != 2 {
        return None;
    }
    assert(views(pieces@)[0] == pieces@[0]@);
    assert(views(pieces@)[1] == pieces@[1]@);
    let close: [char; 1] = [')'];
    assert(close@ =~= seq![')']);
    match until(pieces[1].as_slice(), close.as_slice()) {
        Some(bib) => Some((pieces[0].clone(), bib)),
        None => None,
    }
}

fn pace_of(s: &[char]) -> (r: Option<Duration>)
    ensures
        r is Some <==> spec_pace(s@) is Some,
        r matches Some(d) ==> spec_pace(s@) == Some(d.seconds as nat),
{
    let suffix = chars_of("/mile");
    match strip_suffix(s, suffix.as_slice()) {
        Some(t) => Duration::parse_chars(t.as_slice()),
        None => None,
    }
}

impl Placement {
    /// Reads a finisher from a row.
    pub fn from_row(row: &Row) -> (r: Result<Placement, Rule>)
        ensures
            match r {
                Ok(p) => spec_placement(row@) == Ok::<_, Rule>(p@),
                Err(rule) => spec_placement(row@) == Err::<PlacementView, _>(rule),
            },
            r matches Ok(p) ==> p.rank > 0,
    {
        let rank = match &row.place {
            Some(t) => {
                let c = chars_of(t.as_str());
                match parse_positive_u16(c.as_slice()) {
                    Some(v) => v,
                    None => {
                        return Err(Rule::Rank);
                    },
                }
            },
            None => {
                return Err(Rule::Rank);
            },
        };
        let (name, bib) = match &row.name {
            Some(t) => {
                let c = chars_of(t.as_str());
                match name_and_bib(c.as_slice()) {
                    Some(v) => v,
                    None => {
                        return Err(Rule::Name);
                    },
                }
            },
            None => {
                return Err(Rule::Name);
            },
        };
        let time = match &row.chiptime {
            Some(t) => match Duration::parse(t.as_str()) {
                Some(v) => v,
                None => {
                    return Err(Rule::Time);
                },
            },
            None => {
                return Err(Rule::Time);
            },
        };
        let pace = match &row.pace {
            Some(t) => {
                let c = chars_of(t.as_str());
                match pace_of(c.as_slice()) {
                    Some(v) => v,
                    None => {
                        return Err(Rule::Pace);
                    },
                }
            },
            None => {
                return Err(Rule::Pace);
            },
        };
        Ok(
            Placement {
                rank,
                name: string_of(name.as_slice()),
                bib: string_of(bib.as_slice()),
                time,
                pace,
            },
        )
    }
}

/// What becomes of a row: discarded in silence if its text ends in a marker,
/// else a record if it meets every rule, else discarded with a diagnostic.
pub open spec fn spec_outcome(row: RowView) -> RowOutcome<PlacementView, DiagnosticView<Rule>> {
    if row.text is Some && ends_in_sentinel(row.text->0) {
        RowOutcome::Silent
    } else {
        match spec_placement(row) {
            Ok(p) => RowOutcome::Record(p),
            Err(rule) => RowOutcome::Reported(DiagnosticView { text: row.text, rule }),
        }
    }
}

/// A row whose text ends in a marker leaves no trace: no record and no
/// diagnostic, whatever else the row holds.
pub proof fn lemma_sentinel_is_silent(row: RowView)
    requires
        row.text is Some,
        ends_in_sentinel(row.text->0),
    ensures
        spec_outcome(row) is Silent,
{
}

/// The view of a finisher.
pub open spec fn placement_view() -> spec_fn(Placement) -> PlacementView {
    |p: Placement| p@
}

/// Extracts one row.
pub fn row_outcome(row: &Row) -> (r: RowOutcome<Placement, Diagnostic<Rule>>)
    ensures
        map_outcome(r, placement_view(), diagnostic_view::<Rule>()) == spec_outcome(row@),
{
    let silent = match &row.text {
        Some(t) => has_sentinel(t.as_str()),
        None => false,
    };
    if silent {
        return RowOutcome::Silent;
    }
    match Placement::from_row(row) {
        Ok(p) => RowOutcome::Record(p),
        Err(rule) => RowOutcome::Reported(Diagnostic { text: row.text.clone(), rule }),
    }
}

/// The outcomes of the rows of a page.
pub open spec fn page_outcomes(rows: Seq<Row>) -> Seq<
    RowOutcome<PlacementView, DiagnosticView<Rule>>,
> {
    Seq::new(rows.len(), |i: int| spec_outcome(rows[i]@))
}

/// Extracts a page: each of its rows, in order.
pub fn extract_page(rows: &Vec<Row>) -> (batch: PageBatch<Placement, Diagnostic<Rule>>)
    ensures
        batch.records@.map_values(placement_view()) == records_of(page_outcomes(rows@)),
        batch.diagnostics@.map_values(diagnostic_view::<Rule>()) == diagnostics_of(
            page_outcomes(rows@),
        ),
{
    let mut outcomes: Vec<RowOutcome<Placement, Diagnostic<Rule>>> = Vec::new();
    let mut i: usize = 0;
    while i < rows.len()
        invariant
            i <= rows@.len(),
            outcomes@.len() == i,
            forall|j: int|
                0 <= j < i ==> map_outcome(
                    #[trigger] outcomes@[j],
                    placement_view(),
                    diagnostic_view::<Rule>(),
                ) == spec_outcome(rows@[j]@),
        decreases rows@.len() - i,
    {
        outcomes.push(row_outcome(&rows[i]));
        i = i + 1;
    }
    proof {
        lemma_records_map(outcomes@, placement_view(), diagnostic_view::<Rule>());
        assert(map_outcomes(outcomes@, placement_view(), diagnostic_view::<Rule>())
            =~= page_outcomes(rows@));
    }
    assemble(outcomes)
}

/// One registered participant.
pub struct Participant {
    pub name: String,
    pub bib: String,
    pub hometown: String,
    pub race: String,
    pub age_group: String,
}

/// A participant as the contracts see one.
pub struct ParticipantView {
    pub name: Seq<char>,
    pub bib: Seq<char>,
    pub hometown: Seq<char>,
    pub race: Seq<char>,
    pub age_group: Seq<char>,
}

impl View for Participant {
    type V = ParticipantView;

    open spec fn view(&self) -> ParticipantView {
        ParticipantView {
            name: self.name@,
            bib: self.bib@,
            hometown: self.hometown@,
            race: self.race@,
            age_group: self.age_group@,
        }
    }
}

/// Name and bib, from the first line of a participant's cell: the name alone,
/// or `name ( Bib # bib )`.
pub open spec fn spec_participant_name(line: Seq<char>) -> Option<(Seq<char>, Seq<char>)> {
    let pieces = spec_split(line, " ( Bib # "@);
    if pieces.len() == 1 {
        Some((line, Seq::empty()))
    } else if pieces.len() == 2 {
        match spec_until(pieces[1], " )"@) {
            Some(bib) => Some((pieces[0], bib)),
            None => None,
        }
    } else {
        None
    }
}

/// The text of cell `i`, if the row has it and it could be read.
pub open spec fn cell(cells: Seq<Option<Seq<char>>>, i: int) -> Option<Seq<char>> {
    if 0 <= i < cells.len() {
        cells[i]
    } else {
        None
    }
}

/// The rule that a row of participants failed.
#[derive(Clone, Copy, Debug, PartialEq, Eq, Structural)]
pub enum ParticipantRule {
    /// One of the first four cells is missing or could not be read.
    Cells,
    /// The second cell does not hold two lines.
    Lines,
    /// The bib has no closing bracket, or there is more than one bib.
    Bib,
}

/// The participant that a row of cells describes, or the first rule that the
/// row fails: the second cell holds name and bib on a first line and the
/// hometown on a second, the third cell the race, the fourth the age group.
pub open spec fn spec_participant(cells: Seq<Option<Seq<char>>>) -> Result<
    ParticipantView,
    ParticipantRule,
> {
    if cells.len() < 4 || cells[1] is None || cells[2] is None || cells[3] is None {
        Err(ParticipantRule::Cells)
    } else {
        let ls = spec_lines(cells[1]->0);
        if ls.len() != 2 {
            Err(ParticipantRule::Lines)
        } else {
            match spec_participant_name(ls[0]) {
                None => Err(ParticipantRule::Bib),
                Some(nb) => Ok(
                    ParticipantView {
                        name: nb.0,
                        bib: nb.1,
                        hometown: ls[1],
                        race: cells[2]->0,
                        age_group: cells[3]->0,
                    },
                ),
            }
        }
    }
}

/// The last cell of the row could be read and ends in a marker of a row that
/// holds no result.
pub open spec fn is_sentinel_row(cells: Seq<Option<Seq<char>>>) -> bool {
    cells.len() > 0 && cells.last() is Some && ends_in_sentinel(cells.last()->0)
}

/// What becomes of a row of participants: discarded in silence if its last
/// cell ends in a marker, else a record if it meets every rule, else
/// discarded with a diagnostic that holds the text of its second cell.
pub open spec fn spec_participant_outcome(cells: Seq<Option<Seq<char>>>) -> RowOutcome<
    ParticipantView,
    DiagnosticView<ParticipantRule>,
> {
    if is_sentinel_row(cells) {
        RowOutcome::Silent
    } else {
        match spec_participant(cells) {
            Ok(p) => RowOutcome::Record(p),
            Err(rule) => RowOutcome::Reported(DiagnosticView { text: cell(cells, 1), rule }),
        }
    }
}

fn participant_name(line: &[char]) -> (r: Option<(Vec<char>, Vec<char>)>)
    ensures
        r is Some <==> spec_participant_name(line@) is Some,
        r matches Some(v) ==> spec_participant_name(line@) == Some((v.0@, v.1@)),
{
    let sep = chars_of(" ( Bib # ");
    proof {
        reveal_strlit(" ( Bib # ");
    }
    let pieces = split(line, sep.as_slice());
    assert(views(pieces@).len() == pieces@.len());
    if pieces.len() == 1 {
        let whole = slice_of(line, 0, line.len());
        assert(whole@ =~= line@);
        Some((whole, Vec::new()))
    } else if pieces.len() == 2 {
        assert(views(pieces@)[0] == pieces@[0]@);
        assert(views(pieces@)[1] == pieces@[1]@);
        let close = chars_of(" )");
        match until(pieces[1].as_slice(), close.as_slice()) {
            Some(bib) => Some((pieces[0].clone(), bib)),
            None => None,
        }
    } else {
        None
    }
}

impl Participant {
    /// Reads a participant from the texts of a row's cells.
    pub fn from_cells(cells: &Vec<Option<String>>) -> (r: Result<Participant, ParticipantRule>)
        ensures
            match r {
                Ok(p) => spec_participant(optional_texts(cells@)) == Ok::<_, ParticipantRule>(
                    p@,
                ),
                Err(rule) => spec_participant(optional_texts(cells@)) == Err::<
                    ParticipantView,
                    _,
                >(rule),
            },
    {
        let ghost cs = optional_texts(cells@);
        if cells.len() < 4 {
            return Err(ParticipantRule::Cells);
        }
        assert(forall|i: int| 0 <= i < 4 ==> cs[i] == optional_text(cells@[i]));
        let second = match &cells[1] {
            Some(t) => chars_of(t.as_str()),
            None => {
                return Err(ParticipantRule::Cells);
            },
        };
        let race = match &cells[2] {
            Some(t) => t.clone(),
            None => {
                return Err(ParticipantRule::Cells);
            },
        };
        let age_group = match &cells[3] {
            Some(t) => t.clone(),
            None => {
                return Err(ParticipantRule::Cells);
            },
        };
        let ls = lines(second.as_slice());
        assert(views(ls@).len() == ls@.len());
        if ls.len() != 2 {
            return Err(ParticipantRule::Lines);
        }
        assert(views(ls@)[0] == ls@[0]@);
        assert(views(ls@)[1] == ls@[1]@);
        match participant_name(ls[0].as_slice()) {
            None => Err(ParticipantRule::Bib),
            Some((name, bib)) => Ok(
                Participant {
                    name: string_of(name.as_slice()),
                    bib: string_of(bib.as_slice()),
                    hometown: string_of(ls[1].as_slice()),
                    race,
                    age_group,
                },
            ),
        }
    }
}

/// The view of a participant.
pub open spec fn participant_view() -> spec_fn(Participant) -> ParticipantView {
    |p: Participant| p@
}

/// Extracts one row of participants.
pub fn participant_outcome(cells: &Vec<Option<String>>) -> (r: RowOutcome<
    Participant,
    Diagnostic<ParticipantRule>,
>)
    ensures
        map_outcome(r, participant_view(), diagnostic_view::<ParticipantRule>())
            == spec_participant_outcome(optional_texts(cells@)),
{
    let ghost cs = optional_texts(cells@);
    let n = cells.len();
    let silent = if n == 0 {
        false
    } else {
        assert(cs.last() == optional_text(cells@[n - 1]));
        match &cells[n - 1] {
            Some(t) => has_sentinel(t.as_str()),
            None => false,
        }
    };
    if silent {
        return RowOutcome::Silent;
    }
    match Participant::from_cells(cells) {
        Ok(p) => RowOutcome::Record(p),
        Err(rule) => {
            let text = if n > 1 {
                assert(cs[1] == optional_text(cells@[1]));
                cells[1].clone()
            } else {
                None
            };
            RowOutcome::Reported(Diagnostic { text, rule })
        },
    }
}

/// The outcomes of the rows of a page of participants.
pub open spec fn participant_outcomes(rows: Seq<Vec<Option<String>>>) -> Seq<
    RowOutcome<ParticipantView, DiagnosticView<ParticipantRule>>,
> {
    Seq::new(rows.len(), |i: int| spec_participant_outcome(optional_texts(rows[i]@)))
}

/// Extracts a page of participants: each of its rows, in order. The batch
/// holds the participants and the diagnostics of the rows that were discarded
/// unexpectedly.
pub fn extract_participants(rows: &Vec<Vec<Option<String>>>) -> (batch: PageBatch<
    Participant,
    Diagnostic<ParticipantRule>,
>)
    ensures
        batch.records@.map_values(participant_view()) == records_of(participant_outcomes(rows@)),
        batch.diagnostics@.map_values(diagnostic_view::<ParticipantRule>()) == diagnostics_of(
            participant_outcomes(rows@),
        ),
{
    let mut outcomes: Vec<RowOutcome<Participant, Diagnostic<ParticipantRule>>> = Vec::new();
    let mut i: usize = 0;
    while i < rows.len()
        invariant
            i <= rows@.len(),
            outcomes@.len() == i,
            forall|j: int|
                0 <= j < i ==> map_outcome(
                    #[trigger] outcomes@[j],
                    participant_view(),
                    diagnostic_view::<ParticipantRule>(),
                ) == spec_participant_outcome(optional_texts(rows@[j]@)),
        decreases rows@.len() - i,
    {
        outcomes.push(participant_outcome(&rows[i]));
        i = i + 1;
    }
    proof {
        lemma_records_map(outcomes@, participant_view(), diagnostic_view::<ParticipantRule>());
        assert(map_outcomes(outcomes@, participant_view(), diagnostic_view::<ParticipantRule>())
            =~= participant_outcomes(rows@));
    }
    assemble(outcomes)
}

} // verus!
