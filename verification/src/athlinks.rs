//! Results hosted by Athlinks: a structured listing, fifty rows to a page,
//! filtered by event date and race through pop-up lists.

use crate::duration::{spec_parse, Duration};
use crate::filter::{has_marker, spec_has_marker, texts, FilterStep, Match};
use crate::number::{
    decimal, parse_positive_u16, parse_positive_u8, push_decimal, spec_parse_positive_u16,
    spec_parse_positive_u8,
};
use crate::options::{ConfigError, Event, Opt, Race, Site, Year, YearProblem};
use crate::row::{
    assemble, diagnostic_view, diagnostics_of, ends_in_sentinel, has_sentinel, lemma_records_map,
    map_outcome, map_outcomes, records_of, Diagnostic, DiagnosticView, PageBatch, RowOutcome,
};
use crate::text::{
    chars_of, lines, optional_text, push_str, spec_first_line, spec_lines, spec_split,
    spec_strip_prefix, spells, split, string_of, strip_prefix, views,
};
use vstd::prelude::*;

verus! {

/// Which Athlinks listing to collect.
#[derive(Clone, Copy, Debug, PartialEq, Eq, Structural)]
pub struct Params {
    pub event_id: u32,
    pub second_id: u32,
    pub race: Race,
    pub year: Year,
}

/// The identifiers of an event's listing, if Athlinks hosts the event.
pub open spec fn listing_ids(event: Event) -> Option<(u32, u32)> {
    match event {
        Event::Rftz => Some((34346u32, 729962u32)),
        Event::Lt100 => Some((33913u32, 1064640u32)),
        Event::DukeCityMarathon => Some((35398u32, 1032202u32)),
        Event::CorralesDitchRun => Some((6398u32, 1079194u32)),
        Event::KotH => Some((166931u32, 1064112u32)),
        Event::RioGrande => Some((11260u32, 1040305u32)),
        Event::DoggieDash => Some((68104u32, 1094706u32)),
        Event::RioDelLago => Some((63638u32, 991871u32)),
        _ => None,
    }
}

/// The years of `event` for which results are collected.
pub open spec fn year_offered(event: Event, year: Year) -> bool {
    match event {
        Event::DukeCityMarathon => year.0 == 2022 || year.0 == 2023 || year.0 == 2024,
        Event::CorralesDitchRun => year.0 == 2023,
        _ => true,
    }
}

/// The races of `event` for which results are collected.
pub open spec fn race_offered(event: Event, race: Race) -> bool {
    match event {
        Event::Rftz | Event::CorralesDitchRun => race == Race::TenK || race == Race::Half || race
            == Race::FiveK,
        Event::Lt100 | Event::RioDelLago => race == Race::Full,
        Event::DukeCityMarathon => race == Race::Full || race == Race::Half || race == Race::FiveK
            || race == Race::TenK,
        Event::KotH => race == Race::FiveK || race == Race::TenK || race == Race::TenKRuck || race
            == Race::Half,
        Event::RioGrande => race == Race::FiveK || race == Race::Half,
        Event::DoggieDash => race == Race::FiveK,
        _ => false,
    }
}

/// What a request for `event`, which Athlinks hosts, comes to: the listing, or
/// the reason there is none. The year is checked before the race.
pub open spec fn spec_listing(event: Event, opt: Opt) -> Result<Params, ConfigError> {
    if !year_offered(event, opt.year) {
        Err(
            ConfigError::YearUnavailable {
                site: Site::Athlinks,
                event: opt.event,
                year: opt.year,
                problem: YearProblem::NotCollected,
            },
        )
    } else if !race_offered(event, opt.race) {
        Err(ConfigError::RaceUnavailable { event: opt.event, race: opt.race })
    } else {
        let ids = listing_ids(event).unwrap();
        Ok(Params { event_id: ids.0, second_id: ids.1, race: opt.race, year: opt.year })
    }
}

/// What a request comes to: the listing, or the reason there is none.
pub open spec fn spec_params(opt: Opt) -> Result<Params, ConfigError> {
    if listing_ids(opt.event) is None {
        Err(ConfigError::WrongSite { site: Site::Athlinks, event: opt.event })
    } else {
        spec_listing(opt.event, opt)
    }
}

/// The race has labels in the race filter.
pub open spec fn has_labels(race: Race) -> bool {
    race == Race::Full || race == Race::Half || race == Race::TenK || race == Race::FiveK || race
        == Race::TenKRuck
}

/// Whether the race has labels in the race filter.
pub fn is_labelled(race: Race) -> (b: bool)
    ensures
        b == has_labels(race),
{
    match race {
        Race::Full | Race::Half | Race::TenK | Race::FiveK | Race::TenKRuck => true,
        _ => false,
    }
}

/// The labels under which the race filter may list `race`.
pub open spec fn spec_li_text(race: Race) -> Seq<Seq<char>> {
    match race {
        Race::Full => seq!["Marathon"@, "100 Mile Endurance Run"@],
        Race::Half => seq!["Half Marathon"@, "Lovelace Rio Grande Half Marathon"@],
        Race::TenK => seq!["10K Timed"@, "10K Run"@, "10k"@],
        Race::FiveK => seq![
            "5K Timed"@,
            "5K Run"@,
            "5K Run/Walk"@,
            "5k"@,
            "Garrity Group 5k Run/Walk"@,
            "One Medal 5k Run/Walk"@,
            "Doggie Dash"@,
        ],
        Race::TenKRuck => seq!["10k Rucksack"@],
        _ => Seq::empty(),
    }
}

fn push_label(out: &mut Vec<String>, label: &str)
    ensures
        texts(final(out)@) == texts(old(out)@).push(label@),
{
    let c = chars_of(label);
    out.push(string_of(c.as_slice()));
    assert(texts(out@) =~= texts(old(out)@).push(label@));
}

/// The labels under which the race filter may list `race`.
pub fn li_text(race: Race) -> (labels: Vec<String>)
    requires
        has_labels(race),
    ensures
        texts(labels@) == spec_li_text(race),
{
    let mut out: Vec<String> = Vec::new();
    assert(texts(out@) =~= Seq::<Seq<char>>::empty());
    match race {
        Race::Full => {
            push_label(&mut out, "Marathon");
            push_label(&mut out, "100 Mile Endurance Run");
        },
        Race::Half => {
            push_label(&mut out, "Half Marathon");
            push_label(&mut out, "Lovelace Rio Grande Half Marathon");
        },
        Race::TenK => {
            push_label(&mut out, "10K Timed");
            push_label(&mut out, "10K Run");
            push_label(&mut out, "10k");
        },
        Race::FiveK => {
            push_label(&mut out, "5K Timed");
            push_label(&mut out, "5K Run");
            push_label(&mut out, "5K Run/Walk");
            push_label(&mut out, "5k");
            push_label(&mut out, "Garrity Group 5k Run/Walk");
            push_label(&mut out, "One Medal 5k Run/Walk");
            push_label(&mut out, "Doggie Dash");
        },
        Race::TenKRuck => {
            push_label(&mut out, "10k Rucksack");
        },
        _ => {},
    }
    assert(texts(out@) =~= spec_li_text(race));
    out
}

impl Params {
    /// The listing for a request, if Athlinks hosts the event and the race and
    /// year are among those collected.
    pub fn new(opt: Opt) -> (r: Result<Params, ConfigError>)
        ensures
            r == spec_params(opt),
            r matches Ok(p) ==> has_labels(p.race),
    {
        match opt.event {
            Event::Rftz => Params::new_rtfz(opt),
            Event::Lt100 => Params::new_lt100(opt),
            Event::DukeCityMarathon => Params::new_dcm(opt),
            Event::CorralesDitchRun => Params::new_cdr(opt),
            Event::KotH => Params::new_koth(opt),
            Event::RioGrande => Params::new_rio_grande(opt),
            Event::DoggieDash => Params::new_doggie_dash(opt),
            Event::RioDelLago => Params::new_rdl(opt),
            _ => Err(ConfigError::WrongSite { site: Site::Athlinks, event: opt.event }),
        }
    }

    /// Run for the Zoo: half, 10k and 5k.
    pub fn new_rtfz(opt: Opt) -> (r: Result<Params, ConfigError>)
        ensures
            r == spec_listing(Event::Rftz, opt),
    {
        match opt.race {
            Race::TenK | Race::Half | Race::FiveK => {},
            _ => {
                return Err(ConfigError::RaceUnavailable { event: opt.event, race: opt.race });
            },
        }
        Ok(Params { event_id: 34346, second_id: 729962, race: opt.race, year: opt.year })
    }

    /// Leadville Trail 100: the full distance only.
    pub fn new_lt100(opt: Opt) -> (r: Result<Params, ConfigError>)
        ensures
            r == spec_listing(Event::Lt100, opt),
    {
        match opt.race {
            Race::Full => {},
            _ => {
                return Err(ConfigError::RaceUnavailable { event: opt.event, race: opt.race });
            },
        }
        Ok(Params { event_id: 33913, second_id: 1064640, race: opt.race, year: opt.year })
    }

    /// Duke City Marathon: 2022 to 2024; full, half, 10k and 5k.
    pub fn new_dcm(opt: Opt) -> (r: Result<Params, ConfigError>)
        ensures
            r == spec_listing(Event::DukeCityMarathon, opt),
    {
        if opt.year.0 != 2022 && opt.year.0 != 2023 && opt.year.0 != 2024 {
            return Err(
                ConfigError::YearUnavailable {
                    site: Site::Athlinks,
                    event: opt.event,
                    year: opt.year,
                    problem: YearProblem::NotCollected,
                },
            );
        }
        match opt.race {
            Race::Full | Race::Half | Race::FiveK | Race::TenK => {},
            _ => {
                return Err(ConfigError::RaceUnavailable { event: opt.event, race: opt.race });
            },
        }
        Ok(Params { event_id: 35398, second_id: 1032202, race: opt.race, year: opt.year })
    }

    /// Corrales Ditch Run: 2023; half, 10k and 5k.
    pub fn new_cdr(opt: Opt) -> (r: Result<Params, ConfigError>)
        ensures
            r == spec_listing(Event::CorralesDitchRun, opt),
    {
        if opt.year.0 != 2023 {
            return Err(
                ConfigError::YearUnavailable {
                    site: Site::Athlinks,
                    event: opt.event,
                    year: opt.year,
                    problem: YearProblem::NotCollected,
                },
            );
        }
        match opt.race {
            Race::TenK | Race::Half | Race::FiveK => {},
            _ => {
                return Err(ConfigError::RaceUnavailable { event: opt.event, race: opt.race });
            },
        }
        Ok(Params { event_id: 6398, second_id: 1079194, race: opt.race, year: opt.year })
    }

    /// King of the Hill: 5k, 10k, 10k ruck and half.
    pub fn new_koth(opt: Opt) -> (r: Result<Params, ConfigError>)
        ensures
            r == spec_listing(Event::KotH, opt),
    {
        match opt.race {
            Race::FiveK | Race::TenK | Race::TenKRuck | Race::Half => {},
            _ => {
                return Err(ConfigError::RaceUnavailable { event: opt.event, race: opt.race });
            },
        }
        Ok(Params { event_id: 166931, second_id: 1064112, race: opt.race, year: opt.year })
    }

    /// Rio Grande: 5k and half.
    pub fn new_rio_grande(opt: Opt) -> (r: Result<Params, ConfigError>)
        ensures
            r == spec_listing(Event::RioGrande, opt),
    {
        match opt.race {
            Race::FiveK | Race::Half => {},
            _ => {
                return Err(ConfigError::RaceUnavailable { event: opt.event, race: opt.race });
            },
        }
        Ok(Params { event_id: 11260, second_id: 1040305, race: opt.race, year: opt.year })
    }

    /// Doggie Dash: the 5k only.
    pub fn new_doggie_dash(opt: Opt) -> (r: Result<Params, ConfigError>)
        ensures
            r == spec_listing(Event::DoggieDash, opt),
    {
        match opt.race {
            Race::FiveK => {},
            _ => {
                return Err(ConfigError::RaceUnavailable { event: opt.event, race: opt.race });
            },
        }
        Ok(Params { event_id: 68104, second_id: 1094706, race: opt.race, year: opt.year })
    }

    /// Rio Del Lago: the full distance only.
    pub fn new_rdl(opt: Opt) -> (r: Result<Params, ConfigError>)
        ensures
            r == spec_listing(Event::RioDelLago, opt),
    {
        match opt.race {
            Race::Full => {},
            _ => {
                return Err(ConfigError::RaceUnavailable { event: opt.event, race: opt.race });
            },
        }
        Ok(Params { event_id: 63638, second_id: 991871, race: opt.race, year: opt.year })
    }

    /// The address of the listing.
    pub open spec fn spec_url(self) -> Seq<char> {
        "https://www.athlinks.com/event/"@ + decimal(self.event_id as nat) + "/results/Event/"@
            + decimal(self.second_id as nat) + "/Results"@
    }

    /// The address of the listing.
    pub fn url(&self) -> (s: String)
        ensures
            s@ == self.spec_url(),
    {
        let mut out: Vec<char> = Vec::new();
        push_str(&mut out, "https://www.athlinks.com/event/");
        push_decimal(&mut out, self.event_id as u64);
        push_str(&mut out, "/results/Event/");
        push_decimal(&mut out, self.second_id as u64);
        push_str(&mut out, "/Results");
        assert(out@ =~= self.spec_url());
        string_of(out.as_slice())
    }

    /// The filter step that picks the year: the event date whose text holds the
    /// year.
    pub fn year_filter(&self) -> (step: FilterStep)
        ensures
            step.selector@ == "#eventDate"@,
            texts(step.labels@) == seq![decimal(self.year.0 as nat)],
            step.mode == Match::Contains,
    {
        let mut digits: Vec<char> = Vec::new();
        push_decimal(&mut digits, self.year.0 as u64);
        assert(digits@ =~= decimal(self.year.0 as nat));
        let mut labels: Vec<String> = Vec::new();
        labels.push(string_of(digits.as_slice()));
        assert(texts(labels@) =~= seq![decimal(self.year.0 as nat)]);
        FilterStep::new("#eventDate", labels, Match::Contains)
    }

    /// The filter step that picks the race: the option whose text is one of the
    /// race's labels.
    pub fn race_filter(&self) -> (step: FilterStep)
        requires
            has_labels(self.race),
        ensures
            step.selector@ == "#race"@,
            texts(step.labels@) == spec_li_text(self.race),
            step.mode == Match::Exact,
    {
        FilterStep::new("#race", li_text(self.race), Match::Exact)
    }
}

/// Whether a filter control is fixed already: whether its `class` attribute
/// marks it as disabled.
pub fn is_disabled(class: Option<&str>) -> (b: bool)
    ensures
        b == spec_has_marker(
            match class {
                Some(a) => Some(a@),
                None => None,
            },
            "Mui-disabled"@,
        ),
{
    has_marker(class, "Mui-disabled")
}

/// The most rows taken from one page.
pub const PAGE_CEILING: usize = 50;

/// Seconds to let the listing settle after a click on the next-page button.
pub const SETTLE_SECONDS: u64 = 2;

/// Whether there is a further page: whether the last button of the pager, if
/// there is one, shows the arrow that leads on.
pub fn has_next(last_button: Option<&str>) -> (b: bool)
    ensures
        b == (last_button matches Some(html) && html@ == "&gt;"@),
{
    match last_button {
        Some(html) => {
            let v = chars_of(html);
            spells(v.as_slice(), "&gt;")
        },
        None => false,
    }
}

/// Why the line of sex, age, bib and hometown could not be read.
#[derive(Clone, Copy, Debug, PartialEq, Eq, Structural)]
pub enum DetailsError {
    /// There were neither two nor three lines.
    Lines,
    /// The first line held more than two words.
    Words,
}

/// The view of each string slice.
pub open spec fn strs(pieces: Seq<&str>) -> Seq<Seq<char>> {
    Seq::new(pieces.len(), |i: int| pieces[i]@)
}

/// Sex, age, bib and hometown, from the lines under a finisher's name.
///
/// Three lines hold sex and age, the bib, and the hometown; with two lines the
/// bib is taken as missing. The first line is cut at its blanks: one word is
/// the sex, a second is the age, which counts only if it is a positive number.
/// The bib is what follows "Bib ", or nothing.
pub open spec fn spec_sex_et_al(pieces: Seq<Seq<char>>) -> Result<
    (Seq<char>, Option<u8>, Seq<char>, Seq<char>),
    DetailsError,
> {
    let three = if pieces.len() == 2 {
        seq![pieces[0], Seq::empty(), pieces[1]]
    } else {
        pieces
    };
    if three.len() != 3 {
        Err(DetailsError::Lines)
    } else {
        let words = spec_split(three[0], seq![' ']);
        if words.len() > 2 {
            Err(DetailsError::Words)
        } else {
            let age = if words.len() == 2 {
                spec_parse_positive_u8(words[1])
            } else {
                None
            };
            let bib = match spec_strip_prefix(three[1], "Bib "@) {
                Some(b) => b,
                None => Seq::empty(),
            };
            Ok((words[0], age, bib, three[2]))
        }
    }
}

fn sex_et_al(pieces: &Vec<Vec<char>>) -> (r: Result<
    (Vec<char>, Option<u8>, Vec<char>, Vec<char>),
    DetailsError,
>)
    ensures
        match r {
            Ok(v) => spec_sex_et_al(views(pieces@)) == Ok::<_, DetailsError>(
                (v.0@, v.1, v.2@, v.3@),
            ),
            Err(e) => spec_sex_et_al(views(pieces@)) == Err::<
                (Seq<char>, Option<u8>, Seq<char>, Seq<char>),
                _,
            >(e),
        },
{
    let n = pieces.len();
    if n != 2 && n != 3 {
        return Err(DetailsError::Lines);
    }
    let empty: Vec<char> = Vec::new();
    let first = &pieces[0];
    let bib_line: &Vec<char> = if n == 2 {
        &empty
    } else {
        &pieces[1]
    };
    let home: &Vec<char> = if n == 2 {
        &pieces[1]
    } else {
        &pieces[2]
    };
    let ghost three = if n == 2 {
        seq![views(pieces@)[0], Seq::empty(), views(pieces@)[1]]
    } else {
        views(pieces@)
    };
    assert(three[0] == first@ && three[1] == bib_line@ && three[2] == home@);
    let blank: [char; 1] = [' '];
    assert(blank@ =~= seq![' ']);
    let words = split(first.as_slice(), blank.as_slice());
    assert(views(words@).len() == words@.len());
    if words.len() > 2 {
        return Err(DetailsError::Words);
    }
    assert(views(words@)[0] == words@[0]@);
    let age = if words.len() == 2 {
        assert(views(words@)[1] == words@[1]@);
        parse_positive_u8(words[1].as_slice())
    } else {
        None
    };
    let prefix = chars_of("Bib ");
    let bib = match strip_prefix(bib_line.as_slice(), prefix.as_slice()) {
        Some(b) => b,
        None => Vec::new(),
    };
    Ok((words[0].clone(), age, bib, home.clone()))
}

/// Sex, age, bib and hometown, from the lines under a finisher's name.
pub fn extract_sex_et_al(pieces: &[&str]) -> (r: Result<
    (String, Option<u8>, String, String),
    DetailsError,
>)
    ensures
        match r {
            Ok(v) => spec_sex_et_al(strs(pieces@)) == Ok::<_, DetailsError>(
                (v.0@, v.1, v.2@, v.3@),
            ),
            Err(e) => spec_sex_et_al(strs(pieces@)) == Err::<
                (Seq<char>, Option<u8>, Seq<char>, Seq<char>),
                _,
            >(e),
        },
{
    let mut lines: Vec<Vec<char>> = Vec::new();
    let mut i: usize = 0;
    while i < pieces.len()
        invariant
            i <= pieces@.len(),
            lines@.len() == i,
            forall|j: int| 0 <= j < i ==> lines@[j]@ == pieces@[j]@,
        decreases pieces@.len() - i,
    {
        lines.push(chars_of(pieces[i]));
        i = i + 1;
    }
    assert(views(lines@) =~= strs(pieces@));
    match sex_et_al(&lines) {
        Ok(v) => Ok(
            (
                string_of(v.0.as_slice()),
                v.1,
                string_of(v.2.as_slice()),
                string_of(v.3.as_slice()),
            ),
        ),
        Err(e) => Err(e),
    }
}

/// What was read of one row of the listing. A part that is missing, or that
/// the browser could not read, is `None`.
pub struct Row {
    /// The text of the name element.
    pub name: Option<String>,
    /// The text under the name: sex and age, bib, hometown.
    pub details: Option<String>,
    /// The texts of the figures, in order: rank, gender rank, division rank,
    /// pace, time.
    pub cells: Vec<Option<String>>,
    /// The text of the whole row.
    pub text: Option<String>,
}

/// A row as the contracts see it.
pub struct RowView {
    pub name: Option<Seq<char>>,
    pub details: Option<Seq<char>>,
    pub cells: Seq<Option<Seq<char>>>,
    pub text: Option<Seq<char>>,
}

impl View for Row {
    type V = RowView;

    open spec fn view(&self) -> RowView {
        RowView {
            name: optional_text(self.name),
            details: optional_text(self.details),
            cells: Seq::new(self.cells@.len(), |i: int| optional_text(self.cells@[i])),
            text: optional_text(self.text),
        }
    }
}

/// One finisher.
pub struct Placement {
    pub name: String,
    pub sex: String,
    pub age: Option<u8>,
    pub bib: String,
    pub hometown: String,
    pub rank: u16,
    pub gender_rank: Option<u16>,
    pub division_rank: u16,
    pub pace: Duration,
    pub time: Duration,
}

/// A finisher as the contracts see one.
pub struct PlacementView {
    pub name: Seq<char>,
    pub sex: Seq<char>,
    pub age: Option<u8>,
    pub bib: Seq<char>,
    pub hometown: Seq<char>,
    pub rank: u16,
    pub gender_rank: Option<u16>,
    pub division_rank: u16,
    pub pace: nat,
    pub time: nat,
}

impl View for Placement {
    type V = PlacementView;

    open spec fn view(&self) -> PlacementView {
        PlacementView {
            name: self.name@,
            sex: self.sex@,
            age: self.age,
            bib: self.bib@,
            hometown: self.hometown@,
            rank: self.rank,
            gender_rank: self.gender_rank,
            division_rank: self.division_rank,
            pace: self.pace.seconds as nat,
            time: self.time.seconds as nat,
        }
    }
}

/// The rule that a row failed.
#[derive(Clone, Copy, Debug, PartialEq, Eq, Structural)]
pub enum Rule {
    Name,
    Details,
    Rank,
    GenderRank,
    DivisionRank,
    Pace,
    Time,
}

/// The text of figure `i`, if the row has it and it could be read.
pub open spec fn figure(cells: Seq<Option<Seq<char>>>, i: int) -> Option<Seq<char>> {
    if 0 <= i < cells.len() {
        cells[i]
    } else {
        None
    }
}

/// The finisher that a row describes, or the first rule that the row fails.
///
/// Required are the name, the details, and the figures for rank, division
/// rank, pace and time; ranks are positive numbers, pace and time are times, the
/// pace being the first line of its figure. The gender rank must be there but
/// need not be a number.
pub open spec fn spec_placement(row: RowView) -> Result<PlacementView, Rule> {
    if row.name is None {
        Err(Rule::Name)
    } else if row.details is None || spec_sex_et_al(spec_lines(row.details->0)) is Err {
        Err(Rule::Details)
    } else if figure(row.cells, 0) is None || spec_parse_positive_u16(figure(row.cells, 0)->0)
        is None {
        Err(Rule::Rank)
    } else if figure(row.cells, 1) is None {
        Err(Rule::GenderRank)
    } else if figure(row.cells, 2) is None || spec_parse_positive_u16(figure(row.cells, 2)->0)
        is None {
        Err(Rule::DivisionRank)
    } else if figure(row.cells, 3) is None || spec_parse(spec_first_line(figure(row.cells, 3)->0))
        is None {
        Err(Rule::Pace)
    } else if figure(row.cells, 4) is None || spec_parse(figure(row.cells, 4)->0) is None {
        Err(Rule::Time)
    } else {
        let d = spec_sex_et_al(spec_lines(row.details->0))->Ok_0;
        Ok(
            PlacementView {
                name: row.name->0,
                sex: d.0,
                age: d.1,
                bib: d.2,
                hometown: d.3,
                rank: spec_parse_positive_u16(figure(row.cells, 0)->0)->0,
                gender_rank: spec_parse_positive_u16(figure(row.cells, 1)->0),
                division_rank: spec_parse_positive_u16(figure(row.cells, 2)->0)->0,
                pace: spec_parse(spec_first_line(figure(row.cells, 3)->0))->0,
                time: spec_parse(figure(row.cells, 4)->0)->0,
            },
        )
    }
}

fn figure_chars(cells: &Vec<Option<String>>, i: usize) -> (r: Option<Vec<char>>)
    ensures
        match r {
            Some(v) => figure(Seq::new(cells@.len(), |k: int| optional_text(cells@[k])), i as int)
                == Some(v@),
            None => figure(Seq::new(cells@.len(), |k: int| optional_text(cells@[k])), i as int)
                is None,
        },
{
    if i < cells.len() {
        match &cells[i] {
            Some(s) => Some(chars_of(s.as_str())),
            None => None,
        }
    } else {
        None
    }
}

impl Placement {
    /// Reads a finisher from a row.
    pub fn from_row(row: &Row) -> (r: Result<Placement, Rule>)
        ensures
            match r {
                Ok(p) => spec_placement(row@) == Ok::<_, Rule>(p@),
                Err(rule) => spec_placement(row@) == Err::<PlacementView, _>(rule),
            },
            r matches Ok(p) ==> p.rank > 0 && p.division_rank > 0,
    {
        let name = match &row.name {
            Some(n) => n.clone(),
            None => {
                return Err(Rule::Name);
            },
        };
        let details = match &row.details {
            Some(d) => chars_of(d.as_str()),
            None => {
                return Err(Rule::Details);
            },
        };
        let detail_lines = lines(details.as_slice());
        let (sex, age, bib, hometown) = match sex_et_al(&detail_lines) {
            Ok(v) => v,
            Err(_) => {
                return Err(Rule::Details);
            },
        };
        let rank = match figure_chars(&row.cells, 0) {
            Some(t) => match parse_positive_u16(t.as_slice()) {
                Some(v) => v,
                None => {
                    return Err(Rule::Rank);
                },
            },
            None => {
                return Err(Rule::Rank);
            },
        };
        let gender_rank = match figure_chars(&row.cells, 1) {
            Some(t) => parse_positive_u16(t.as_slice()),
            None => {
                return Err(Rule::GenderRank);
            },
        };
        let division_rank = match figure_chars(&row.cells, 2) {
            Some(t) => match parse_positive_u16(t.as_slice()) {
                Some(v) => v,
                None => {
                    return Err(Rule::DivisionRank);
                },
            },
            None => {
                return Err(Rule::DivisionRank);
            },
        };
        let pace = match figure_chars(&row.cells, 3) {
            Some(t) => {
                let pace_lines = lines(t.as_slice());
                assert(views(pace_lines@).first() == pace_lines@[0]@);
                match Duration::parse_chars(pace_lines[0].as_slice()) {
                    Some(v) => v,
                    None => {
                        return Err(Rule::Pace);
                    },
                }
            },
            None => {
                return Err(Rule::Pace);
            },
        };
        let time = match figure_chars(&row.cells, 4) {
            Some(t) => match Duration::parse_chars(t.as_slice()) {
                Some(v) => v,
                None => {
                    return Err(Rule::Time);
                },
            },
            None => {
                return Err(Rule::Time);
            },
        };
        Ok(
            Placement {
                name,
                sex: string_of(sex.as_slice()),
                age,
                bib: string_of(bib.as_slice()),
                hometown: string_of(hometown.as_slice()),
                rank,
                gender_rank,
                division_rank,
                pace,
                time,
            },
        )
    }
}

/// What becomes of a row: discarded in silence if its text ends in a marker,
/// else a record if it meets every rule, else discarded with a diagnostic.
pub open spec fn spec_outcome(row: RowView) -> RowOutcome<PlacementView, DiagnosticView<Rule>> {
    if row.text is Some && ends_in_sentinel(row.text->0) {
        RowOutcome::Silent
    } else {
        match spec_placement(row) {
            Ok(p) => RowOutcome::Record(p),
            Err(rule) => RowOutcome::Reported(DiagnosticView { text: row.text, rule }),
        }
    }
}

/// The view of a finisher.
pub open spec fn placement_view() -> spec_fn(Placement) -> PlacementView {
    |p: Placement| p@
}

/// Extracts one row.
pub fn row_outcome(row: &Row) -> (r: RowOutcome<Placement, Diagnostic<Rule>>)
    ensures
        map_outcome(r, placement_view(), diagnostic_view::<Rule>()) == spec_outcome(row@),
{
    let silent = match &row.text {
        Some(t) => has_sentinel(t.as_str()),
        None => false,
    };
    if silent {
        return RowOutcome::Silent;
    }
    match Placement::from_row(row) {
        Ok(p) => RowOutcome::Record(p),
        Err(rule) => RowOutcome::Reported(Diagnostic { text: row.text.clone(), rule }),
    }
}

/// The outcomes of the rows of a page, up to the ceiling.
pub open spec fn page_outcomes(rows: Seq<Row>) -> Seq<
    RowOutcome<PlacementView, DiagnosticView<Rule>>,
> {
    Seq::new(
        if rows.len() <= PAGE_CEILING {
            rows.len()
        } else {
            PAGE_CEILING as nat
        },
        |i: int| spec_outcome(rows[i]@),
    )
}

/// Extracts a page: each of its rows up to the ceiling, in order. The batch
/// holds the finishers and the diagnostics, both in row order.
pub fn extract_page(rows: &Vec<Row>) -> (batch: PageBatch<Placement, Diagnostic<Rule>>)
    ensures
        batch.records@.map_values(placement_view()) == records_of(page_outcomes(rows@)),
        batch.diagnostics@.map_values(diagnostic_view::<Rule>()) == diagnostics_of(
            page_outcomes(rows@),
        ),
{
    let n = if rows.len() <= PAGE_CEILING {
        rows.len()
    } else {
        PAGE_CEILING
    };
    let mut outcomes: Vec<RowOutcome<Placement, Diagnostic<Rule>>> = Vec::new();
    let mut i: usize = 0;
    while i < n
        invariant
            i <= n <= rows@.len(),
            outcomes@.len() == i,
            forall|j: int|
                0 <= j < i ==> map_outcome(
                    #[trigger] outcomes@[j],
                    placement_view(),
                    diagnostic_view::<Rule>(),
                ) == spec_outcome(rows@[j]@),
        decreases n - i,
    {
        outcomes.push(row_outcome(&rows[i]));
        i = i + 1;
    }
    proof {
        lemma_records_map(outcomes@, placement_view(), diagnostic_view::<Rule>());
        assert(map_outcomes(outcomes@, placement_view(), diagnostic_view::<Rule>())
            =~= page_outcomes(rows@));
    }
    assemble(outcomes)
}

/// A row whose text ends in a marker leaves no trace: no record and no
/// diagnostic, whatever else the row holds.
pub proof fn lemma_sentinel_is_silent(row: RowView)
    requires
        row.text is Some,
        ends_in_sentinel(row.text->0),
    ensures
        spec_outcome(row) is Silent,
{
}

/// A row that lacks a required part is discarded and reported; it gives no
/// record.
pub proof fn lemma_missing_field_is_reported(row: RowView)
    requires
        !(row.text is Some && ends_in_sentinel(row.text->0)),
        row.name is None || row.details is None || row.cells.len() < 5,
    ensures
        spec_outcome(row) is Reported,
{
}

} // verus!
