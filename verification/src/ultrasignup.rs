//! Results hosted by UltraSignup: one table per race, with status headings
//! between the rows of finishers. A row that cannot be read is discarded and
//! reported; the table fails only if a placement comes before any heading.

use crate::duration::{spec_parse, Duration};
use crate::filter::{copy_strings, texts};
use crate::grouper::{
    lemma_push_map, map_entry, map_groups, spec_push, Entry, Groups, PlacementBeforeStatus,
};
use crate::number::{
    decimal, parse_positive_u8, parse_u16, push_decimal, spec_parse_positive_u8, spec_parse_u16,
};
use crate::options::{ConfigError, Event, Opt, Site};
use crate::row::{ends_in_sentinel, has_sentinel};
use crate::text::{
    chars_of, is_blank, optional_text, push_str, spec_is_blank, spec_split, spells, split,
    string_of, views,
};
use vstd::prelude::*;

verus! {

/// Which UltraSignup listing to collect.
pub struct Params {
    /// The identifier of the event.
    pub did: u32,
    /// The text of the link to the year.
    pub year: String,
    /// The text of the link to the race, where the event has more than one.
    pub race: Option<String>,
}

/// The identifier of an event, if UltraSignup hosts it.
pub open spec fn listing_id(event: Event) -> Option<u32> {
    match event {
        Event::Moab240 => Some(72701u32),
        Event::JJ100 => Some(74613u32),
        Event::DPTR => Some(74837u32),
        Event::BosqueBigfoot => Some(67798u32),
        _ => None,
    }
}

/// The link to follow to the race, in the years when the event's page offers
/// several.
pub open spec fn race_link(event: Event, year: u16) -> Option<Seq<char>> {
    match event {
        Event::JJ100 => if year == 2013 || year == 2018 {
            Some("100 Miler"@)
        } else {
            None
        },
        Event::DPTR => if year == 2013 {
            Some("50 Miler"@)
        } else if year == 2020 {
            Some("53 Miler"@)
        } else {
            None
        },
        Event::BosqueBigfoot => Some("50K"@),
        _ => None,
    }
}

fn link(text: &str) -> (r: Option<String>)
    ensures
        optional_text(r) == Some(text@),
{
    let c = chars_of(text);
    Some(string_of(c.as_slice()))
}

/// A listing as the contracts see it.
pub struct ParamsView {
    pub did: u32,
    pub year: Seq<char>,
    pub race: Option<Seq<char>>,
}

impl View for Params {
    type V = ParamsView;

    open spec fn view(&self) -> ParamsView {
        ParamsView { did: self.did, year: self.year@, race: optional_text(self.race) }
    }
}

/// What a request comes to: the listing, if UltraSignup hosts the event.
pub open spec fn spec_params(opt: Opt) -> Result<ParamsView, ConfigError> {
    match listing_id(opt.event) {
        Some(did) => Ok(
            ParamsView {
                did,
                year: decimal(opt.year.0 as nat),
                race: race_link(opt.event, opt.year.0),
            },
        ),
        None => Err(ConfigError::WrongSite { site: Site::UltraSignup, event: opt.event }),
    }
}

/// A result as the contracts see it.
pub open spec fn result_view(r: Result<Params, ConfigError>) -> Result<ParamsView, ConfigError> {
    match r {
        Ok(p) => Ok(p@),
        Err(e) => Err(e),
    }
}

impl Params {
    /// The listing for a request.
    pub fn new(opt: Opt) -> (r: Result<Params, ConfigError>)
        ensures
            result_view(r) == spec_params(opt),
    {
        let y = opt.year.0;
        let mut race: Option<String> = None;
        let did: u32 = match opt.event {
            Event::Moab240 => 72701,
            Event::JJ100 => {
                if y == 2013 || y == 2018 {
                    race = link("100 Miler");
                }
                74613
            },
            Event::DPTR => {
                if y == 2013 {
                    race = link("50 Miler");
                } else if y == 2020 {
                    race = link("53 Miler");
                }
                74837
            },
            Event::BosqueBigfoot => {
                race = link("50K");
                67798
            },
            _ => {
                return Err(ConfigError::WrongSite { site: Site::UltraSignup, event: opt.event });
            },
        };
        let mut digits: Vec<char> = Vec::new();
        push_decimal(&mut digits, y as u64);
        assert(digits@ =~= decimal(y as nat));
        Ok(Params { did, year: string_of(digits.as_slice()), race })
    }

    /// The address of the event's page.
    pub fn url(&self) -> (s: String)
        ensures
            s@ == "https://ultrasignup.com/register.aspx?did="@ + decimal(self.did as nat),
    {
        let mut out: Vec<char> = Vec::new();
        push_str(&mut out, "https://ultrasignup.com/register.aspx?did=");
        push_decimal(&mut out, self.did as u64);
        assert(out@ =~= "https://ultrasignup.com/register.aspx?did="@ + decimal(self.did as nat));
        string_of(out.as_slice())
    }
}

/// Seconds to let the table settle after the links were followed.
pub const SETTLE_SECONDS: u64 = 3;

/// Why no link could be followed.
#[derive(Clone, Copy, Debug, PartialEq, Eq, Structural)]
pub enum LinkError {
    /// The text of a link could not be read.
    Unreadable,
    /// No link has the text.
    NotFound,
}

/// The search stops at link `i`: its text is the one looked for, or could not
/// be read.
pub open spec fn stops_at(links: Seq<Option<Seq<char>>>, value: Seq<char>, i: int) -> bool {
    links[i] is None || links[i] == Some(value)
}

/// Link `i` is the first at which the search stops.
pub open spec fn first_stop(links: Seq<Option<Seq<char>>>, value: Seq<char>, i: int) -> bool {
    &&& 0 <= i < links.len()
    &&& stops_at(links, value, i)
    &&& forall|j: int| 0 <= j < i ==> !stops_at(links, value, j)
}

/// Finds the link to click: the first whose text is exactly `value`. A link
/// whose text cannot be read ends the search if it comes first.
pub fn find_link(links: &Vec<Option<String>>, value: &str) -> (r: Result<usize, LinkError>)
    ensures
        match r {
            Ok(i) => first_stop(crate::filter::optional_texts(links@), value@, i as int)
                && crate::filter::optional_texts(links@)[i as int] == Some(value@),
            Err(LinkError::Unreadable) => exists|i: int|
                first_stop(crate::filter::optional_texts(links@), value@, i)
                    && crate::filter::optional_texts(links@)[i] is None,
            Err(LinkError::NotFound) => forall|i: int|
                0 <= i < links@.len() ==> !stops_at(
                    crate::filter::optional_texts(links@),
                    value@,
                    i,
                ),
        },
{
    let ghost ls = crate::filter::optional_texts(links@);
    let v = chars_of(value);
    let mut i: usize = 0;
    while i < links.len()
        invariant
            i <= links@.len(),
            ls == crate::filter::optional_texts(links@),
            v@ == value@,
            forall|j: int| 0 <= j < i ==> !stops_at(ls, value@, j),
        decreases links@.len() - i,
    {
        match &links[i] {
            None => {
                assert(first_stop(ls, value@, i as int));
                return Err(LinkError::Unreadable);
            },
            Some(text) => {
                let t = chars_of(text.as_str());
                if crate::text::same(t.as_slice(), v.as_slice()) {
                    return Ok(i);
                }
            },
        }
        i = i + 1;
    }
    Err(LinkError::NotFound)
}

/// How the people under a heading ended their race.
#[derive(Clone, Copy, Debug, PartialEq, Eq, Structural)]
pub enum Status {
    Finishers,
    DidNotFinish,
    DidNotStart,
    Disqualified,
    UnofficialFinish,
}

/// The text is not the name of a status.
#[derive(Clone, Copy, Debug, PartialEq, Eq, Structural)]
pub struct UnknownStatus;

/// The status that `s` names.
pub open spec fn spec_status(s: Seq<char>) -> Result<Status, UnknownStatus> {
    if s == "Finishers"@ {
        Ok(Status::Finishers)
    } else if s == "Did Not Finish"@ {
        Ok(Status::DidNotFinish)
    } else if s == "Did Not Start"@ {
        Ok(Status::DidNotStart)
    } else if s == "Disqualified"@ {
        Ok(Status::Disqualified)
    } else if s == "Unofficial Finish"@ {
        Ok(Status::UnofficialFinish)
    } else {
        Err(UnknownStatus)
    }
}

impl Status {
    /// Reads the name of a status from its characters.
    pub fn parse_chars(s: &[char]) -> (r: Result<Status, UnknownStatus>)
        ensures
            r == spec_status(s@),
    {
        if spells(s, "Finishers") {
            Ok(Status::Finishers)
        } else if spells(s, "Did Not Finish") {
            Ok(Status::DidNotFinish)
        } else if spells(s, "Did Not Start") {
            Ok(Status::DidNotStart)
        } else if spells(s, "Disqualified") {
            Ok(Status::Disqualified)
        } else if spells(s, "Unofficial Finish") {
            Ok(Status::UnofficialFinish)
        } else {
            Err(UnknownStatus)
        }
    }

    /// Reads the name of a status.
    pub fn parse(s: &str) -> (r: Result<Status, UnknownStatus>)
        ensures
            r == spec_status(s@),
    {
        let v = chars_of(s);
        Status::parse_chars(v.as_slice())
    }

    /// The number the site gives the status.
    pub fn code(&self) -> (c: u8)
        ensures
            c == match *self {
                Status::Finishers => 1u8,
                Status::DidNotFinish => 2u8,
                Status::DidNotStart => 3u8,
                Status::Disqualified => 5u8,
                Status::UnofficialFinish => 6u8,
            },
    {
        match self {
            Status::Finishers => 1,
            Status::DidNotFinish => 2,
            Status::DidNotStart => 3,
            Status::Disqualified => 5,
            Status::UnofficialFinish => 6,
        }
    }
}

/// A status heading: the status and how many rows the site announces under it.
#[derive(Clone, Copy, Debug, PartialEq, Eq, Structural)]
pub struct StatusWithCount {
    pub status: Status,
    pub count: u16,
}

/// Why a text is no status heading.
#[derive(Clone, Copy, Debug, PartialEq, Eq, Structural)]
pub enum ParseStatusWithCountError {
    /// The text is not two pieces around " - ".
    WrongNumberOfPieces,
    /// The first piece names no status.
    NotStatus,
    /// The second piece is no count.
    BadCount,
}

/// The heading that `s` spells: a status, " - ", and a count.
pub open spec fn spec_status_with_count(s: Seq<char>) -> Result<
    StatusWithCount,
    ParseStatusWithCountError,
> {
    let pieces = spec_split(s, " - "@);
    if pieces.len() != 2 {
        Err(ParseStatusWithCountError::WrongNumberOfPieces)
    } else {
        match (spec_status(pieces[0]), spec_parse_u16(pieces[1])) {
            (Err(_), _) => Err(ParseStatusWithCountError::NotStatus),
            (_, None) => Err(ParseStatusWithCountError::BadCount),
            (Ok(status), Some(count)) => Ok(StatusWithCount { status, count }),
        }
    }
}

impl StatusWithCount {
    /// Reads a status heading from its characters.
    pub fn parse_chars(s: &[char]) -> (r: Result<StatusWithCount, ParseStatusWithCountError>)
        ensures
            r == spec_status_with_count(s@),
    {
        let sep = chars_of(" - ");
        proof {
            reveal_strlit(" - ");
        }
        let pieces = split(s, sep.as_slice());
        assert(views(pieces@).len() == pieces@.len());
        if pieces.len() != 2 {
            return Err(ParseStatusWithCountError::WrongNumberOfPieces);
        }
        assert(views(pieces@)[0] == pieces@[0]@);
        assert(views(pieces@)[1] == pieces@[1]@);
        match (Status::parse_chars(pieces[0].as_slice()), parse_u16(pieces[1].as_slice())) {
            (Err(_), _) => Err(ParseStatusWithCountError::NotStatus),
            (_, None) => Err(ParseStatusWithCountError::BadCount),
            (Ok(status), Some(count)) => Ok(StatusWithCount { status, count }),
        }
    }

    /// Reads a status heading.
    pub fn parse(s: &str) -> (r: Result<StatusWithCount, ParseStatusWithCountError>)
        ensures
            r == spec_status_with_count(s@),
    {
        let v = chars_of(s);
        StatusWithCount::parse_chars(v.as_slice())
    }
}

/// The text, unless it is blank.
pub open spec fn spec_optional_string(s: Seq<char>) -> Option<Seq<char>> {
    if spec_is_blank(s) {
        None
    } else {
        Some(s)
    }
}

/// The text, unless nothing is left of it once white space is trimmed.
pub fn optional_string(s: &str) -> (r: Option<String>)
    ensures
        optional_text(r) == spec_optional_string(s@),
{
    let v = chars_of(s);
    if is_blank(v.as_slice()) {
        None
    } else {
        Some(string_of(v.as_slice()))
    }
}

/// One finisher, or one person listed under another status.
pub struct Placement {
    pub place: u16,
    pub first: String,
    pub last: String,
    pub city: Option<String>,
    pub state: Option<String>,
    pub age: u8,
    pub gender: String,
    /// The place among those of the same gender.
    pub gp: u16,
    pub time: Duration,
    /// The site's ranking figure, as the table spells it.
    pub rank: String,
}

/// A placement as the contracts see one.
pub struct PlacementView {
    pub place: u16,
    pub first: Seq<char>,
    pub last: Seq<char>,
    pub city: Option<Seq<char>>,
    pub state: Option<Seq<char>>,
    pub age: u8,
    pub gender: Seq<char>,
    pub gp: u16,
    pub time: nat,
    pub rank: Seq<char>,
}

impl View for Placement {
    type V = PlacementView;

    open spec fn view(&self) -> PlacementView {
        PlacementView {
            place: self.place,
            first: self.first@,
            last: self.last@,
            city: optional_text(self.city),
            state: optional_text(self.state),
            age: self.age,
            gender: self.gender@,
            gp: self.gp,
            time: self.time.seconds as nat,
            rank: self.rank@,
        }
    }
}

/// A row of the table: a status heading or a placement.
pub type PlacementOrStatus = Entry<StatusWithCount, Placement>;

/// The statuses with the placements under each.
pub type StatusesWithPlacements = Groups<StatusWithCount, Placement>;

/// Why a row of the table could not be read.
#[derive(Clone, Copy, Debug, PartialEq, Eq, Structural)]
pub enum CellsError {
    /// A row of one cell is no status heading.
    NotAStatus,
    /// The time is no time.
    Time,
    /// The age is no positive number.
    Age,
    /// The place by gender is no number.
    GenderPlace,
}

/// The time in a cell: zero if the cell is blank. One known misprint of the
/// site is read as what it stands for.
pub open spec fn spec_time(cell: Seq<char>) -> Option<nat> {
    if spec_is_blank(cell) {
        Some(0nat)
    } else {
        match spec_parse(cell) {
            Some(t) => Some(t),
            None => if cell == "101:46:3"@ {
                spec_parse("101:46:03"@)
            } else {
                None
            },
        }
    }
}

/// What a row of cells is.
///
/// A single cell must be a status heading. A row of fewer than eleven cells,
/// or one whose second cell is no number, is neither heading nor placement
/// and is passed over. Any other row must be a placement: the cells are a
/// lead cell, place, first name, last name, city, state, age, gender, place by
/// gender, time and rank.
pub open spec fn spec_from_cells(v: Seq<Seq<char>>) -> Result<
    Option<Entry<StatusWithCount, PlacementView>>,
    CellsError,
> {
    if v.len() == 1 {
        match spec_status_with_count(v[0]) {
            Ok(s) => Ok(Some(Entry::Status(s))),
            Err(_) => Err(CellsError::NotAStatus),
        }
    } else if v.len() < 11 {
        Ok(None)
    } else {
        match spec_parse_u16(v[1]) {
            None => Ok(None),
            Some(place) => match spec_time(v[9]) {
                None => Err(CellsError::Time),
                Some(time) => match spec_parse_positive_u8(v[6]) {
                    None => Err(CellsError::Age),
                    Some(age) => match spec_parse_u16(v[8]) {
                        None => Err(CellsError::GenderPlace),
                        Some(gp) => Ok(
                            Some(
                                Entry::Placement(
                                    PlacementView {
                                        place,
                                        first: v[2],
                                        last: v[3],
                                        city: spec_optional_string(v[4]),
                                        state: spec_optional_string(v[5]),
                                        age,
                                        gender: v[7],
                                        gp,
                                        time,
                                        rank: v[10],
                                    },
                                ),
                            ),
                        ),
                    },
                },
            },
        }
    }
}

/// The view of a placement.
pub open spec fn placement_view() -> spec_fn(Placement) -> PlacementView {
    |p: Placement| p@
}

/// The view of a row that was read, if it is an entry.
pub open spec fn entry_view(e: Option<PlacementOrStatus>) -> Option<
    Entry<StatusWithCount, PlacementView>,
> {
    match e {
        Some(entry) => Some(map_entry(entry, placement_view())),
        None => None,
    }
}

fn time_of(cell: &[char]) -> (r: Option<Duration>)
    ensures
        r is Some <==> spec_time(cell@) is Some,
        r matches Some(d) ==> spec_time(cell@) == Some(d.seconds as nat),
{
    if is_blank(cell) {
        return Some(Duration::new(0));
    }
    match Duration::parse_chars(cell) {
        Some(d) => Some(d),
        None => if spells(cell, "101:46:3") {
            Duration::parse("101:46:03")
        } else {
            None
        },
    }
}

/// Reads a row of the table from the texts of its cells.
pub fn from_cells(v: &Vec<String>) -> (r: Result<Option<PlacementOrStatus>, CellsError>)
    ensures
        match r {
            Ok(e) => spec_from_cells(texts(v@)) == Ok::<_, CellsError>(entry_view(e)),
            Err(e) => spec_from_cells(texts(v@)) == Err::<
                Option<Entry<StatusWithCount, PlacementView>>,
                _,
            >(e),
        },
{
    let ghost t = texts(v@);
    if v.len() == 1 {
        assert(t[0] == v@[0]@);
        return match StatusWithCount::parse(v[0].as_str()) {
            Ok(s) => Ok(Some(Entry::Status(s))),
            Err(_) => Err(CellsError::NotAStatus),
        };
    }
    if v.len() < 11 {
        return Ok(None);
    }
    assert(forall|i: int| 0 <= i < 11 ==> t[i] == v@[i]@);
    let place_text = chars_of(v[1].as_str());
    let place = match parse_u16(place_text.as_slice()) {
        Some(p) => p,
        None => {
            return Ok(None);
        },
    };
    let time_text = chars_of(v[9].as_str());
    let time = match time_of(time_text.as_slice()) {
        Some(d) => d,
        None => {
            return Err(CellsError::Time);
        },
    };
    let city = optional_string(v[4].as_str());
    let state = optional_string(v[5].as_str());
    let age_text = chars_of(v[6].as_str());
    let age = match parse_positive_u8(age_text.as_slice()) {
        Some(a) => a,
        None => {
            return Err(CellsError::Age);
        },
    };
    let gp_text = chars_of(v[8].as_str());
    let gp = match parse_u16(gp_text.as_slice()) {
        Some(g) => g,
        None => {
            return Err(CellsError::GenderPlace);
        },
    };
    Ok(
        Some(
            Entry::Placement(
                Placement {
                    place,
                    first: v[2].clone(),
                    last: v[3].clone(),
                    city,
                    state,
                    age,
                    gender: v[7].clone(),
                    gp,
                    time,
                    rank: v[10].clone(),
                },
            ),
        ),
    )
}

/// What is reported of a row that was discarded: the texts of its cells and
/// the rule that it failed.
pub struct RowDiagnostic {
    pub cells: Vec<String>,
    pub rule: CellsError,
}

/// A diagnostic as the contracts see it.
pub struct RowDiagnosticView {
    pub cells: Seq<Seq<char>>,
    pub rule: CellsError,
}

impl View for RowDiagnostic {
    type V = RowDiagnosticView;

    open spec fn view(&self) -> RowDiagnosticView {
        RowDiagnosticView { cells: texts(self.cells@), rule: self.rule }
    }
}

/// The view of a diagnostic.
pub open spec fn diagnostic_view() -> spec_fn(RowDiagnostic) -> RowDiagnosticView {
    |d: RowDiagnostic| d@
}

/// What a table gives: the statuses with the placements under each, and the
/// diagnostics of the rows that were discarded, both in row order.
pub struct Collected {
    pub groups: StatusesWithPlacements,
    pub diagnostics: Vec<RowDiagnostic>,
}

/// What a table gives, as the contracts see it.
pub struct CollectedView {
    pub groups: Seq<(StatusWithCount, Seq<PlacementView>)>,
    pub diagnostics: Seq<RowDiagnosticView>,
}

impl View for Collected {
    type V = CollectedView;

    open spec fn view(&self) -> CollectedView {
        CollectedView {
            groups: map_groups(self.groups@, placement_view()),
            diagnostics: self.diagnostics@.map_values(diagnostic_view()),
        }
    }
}

/// The texts of the cells of each row.
pub open spec fn row_texts(rows: Seq<Vec<String>>) -> Seq<Seq<Seq<char>>> {
    Seq::new(rows.len(), |i: int| texts(rows[i]@))
}

/// The last cell of the row ends in a marker of a row that holds no result.
pub open spec fn is_sentinel_row(cells: Seq<Seq<char>>) -> bool {
    cells.len() > 0 && ends_in_sentinel(cells.last())
}

/// What a table comes to, its rows taken in order.
///
/// A row whose last cell ends in a marker is passed over in silence, and so is
/// a row that is neither heading nor placement. A row that fails a rule is
/// discarded and reported, and the rows after it are still read. A heading
/// opens a group and a placement joins the last group. Only a placement that
/// comes before any heading fails the table.
pub open spec fn spec_collect(rows: Seq<Seq<Seq<char>>>) -> Result<
    CollectedView,
    PlacementBeforeStatus,
>
    decreases rows.len(),
{
    if rows.len() == 0 {
        Ok(CollectedView { groups: Seq::empty(), diagnostics: Seq::empty() })
    } else {
        match spec_collect(rows.drop_last()) {
            Err(e) => Err(e),
            Ok(before) => if is_sentinel_row(rows.last()) {
                Ok(before)
            } else {
                match spec_from_cells(rows.last()) {
                    Err(rule) => Ok(
                        CollectedView {
                            groups: before.groups,
                            diagnostics: before.diagnostics.push(
                                RowDiagnosticView { cells: rows.last(), rule },
                            ),
                        },
                    ),
                    Ok(None) => Ok(before),
                    Ok(Some(entry)) => match spec_push(before.groups, entry) {
                        Some(groups) => Ok(
                            CollectedView { groups, diagnostics: before.diagnostics },
                        ),
                        None => Err(PlacementBeforeStatus),
                    },
                }
            },
        }
    }
}

/// A result as the contracts see it.
pub open spec fn collected_view(r: Result<Collected, PlacementBeforeStatus>) -> Result<
    CollectedView,
    PlacementBeforeStatus,
> {
    match r {
        Ok(c) => Ok(c@),
        Err(e) => Err(e),
    }
}

fn sentinel_row(cells: &Vec<String>) -> (b: bool)
    ensures
        b == is_sentinel_row(texts(cells@)),
{
    if cells.len() == 0 {
        return false;
    }
    assert(texts(cells@).last() == cells@[cells@.len() - 1]@);
    has_sentinel(cells[cells.len() - 1].as_str())
}

/// Collects a table from the cell texts of its rows.
pub fn collect(rows: &Vec<Vec<String>>) -> (r: Result<Collected, PlacementBeforeStatus>)
    ensures
        collected_view(r) == spec_collect(row_texts(rows@)),
{
    let ghost all = row_texts(rows@);
    let mut groups: StatusesWithPlacements = Groups::new();
    let mut diagnostics: Vec<RowDiagnostic> = Vec::new();
    assert(map_groups(groups@, placement_view()) =~= Seq::<
        (StatusWithCount, Seq<PlacementView>),
    >::empty());
    assert(diagnostics@.map_values(diagnostic_view()) =~= Seq::<RowDiagnosticView>::empty());
    let mut i: usize = 0;
    while i < rows.len()
        invariant
            i <= rows@.len(),
            all == row_texts(rows@),
            spec_collect(all.take(i as int)) == Ok::<_, PlacementBeforeStatus>(
                CollectedView {
                    groups: map_groups(groups@, placement_view()),
                    diagnostics: diagnostics@.map_values(diagnostic_view()),
                },
            ),
        decreases rows@.len() - i,
    {
        proof {
            assert(all.take(i + 1).drop_last() =~= all.take(i as int));
            assert(all.take(i + 1).last() == texts(rows@[i as int]@));
        }
        let ghost before = groups@;
        let ghost reported = diagnostics@;
        if !sentinel_row(&rows[i]) {
            match from_cells(&rows[i]) {
                Err(rule) => {
                    let d = RowDiagnostic { cells: copy_strings(&rows[i]), rule };
                    diagnostics.push(d);
                    assert(diagnostics@.map_values(diagnostic_view()) =~= reported.map_values(
                        diagnostic_view(),
                    ).push(d@));
                },
                Ok(None) => {},
                Ok(Some(entry)) => {
                    proof {
                        lemma_push_map(before, entry, placement_view());
                    }
                    match groups.push(entry) {
                        Ok(()) => {},
                        Err(e) => {
                            proof {
                                lemma_collect_fails(all, i + 1);
                            }
                            return Err(e);
                        },
                    }
                },
            }
        }
        i = i + 1;
    }
    assert(all.take(rows@.len() as int) =~= all);
    Ok(Collected { groups, diagnostics })
}

/// A table fails as soon as one of its leading runs of rows fails.
pub proof fn lemma_collect_fails(rows: Seq<Seq<Seq<char>>>, k: int)
    requires
        0 <= k <= rows.len(),
        spec_collect(rows.take(k)) is Err,
    ensures
        spec_collect(rows) is Err,
    decreases rows.len() - k,
{
    if k == rows.len() {
        assert(rows.take(k) =~= rows);
    } else {
        assert(rows.take(k + 1).drop_last() =~= rows.take(k));
        lemma_collect_fails(rows, k + 1);
    }
}

/// A row that fails a rule costs the table nothing but that row: the groups
/// are those of the table without it, and it adds one diagnostic.
pub proof fn lemma_failed_row_is_reported(rows: Seq<Seq<Seq<char>>>, cells: Seq<Seq<char>>)
    requires
        spec_collect(rows) is Ok,
        !is_sentinel_row(cells),
        spec_from_cells(cells) is Err,
    ensures
        spec_collect(rows.push(cells)) is Ok,
        spec_collect(rows.push(cells))->Ok_0.groups == spec_collect(rows)->Ok_0.groups,
        spec_collect(rows.push(cells))->Ok_0.diagnostics == spec_collect(
            rows,
        )->Ok_0.diagnostics.push(
            RowDiagnosticView { cells, rule: spec_from_cells(cells)->Err_0 },
        ),
{
    assert(rows.push(cells).drop_last() =~= rows);
    assert(rows.push(cells).last() == cells);
}

/// A row whose last cell ends in a marker leaves no trace.
pub proof fn lemma_sentinel_is_silent(rows: Seq<Seq<Seq<char>>>, cells: Seq<Seq<char>>)
    requires
        is_sentinel_row(cells),
    ensures
        spec_collect(rows.push(cells)) == spec_collect(rows),
{
    assert(rows.push(cells).drop_last() =~= rows);
    assert(rows.push(cells).last() == cells);
}

} // verus!
