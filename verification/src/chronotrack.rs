//! Results hosted by ChronoTrack: a table read from the page source, a
//! hundred rows to a page, the race chosen from a drop-down list.

use crate::duration::{spec_parse, Duration};
use crate::filter::{has_marker, spec_has_marker};
use crate::number::{
    parse_positive_u16, parse_u8, spec_parse_positive_u16, spec_parse_u8,
};
use crate::options::{ConfigError, Opt, Race, Site, Year, YearProblem};
use crate::row::{
    assemble, diagnostic_view, diagnostics_of, ends_in_sentinel, has_sentinel_chars,
    lemma_records_map, map_outcome, map_outcomes, records_of, Diagnostic, DiagnosticView,
    PageBatch, RowOutcome,
};
use crate::scan::{
    as_int, expect, markup_text, past, skip_space, spec_expect, spec_markup_text, spec_past,
    spec_skip_space, spec_until, until,
};
use crate::text::{chars_of, push_str, slice_of, string_of};
use vstd::prelude::*;

verus! {

/// The identifier of the Shiprock Marathon's listing for a year.
pub open spec fn spec_url_for_year(year: Year) -> Result<Seq<char>, YearProblem> {
    if year.0 == 2017 {
        Ok("24236"@)
    } else if year.0 == 2018 {
        Ok("33304"@)
    } else if year.0 == 2019 {
        Ok("40479"@)
    } else if year.0 == 2020 || year.0 == 2021 {
        Err(YearProblem::Virtual)
    } else if year.0 >= 2022 {
        Err(YearProblem::Offline)
    } else {
        Err(YearProblem::TooEarly)
    }
}

/// The identifier of the listing for a year.
pub fn url_for_year(year: &Year) -> (r: Result<&'static str, YearProblem>)
    ensures
        match r {
            Ok(id) => spec_url_for_year(*year) == Ok::<_, YearProblem>(id@),
            Err(e) => spec_url_for_year(*year) == Err::<Seq<char>, _>(e),
        },
{
    let y = year.0;
    if y == 2017 {
        Ok("24236")
    } else if y == 2018 {
        Ok("33304")
    } else if y == 2019 {
        Ok("40479")
    } else if y == 2020 || y == 2021 {
        Err(YearProblem::Virtual)
    } else if y >= 2022 {
        Err(YearProblem::Offline)
    } else {
        Err(YearProblem::TooEarly)
    }
}

/// The name of a race in the race list, if the list has the race.
pub open spec fn spec_menu_item(race: Race) -> Option<Seq<char>> {
    match race {
        Race::Full => Some("Shiprock Marathon"@),
        Race::Half => Some("Shiprock Half Marathon"@),
        Race::Relay => Some("Shiprock Marathon Relay"@),
        Race::TenK => Some("Shiprock 10k"@),
        Race::FiveK => Some("Shiprock 5k"@),
        Race::Handcycle => Some("Shiprock Marathon Handcycle"@),
        Race::TenKRuck => None,
        Race::SoloMaleHeavy => None,
    }
}

/// The name of a race in the race list.
pub fn menu_item_for(race: &Race) -> (r: Option<&'static str>)
    ensures
        match r {
            Some(item) => spec_menu_item(*race) == Some(item@),
            None => spec_menu_item(*race) is None,
        },
{
    match race {
        Race::Full => Some("Shiprock Marathon"),
        Race::Half => Some("Shiprock Half Marathon"),
        Race::Relay => Some("Shiprock Marathon Relay"),
        Race::TenK => Some("Shiprock 10k"),
        Race::FiveK => Some("Shiprock 5k"),
        Race::Handcycle => Some("Shiprock Marathon Handcycle"),
        Race::TenKRuck => None,
        Race::SoloMaleHeavy => None,
    }
}

/// Which listing to collect.
pub struct Params {
    pub year: Year,
    pub menu_item: &'static str,
}

/// A listing as the contracts see it.
pub struct ParamsView {
    pub year: Year,
    pub menu_item: Seq<char>,
}

impl View for Params {
    type V = ParamsView;

    open spec fn view(&self) -> ParamsView {
        ParamsView { year: self.year, menu_item: self.menu_item@ }
    }
}

/// What a request comes to: the listing, if the year is on the site and the
/// race in the list. The year is checked first.
pub open spec fn spec_params(opt: Opt) -> Result<ParamsView, ConfigError> {
    if spec_url_for_year(opt.year) is Err {
        Err(
            ConfigError::YearUnavailable {
                site: Site::Chronotrack,
                event: opt.event,
                year: opt.year,
                problem: spec_url_for_year(opt.year)->Err_0,
            },
        )
    } else {
        match spec_menu_item(opt.race) {
            Some(menu_item) => Ok(ParamsView { year: opt.year, menu_item }),
            None => Err(ConfigError::RaceUnavailable { event: opt.event, race: opt.race }),
        }
    }
}

/// A result as the contracts see it.
pub open spec fn result_view(r: Result<Params, ConfigError>) -> Result<ParamsView, ConfigError> {
    match r {
        Ok(p) => Ok(p@),
        Err(e) => Err(e),
    }
}

impl Params {
    /// The listing for a request.
    pub fn new(opt: Opt) -> (r: Result<Params, ConfigError>)
        ensures
            result_view(r) == spec_params(opt),
    {
        let year = opt.year;
        if let Err(problem) = url_for_year(&year) {
            return Err(
                ConfigError::YearUnavailable {
                    site: Site::Chronotrack,
                    event: opt.event,
                    year,
                    problem,
                },
            );
        }
        match menu_item_for(&opt.race) {
            Some(menu_item) => Ok(Params { year, menu_item }),
            None => Err(ConfigError::RaceUnavailable { event: opt.event, race: opt.race }),
        }
    }

    /// The address of the listing.
    pub fn url(&self) -> (s: String)
        requires
            spec_url_for_year(self.year) is Ok,
        ensures
            s@ == "https://results.chronotrack.com/event/results/event/event-"@
                + spec_url_for_year(self.year)->Ok_0,
    {
        let mut out: Vec<char> = Vec::new();
        push_str(&mut out, "https://results.chronotrack.com/event/results/event/event-");
        match url_for_year(&self.year) {
            Ok(id) => {
                push_str(&mut out, id);
            },
            Err(_) => {},
        }
        assert(out@ =~= "https://results.chronotrack.com/event/results/event/event-"@
            + spec_url_for_year(self.year)->Ok_0);
        string_of(out.as_slice())
    }
}

/// The value to select in the page-size list.
pub const ROWS_PER_PAGE: u16 = 100;

/// Whether there is a further page: whether the next-page control has a
/// `class` attribute that does not mark it as disabled.
pub fn has_next(class: Option<&str>) -> (b: bool)
    ensures
        b == (class is Some && !spec_has_marker(Some(class->0@), "ui-state-disabled"@)),
{
    match class {
        Some(c) => !has_marker(Some(c), "ui-state-disabled"),
        None => false,
    }
}

/// One option of a drop-down list, as the page source spells it.
pub struct MenuOption {
    pub value: String,
    pub selected: bool,
    pub label: String,
}

/// An option as the contracts see it.
pub struct MenuOptionView {
    pub value: Seq<char>,
    pub selected: bool,
    pub label: Seq<char>,
}

impl View for MenuOption {
    type V = MenuOptionView;

    open spec fn view(&self) -> MenuOptionView {
        MenuOptionView { value: self.value@, selected: self.selected, label: self.label@ }
    }
}

/// An option read at some position, and the position after it.
pub struct ScannedOption {
    pub option: MenuOptionView,
    pub next: int,
}

/// The option that stands at `pos`: after white space,
/// `<option value="V"`, then ` selected=""` or nothing, then `>L</option>`.
pub open spec fn spec_option(s: Seq<char>, pos: int) -> Option<ScannedOption> {
    let p0 = spec_skip_space(s, pos);
    let p1 = spec_expect(s, p0, "<option value=\""@);
    if p1 is None {
        None
    } else {
        let q = spec_until(s, p1->0, "\""@);
        if q is None {
            None
        } else {
            let p2 = q->0 + 1;
            let p3 = spec_skip_space(s, p2);
            let mark = spec_expect(s, p3, "selected=\"\""@);
            let selected = p3 > p2 && mark is Some;
            let p4 = if selected {
                mark->0
            } else {
                p2
            };
            let p5 = spec_expect(s, p4, ">"@);
            if p5 is None {
                None
            } else {
                let e = spec_until(s, p5->0, "</option>"@);
                if e is None {
                    None
                } else {
                    Some(
                        ScannedOption {
                            option: MenuOptionView {
                                value: s.subrange(p1->0, q->0),
                                selected,
                                label: s.subrange(p5->0, e->0),
                            },
                            next: e->0 + 9,
                        },
                    )
                }
            }
        }
    }
}

/// The options that fill the text from `pos` to its end, with nothing
/// between or after them.
pub open spec fn spec_options(s: Seq<char>, pos: int) -> Option<Seq<MenuOptionView>>
    decreases s.len() - pos,
{
    match spec_option(s, pos) {
        None => if pos == s.len() {
            Some(Seq::empty())
        } else {
            None
        },
        Some(scanned) => if pos < scanned.next <= s.len() {
            match spec_options(s, scanned.next) {
                Some(rest) => Some(seq![scanned.option] + rest),
                None => None,
            }
        } else {
            None
        },
    }
}

/// The options of a drop-down list whose markup is `s`: one or more options and
/// nothing else.
pub open spec fn spec_menu(s: Seq<char>) -> Option<Seq<MenuOptionView>> {
    match spec_options(s, 0) {
        Some(options) => if options.len() > 0 {
            Some(options)
        } else {
            None
        },
        None => None,
    }
}

/// Reads the option that stands at `pos`.
pub fn option(s: &[char], pos: usize) -> (r: Option<(MenuOption, usize)>)
    requires
        pos <= s@.len(),
    ensures
        match r {
            Some(v) => spec_option(s@, pos as int) == Some(
                ScannedOption { option: v.0@, next: v.1 as int },
            ) && pos < v.1 <= s@.len(),
            None => spec_option(s@, pos as int) is None,
        },
{
    proof {
        reveal_strlit("<option value=\"");
        reveal_strlit("\"");
        reveal_strlit("selected=\"\"");
        reveal_strlit(">");
        reveal_strlit("</option>");
    }
    let open = chars_of("<option value=\"");
    let quote = chars_of("\"");
    let mark = chars_of("selected=\"\"");
    let gt = chars_of(">");
    let close = chars_of("</option>");
    let len = s.len();
    let p0 = skip_space(s, pos);
    let p1 = match expect(s, p0, open.as_slice()) {
        Some(p) => p,
        None => {
            return None;
        },
    };
    let q = match until(s, p1, quote.as_slice()) {
        Some(p) => p,
        None => {
            return None;
        },
    };
    let p2 = q + 1;
    let p3 = skip_space(s, p2);
    let marked = expect(s, p3, mark.as_slice());
    let selected = p3 > p2 && marked.is_some();
    let p4 = match marked {
        Some(m) => if selected {
            m
        } else {
            p2
        },
        None => p2,
    };
    let p5 = match expect(s, p4, gt.as_slice()) {
        Some(p) => p,
        None => {
            return None;
        },
    };
    let e = match until(s, p5, close.as_slice()) {
        Some(p) => p,
        None => {
            return None;
        },
    };
    let value = slice_of(s, p1, q);
    let label = slice_of(s, p5, e);
    Some(
        (
            MenuOption {
                value: string_of(value.as_slice()),
                selected,
                label: string_of(label.as_slice()),
            },
            e + 9,
        ),
    )
}

/// The view of each option.
pub open spec fn option_views(options: Seq<MenuOption>) -> Seq<MenuOptionView> {
    Seq::new(options.len(), |i: int| options[i]@)
}

/// Reads the options of a drop-down list from its markup.
pub fn value_map_from_options(input: &str) -> (r: Option<Vec<MenuOption>>)
    ensures
        match r {
            Some(options) => spec_menu(input@) == Some(option_views(options@)),
            None => spec_menu(input@) is None,
        },
{
    let s = chars_of(input);
    let mut out: Vec<MenuOption> = Vec::new();
    let mut pos: usize = 0;
    let ghost mut done: Seq<MenuOptionView> = Seq::empty();
    loop
        invariant
            s@ == input@,
            pos <= s@.len(),
            done == option_views(out@),
            spec_options(s@, 0) == match spec_options(s@, pos as int) {
                Some(rest) => Some(done + rest),
                None => None,
            },
        decreases s@.len() - pos,
    {
        proof {
            assert(done + Seq::<MenuOptionView>::empty() =~= done);
        }
        match option(s.as_slice(), pos) {
            None => {
                if pos == s.len() && out.len() > 0 {
                    return Some(out);
                } else {
                    return None;
                }
            },
            Some((item, next)) => {
                proof {
                    let rest = spec_options(s@, next as int);
                    if rest is Some {
                        assert(done + (seq![item@] + rest->0) =~= done.push(item@) + rest->0);
                    }
                    done = done.push(item@);
                }
                out.push(item);
                assert(option_views(out@) =~= done);
                pos = next;
            },
        }
    }
}

/// What to do about the race list.
pub enum RaceChoice {
    /// The race is selected already.
    Keep,
    /// Select the option with this value.
    Select(String),
}

/// Why the race cannot be chosen.
#[derive(Clone, Copy, Debug, PartialEq, Eq, Structural)]
pub enum MenuError {
    /// The markup of the list could not be read.
    Unreadable,
    /// The list has no option with the race's name.
    NoSuchItem,
}

/// The last option labelled `label`: where a label occurs twice, the later
/// option counts.
pub open spec fn spec_lookup(options: Seq<MenuOptionView>, label: Seq<char>) -> Option<
    MenuOptionView,
>
    decreases options.len(),
{
    if options.len() == 0 {
        None
    } else if options.last().label == label {
        Some(options.last())
    } else {
        spec_lookup(options.drop_last(), label)
    }
}

/// What choosing `menu_item` in the list with markup `html` comes to.
pub open spec fn spec_choose_the_race(html: Seq<char>, menu_item: Seq<char>) -> Result<
    Option<Seq<char>>,
    MenuError,
> {
    match spec_menu(html) {
        None => Err(MenuError::Unreadable),
        Some(options) => match spec_lookup(options, menu_item) {
            None => Err(MenuError::NoSuchItem),
            Some(option) => if option.selected {
                Ok(None)
            } else {
                Ok(Some(option.value))
            },
        },
    }
}

/// The value to select, as the contracts see the choice.
pub open spec fn choice_view(choice: RaceChoice) -> Option<Seq<char>> {
    match choice {
        RaceChoice::Keep => None,
        RaceChoice::Select(value) => Some(value@),
    }
}

/// Decides how to choose the race `menu_item` in the race list, from the
/// list's markup.
pub fn choose_the_race(html: &str, menu_item: &str) -> (r: Result<RaceChoice, MenuError>)
    ensures
        match r {
            Ok(choice) => spec_choose_the_race(html@, menu_item@) == Ok::<_, MenuError>(
                choice_view(choice),
            ),
            Err(e) => spec_choose_the_race(html@, menu_item@) == Err::<Option<Seq<char>>, _>(e),
        },
{
    let options = match value_map_from_options(html) {
        Some(o) => o,
        None => {
            return Err(MenuError::Unreadable);
        },
    };
    let ghost views = option_views(options@);
    let wanted = chars_of(menu_item);
    let mut i: usize = options.len();
    assert(views.take(i as int) =~= views);
    while i > 0
        invariant
            i <= options@.len(),
            views == option_views(options@),
            spec_menu(html@) == Some(views),
            wanted@ == menu_item@,
            spec_lookup(views, menu_item@) == spec_lookup(views.take(i as int), menu_item@),
        decreases i,
    {
        proof {
            assert(views.take(i as int).drop_last() =~= views.take(i - 1));
            assert(views.take(i as int).last() == options@[i - 1]@);
        }
        i = i - 1;
        let label = chars_of(options[i].label.as_str());
        if crate::text::same(label.as_slice(), wanted.as_slice()) {
            if options[i].selected {
                return Ok(RaceChoice::Keep);
            } else {
                return Ok(RaceChoice::Select(options[i].value.clone()));
            }
        }
    }
    Err(MenuError::NoSuchItem)
}

/// The position after the opening tag of a row: after white space, `<tr `
/// and the rest of the tag.
pub open spec fn spec_tr(s: Seq<char>, pos: int) -> Option<int> {
    match spec_expect(s, spec_skip_space(s, pos), "<tr "@) {
        Some(p) => spec_past(s, p, ">"@),
        None => None,
    }
}

/// The position after the closing tag of a row: after white space and `</tr>`.
pub open spec fn spec_close_tr(s: Seq<char>, pos: int) -> Option<int> {
    spec_expect(s, spec_skip_space(s, pos), "</tr>"@)
}

/// A cell's text and the position after the cell.
pub struct ScannedCell {
    pub text: Seq<char>,
    pub next: int,
}

/// The cell named `name` that stands at `pos`. After white space comes the
/// opening tag, whose class ends in `name`; then one more tag is skipped; the
/// text runs to the next `<`; the cell ends with the next `</td>` after that.
pub open spec fn spec_td(s: Seq<char>, pos: int, name: Seq<char>) -> Option<ScannedCell> {
    let p1 = spec_expect(s, spec_skip_space(s, pos), "<td class=\"ui-widget-content bazu-"@);
    if p1 is None {
        None
    } else {
        let p2 = spec_expect(s, p1->0, name);
        if p2 is None {
            None
        } else {
            let p3 = spec_expect(s, p2->0, "\">"@);
            if p3 is None {
                None
            } else {
                let p4 = spec_past(s, p3->0, ">"@);
                if p4 is None {
                    None
                } else {
                    let e = spec_until(s, p4->0, "<"@);
                    if e is None {
                        None
                    } else {
                        let c = spec_past(s, e->0 + 1, "</td>"@);
                        if c is None {
                            None
                        } else {
                            Some(ScannedCell { text: s.subrange(p4->0, e->0), next: c->0 })
                        }
                    }
                }
            }
        }
    }
}

/// Moves over the opening tag of a row.
pub fn tr(s: &[char], pos: usize) -> (r: Option<usize>)
    requires
        pos <= s@.len(),
    ensures
        as_int(r) == spec_tr(s@, pos as int),
        r matches Some(p) ==> pos < p <= s@.len(),
{
    proof {
        reveal_strlit("<tr ");
        reveal_strlit(">");
    }
    let open = chars_of("<tr ");
    let gt = chars_of(">");
    match expect(s, skip_space(s, pos), open.as_slice()) {
        Some(p) => past(s, p, gt.as_slice()),
        None => None,
    }
}

/// Moves over the closing tag of a row.
pub fn close_tr(s: &[char], pos: usize) -> (r: Option<usize>)
    requires
        pos <= s@.len(),
    ensures
        as_int(r) == spec_close_tr(s@, pos as int),
        r matches Some(p) ==> pos < p <= s@.len(),
{
    proof {
        reveal_strlit("</tr>");
    }
    let close = chars_of("</tr>");
    expect(s, skip_space(s, pos), close.as_slice())
}

/// Reads the cell named `name` that stands at `pos`.
pub fn td(s: &[char], pos: usize, name: &str) -> (r: Option<(Vec<char>, usize)>)
    requires
        pos <= s@.len(),
    ensures
        match r {
            Some(v) => spec_td(s@, pos as int, name@) == Some(
                ScannedCell { text: v.0@, next: v.1 as int },
            ) && pos < v.1 <= s@.len(),
            None => spec_td(s@, pos as int, name@) is None,
        },
{
    proof {
        reveal_strlit("<td class=\"ui-widget-content bazu-");
        reveal_strlit("\">");
        reveal_strlit(">");
        reveal_strlit("<");
        reveal_strlit("</td>");
    }
    let open = chars_of("<td class=\"ui-widget-content bazu-");
    let quote_gt = chars_of("\">");
    let gt = chars_of(">");
    let lt = chars_of("<");
    let close = chars_of("</td>");
    let class = chars_of(name);
    let len = s.len();
    let p1 = match expect(s, skip_space(s, pos), open.as_slice()) {
        Some(p) => p,
        None => {
            return None;
        },
    };
    let p2 = match expect(s, p1, class.as_slice()) {
        Some(p) => p,
        None => {
            return None;
        },
    };
    let p3 = match expect(s, p2, quote_gt.as_slice()) {
        Some(p) => p,
        None => {
            return None;
        },
    };
    let p4 = match past(s, p3, gt.as_slice()) {
        Some(p) => p,
        None => {
            return None;
        },
    };
    let e = match until(s, p4, lt.as_slice()) {
        Some(p) => p,
        None => {
            return None;
        },
    };
    let c = match past(s, e + 1, close.as_slice()) {
        Some(p) => p,
        None => {
            return None;
        },
    };
    Some((slice_of(s, p4, e), c))
}

/// One finisher.
pub struct Placement {
    pub rank: u16,
    pub name: String,
    pub bib: String,
    pub time: Duration,
    pub pace: Duration,
    pub hometown: String,
    pub age: Option<u8>,
    pub sex: Option<String>,
    pub division: String,
    pub division_rank: u16,
}

/// A finisher as the contracts see one.
pub struct PlacementView {
    pub rank: u16,
    pub name: Seq<char>,
    pub bib: Seq<char>,
    pub time: nat,
    pub pace: nat,
    pub hometown: Seq<char>,
    pub age: Option<u8>,
    pub sex: Option<Seq<char>>,
    pub division: Seq<char>,
    pub division_rank: u16,
}

impl View for Placement {
    type V = PlacementView;

    open spec fn view(&self) -> PlacementView {
        PlacementView {
            rank: self.rank,
            name: self.name@,
            bib: self.bib@,
            time: self.time.seconds as nat,
            pace: self.pace.seconds as nat,
            hometown: self.hometown@,
            age: self.age,
            sex: crate::text::optional_text(self.sex),
            division: self.division@,
            division_rank: self.division_rank,
        }
    }
}

/// The rule that a row failed.
#[derive(Clone, Copy, Debug, PartialEq, Eq, Structural)]
pub enum Rule {
    /// No row starts here.
    Row,
    Rank,
    Name,
    Bib,
    Time,
    Pace,
    Hometown,
    Division,
    DivisionRank,
    /// The row does not end after its last cell.
    End,
}

/// A finisher read at some position, and the position after the row.
pub struct ScannedPlacement {
    pub placement: PlacementView,
    pub next: int,
}

/// The row that stands at `pos`, or the first rule that it fails. The cells
/// come in fixed order: rank, name, bib, time, pace, hometown, then age and
/// sex, each of which may be absent, then division and division rank. Ranks
/// are positive numbers; time and pace are times. An age cell counts only if
/// it holds a number.
#[verifier::opaque]
pub open spec fn spec_placement(s: Seq<char>, pos: int) -> Result<ScannedPlacement, Rule> {
    let start = spec_tr(s, pos);
    if start is None {
        Err(Rule::Row)
    } else {
        let rank = spec_td(s, start->0, "rank"@);
        if rank is None || spec_parse_positive_u16(rank->0.text) is None {
            Err(Rule::Rank)
        } else {
            let name = spec_td(s, rank->0.next, "name"@);
            if name is None {
                Err(Rule::Name)
            } else {
                let bib = spec_td(s, name->0.next, "bib"@);
                if bib is None {
                    Err(Rule::Bib)
                } else {
                    let time = spec_td(s, bib->0.next, "time"@);
                    if time is None || spec_parse(time->0.text) is None {
                        Err(Rule::Time)
                    } else {
                        let pace = spec_td(s, time->0.next, "pace"@);
                        if pace is None || spec_parse(pace->0.text) is None {
                            Err(Rule::Pace)
                        } else {
                            let hometown = spec_td(s, pace->0.next, "hometown"@);
                            if hometown is None {
                                Err(Rule::Hometown)
                            } else {
                                spec_placement_tail(
                                    s,
                                    hometown->0.next,
                                    PlacementView {
                                        rank: spec_parse_positive_u16(rank->0.text)->0,
                                        name: name->0.text,
                                        bib: bib->0.text,
                                        time: spec_parse(time->0.text)->0,
                                        pace: spec_parse(pace->0.text)->0,
                                        hometown: hometown->0.text,
                                        age: None,
                                        sex: None,
                                        division: Seq::empty(),
                                        division_rank: 0,
                                    },
                                )
                            }
                        }
                    }
                }
            }
        }
    }
}

/// The rest of a row from the age cell on, added to what `head` holds.
pub open spec fn spec_placement_tail(s: Seq<char>, pos: int, head: PlacementView) -> Result<
    ScannedPlacement,
    Rule,
> {
    let age_cell = spec_td(s, pos, "age"@);
    let has_age = age_cell is Some && spec_parse_u8(age_cell->0.text) is Some;
    let age = if has_age {
        spec_parse_u8(age_cell->0.text)
    } else {
        None
    };
    let p1 = if has_age {
        age_cell->0.next
    } else {
        pos
    };
    let sex_cell = spec_td(s, p1, "sex"@);
    let sex = if sex_cell is Some {
        Some(sex_cell->0.text)
    } else {
        None
    };
    let p2 = if sex_cell is Some {
        sex_cell->0.next
    } else {
        p1
    };
    let division = spec_td(s, p2, "agroup"@);
    if division is None {
        Err(Rule::Division)
    } else {
        let division_rank = spec_td(s, division->0.next, "agrank"@);
        if division_rank is None || spec_parse_positive_u16(division_rank->0.text) is None {
            Err(Rule::DivisionRank)
        } else {
            let end = spec_close_tr(s, division_rank->0.next);
            if end is None {
                Err(Rule::End)
            } else {
                Ok(
                    ScannedPlacement {
                        placement: PlacementView {
                            age,
                            sex,
                            division: division->0.text,
                            division_rank: spec_parse_positive_u16(division_rank->0.text)->0,
                            ..head
                        },
                        next: end->0,
                    },
                )
            }
        }
    }
}

/// Reads the row that stands at `pos`.
pub fn placement(s: &[char], pos: usize) -> (r: Result<(Placement, usize), Rule>)
    requires
        pos <= s@.len(),
    ensures
        match r {
            Ok(v) => spec_placement(s@, pos as int) == Ok::<_, Rule>(
                ScannedPlacement { placement: v.0@, next: v.1 as int },
            ) && pos < v.1 <= s@.len(),
            Err(rule) => spec_placement(s@, pos as int) == Err::<ScannedPlacement, _>(rule),
        },
{
    reveal(spec_placement);
    let start = match tr(s, pos) {
        Some(p) => p,
        None => {
            return Err(Rule::Row);
        },
    };
    let (rank, p) = match td(s, start, "rank") {
        Some((text, next)) => match parse_positive_u16(text.as_slice()) {
            Some(v) => (v, next),
            None => {
                return Err(Rule::Rank);
            },
        },
        None => {
            return Err(Rule::Rank);
        },
    };
    let (name, p) = match td(s, p, "name") {
        Some(v) => v,
        None => {
            return Err(Rule::Name);
        },
    };
    let (bib, p) = match td(s, p, "bib") {
        Some(v) => v,
        None => {
            return Err(Rule::Bib);
        },
    };
    let (time, p) = match td(s, p, "time") {
        Some((text, next)) => match Duration::parse_chars(text.as_slice()) {
            Some(v) => (v, next),
            None => {
                return Err(Rule::Time);
            },
        },
        None => {
            return Err(Rule::Time);
        },
    };
    let (pace, p) = match td(s, p, "pace") {
        Some((text, next)) => match Duration::parse_chars(text.as_slice()) {
            Some(v) => (v, next),
            None => {
                return Err(Rule::Pace);
            },
        },
        None => {
            return Err(Rule::Pace);
        },
    };
    let (hometown, p) = match td(s, p, "hometown") {
        Some(v) => v,
        None => {
            return Err(Rule::Hometown);
        },
    };
    let (age, p) = match td(s, p, "age") {
        Some((text, next)) => match parse_u8(text.as_slice()) {
            Some(v) => (Some(v), next),
            None => (None, p),
        },
        None => (None, p),
    };
    let (sex, p) = match td(s, p, "sex") {
        Some((text, next)) => (Some(string_of(text.as_slice())), next),
        None => (None, p),
    };
    let (division, p) = match td(s, p, "agroup") {
        Some(v) => v,
        None => {
            return Err(Rule::Division);
        },
    };
    let (division_rank, p) = match td(s, p, "agrank") {
        Some((text, next)) => match parse_positive_u16(text.as_slice()) {
            Some(v) => (v, next),
            None => {
                return Err(Rule::DivisionRank);
            },
        },
        None => {
            return Err(Rule::DivisionRank);
        },
    };
    let end = match close_tr(s, p) {
        Some(e) => e,
        None => {
            return Err(Rule::End);
        },
    };
    Ok(
        (
            Placement {
                rank,
                name: string_of(name.as_slice()),
                bib: string_of(bib.as_slice()),
                time,
                pace,
                hometown: string_of(hometown.as_slice()),
                age,
                sex,
                division: string_of(division.as_slice()),
                division_rank,
            },
            end,
        ),
    )
}

/// The markup of the row that starts at `pos`: up to the end of the next
/// closing tag of a row, or to the end of the text if there is none.
pub open spec fn spec_fragment(s: Seq<char>, pos: int) -> Seq<char> {
    match spec_past(s, pos, "</tr>"@) {
        Some(e) => s.subrange(pos, e),
        None => s.subrange(pos, s.len() as int),
    }
}

/// What becomes of the row that starts at `pos`: discarded in silence if the
/// last line of its text is a marker, else a record if it meets every rule,
/// else discarded with a diagnostic that holds its markup.
pub open spec fn spec_outcome(s: Seq<char>, pos: int) -> RowOutcome<
    PlacementView,
    DiagnosticView<Rule>,
> {
    if ends_in_sentinel(spec_markup_text(spec_fragment(s, pos), false)) {
        RowOutcome::Silent
    } else {
        match spec_placement(s, pos) {
            Ok(scanned) => RowOutcome::Record(scanned.placement),
            Err(rule) => RowOutcome::Reported(
                DiagnosticView { text: Some(spec_fragment(s, pos)), rule },
            ),
        }
    }
}

/// Where the scan goes on behind the row that starts at `pos`: behind the row
/// if it gave a record, else behind the next closing tag of a row; nowhere if
/// there is none.
pub open spec fn spec_resume(s: Seq<char>, pos: int) -> Option<int> {
    match spec_outcome(s, pos) {
        RowOutcome::Record(_) => match spec_placement(s, pos) {
            Ok(scanned) => Some(scanned.next),
            Err(_) => None,
        },
        _ => spec_past(s, pos, "</tr>"@),
    }
}

/// The outcomes of the rows that follow one another from `pos` on. The scan
/// ends where no row starts.
pub open spec fn spec_rows(s: Seq<char>, pos: int) -> Seq<
    RowOutcome<PlacementView, DiagnosticView<Rule>>,
>
    decreases s.len() - pos,
{
    if spec_tr(s, pos) is None {
        Seq::empty()
    } else {
        match spec_resume(s, pos) {
            Some(next) => if pos < next <= s.len() {
                seq![spec_outcome(s, pos)] + spec_rows(s, next)
            } else {
                seq![spec_outcome(s, pos)]
            },
            None => seq![spec_outcome(s, pos)],
        }
    }
}

/// A row whose text ends in a marker leaves no trace.
pub proof fn lemma_sentinel_is_silent(s: Seq<char>, pos: int)
    requires
        ends_in_sentinel(spec_markup_text(spec_fragment(s, pos), false)),
    ensures
        spec_outcome(s, pos) is Silent,
{
}

/// The position where the rows of the result table start: behind the opening
/// tag of the table body.
pub open spec fn spec_body_start(s: Seq<char>) -> Option<int> {
    match spec_until(s, 0, "<tbody class=\"ui-widget-content\" role=\"alert\""@) {
        Some(p) => spec_past(s, p, ">"@),
        None => None,
    }
}

/// The outcomes of the rows of the page whose source is `s`, if the page has
/// a result table.
pub open spec fn spec_page(s: Seq<char>) -> Option<
    Seq<RowOutcome<PlacementView, DiagnosticView<Rule>>>,
> {
    match spec_body_start(s) {
        Some(b) => Some(spec_rows(s, b)),
        None => None,
    }
}

/// The view of a finisher.
pub open spec fn placement_view() -> spec_fn(Placement) -> PlacementView {
    |p: Placement| p@
}

fn rows(s: &[char], start: usize) -> (out: Vec<RowOutcome<Placement, Diagnostic<Rule>>>)
    requires
        start <= s@.len(),
    ensures
        map_outcomes(out@, placement_view(), diagnostic_view::<Rule>()) == spec_rows(
            s@,
            start as int,
        ),
{
    proof {
        reveal_strlit("</tr>");
    }
    let close = chars_of("</tr>");
    let mut out: Vec<RowOutcome<Placement, Diagnostic<Rule>>> = Vec::new();
    let mut pos: usize = start;
    let ghost f = placement_view();
    let ghost g = diagnostic_view::<Rule>();
    loop
        invariant
            pos <= s@.len(),
            close@ == "</tr>"@,
            close@.len() == 5,
            f == placement_view(),
            g == diagnostic_view::<Rule>(),
            spec_rows(s@, start as int) == map_outcomes(out@, f, g) + spec_rows(s@, pos as int),
        decreases s@.len() - pos,
    {
        let ghost before = map_outcomes(out@, f, g);
        proof {
            assert(before + Seq::<RowOutcome<PlacementView, DiagnosticView<Rule>>>::empty()
                =~= before);
        }
        if tr(s, pos).is_none() {
            return out;
        }
        let end = past(s, pos, close.as_slice());
        let stop = match end {
            Some(e) => e,
            None => s.len(),
        };
        let fragment = slice_of(s, pos, stop);
        let text = markup_text(fragment.as_slice(), false);
        let mut resume = end;
        let outcome = if has_sentinel_chars(text.as_slice()) {
            RowOutcome::Silent
        } else {
            match placement(s, pos) {
                Ok((p, next)) => {
                    resume = Some(next);
                    RowOutcome::Record(p)
                },
                Err(rule) => RowOutcome::Reported(
                    Diagnostic { text: Some(string_of(fragment.as_slice())), rule },
                ),
            }
        };
        let ghost o = map_outcome(outcome, f, g);
        assert(o == spec_outcome(s@, pos as int));
        assert(crate::scan::as_int(resume) == spec_resume(s@, pos as int));
        out.push(outcome);
        assert(map_outcomes(out@, f, g) =~= before.push(o));
        match resume {
            Some(next) => {
                proof {
                    let rest = spec_rows(s@, next as int);
                    assert(before + (seq![o] + rest) =~= before.push(o) + rest);
                }
                pos = next;
            },
            None => {
                assert(before + seq![o] =~= before.push(o));
                return out;
            },
        }
    }
}

/// Extracts the page whose source is `input`: the rows of its result table,
/// in order. There is no batch if the page has no result table.
pub fn placements(input: &str) -> (r: Option<PageBatch<Placement, Diagnostic<Rule>>>)
    ensures
        match r {
            Some(batch) => {
                &&& spec_page(input@) is Some
                &&& batch.records@.map_values(placement_view()) == records_of(
                    spec_page(input@)->0,
                )
                &&& batch.diagnostics@.map_values(diagnostic_view::<Rule>()) == diagnostics_of(
                    spec_page(input@)->0,
                )
            },
            None => spec_page(input@) is None,
        },
{
    proof {
        reveal_strlit("<tbody class=\"ui-widget-content\" role=\"alert\"");
        reveal_strlit(">");
    }
    let s = chars_of(input);
    let tbody = chars_of("<tbody class=\"ui-widget-content\" role=\"alert\"");
    let gt = chars_of(">");
    let start = match until(s.as_slice(), 0, tbody.as_slice()) {
        Some(p) => match past(s.as_slice(), p, gt.as_slice()) {
            Some(b) => b,
            None => {
                return None;
            },
        },
        None => {
            return None;
        },
    };
    let outcomes = rows(s.as_slice(), start);
    proof {
        lemma_records_map(outcomes@, placement_view(), diagnostic_view::<Rule>());
    }
    Some(assemble(outcomes))
}

} // verus!
