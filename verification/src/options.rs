//! What the operator asks for: an event, one of its races, and a year.

use crate::number::{decimal, parse_u16, push_decimal, spec_parse_u16};
use crate::text::{chars_of, push_str, spells, string_of};
use vstd::prelude::*;

verus! {

/// A race distance or category within an event.
#[derive(Clone, Copy, Debug, PartialEq, Eq, Structural)]
pub enum Race {
    Full,
    Half,
    Relay,
    TenK,
    FiveK,
    Handcycle,
    TenKRuck,
    SoloMaleHeavy,
}

/// The text was not the name of a race.
#[derive(Clone, Copy, Debug, PartialEq, Eq, Structural)]
pub struct ParseRaceError;

/// An event whose results can be collected.
#[derive(Clone, Copy, Debug, PartialEq, Eq, Structural)]
pub enum Event {
    Shiprock,
    Rftz,
    Lt100,
    Moab240,
    JJ100,
    DPTR,
    BosqueBigfoot,
    DukeCityMarathon,
    CorralesDitchRun,
    KotH,
    BMDM,
    RioGrande,
    DoggieDash,
    RioDelLago,
}

/// The text was not the name of an event.
#[derive(Clone, Copy, Debug, PartialEq, Eq, Structural)]
pub struct ParseEventError;

/// A calendar year.
#[derive(Clone, Copy, Debug, PartialEq, Eq, Structural)]
pub struct Year(pub u16);

/// The text was not a year.
#[derive(Clone, Copy, Debug, PartialEq, Eq, Structural)]
pub struct ParseYearError;

/// One request: which results to collect, and how.
#[derive(Clone, Copy, Debug, PartialEq, Eq, Structural)]
pub struct Opt {
    pub event: Event,
    pub race: Race,
    pub year: Year,
    /// Show the browser while results are gathered.
    pub display: bool,
    /// Collect the participant list instead of the placements.
    pub participant: bool,
}

/// A site that hosts results.
#[derive(Clone, Copy, Debug, PartialEq, Eq, Structural)]
pub enum Site {
    Athlinks,
    Chronotrack,
    ItsYourRace,
    RunSignup,
    UltraSignup,
}

/// Why a year has no listing.
#[derive(Clone, Copy, Debug, PartialEq, Eq, Structural)]
pub enum YearProblem {
    /// The race was held virtually.
    Virtual,
    /// The results are no longer on the site.
    Offline,
    /// Before the first year on the site.
    TooEarly,
    /// The year's results are not among those that are collected.
    NotCollected,
}

/// Why a request cannot be served. Found before the browser is touched.
#[derive(Clone, Copy, Debug, PartialEq, Eq, Structural)]
pub enum ConfigError {
    /// The event is not hosted on the site.
    WrongSite { site: Site, event: Event },
    /// The event does not offer the race, or its results are not collected.
    RaceUnavailable { event: Event, race: Race },
    /// There is no listing for the year.
    YearUnavailable { site: Site, event: Event, year: Year, problem: YearProblem },
}

/// The race that `s` names on the command line.
pub open spec fn spec_parse_race(s: Seq<char>) -> Result<Race, ParseRaceError> {
    if s == "full"@ {
        Ok(Race::Full)
    } else if s == "half"@ {
        Ok(Race::Half)
    } else if s == "relay"@ {
        Ok(Race::Relay)
    } else if s == "10k"@ {
        Ok(Race::TenK)
    } else if s == "5k"@ {
        Ok(Race::FiveK)
    } else if s == "handcycle"@ {
        Ok(Race::Handcycle)
    } else if s == "10kruck"@ {
        Ok(Race::TenKRuck)
    } else if s == "solo-male-heavy"@ {
        Ok(Race::SoloMaleHeavy)
    } else {
        Err(ParseRaceError)
    }
}

/// The event that `s` names on the command line.
pub open spec fn spec_parse_event(s: Seq<char>) -> Result<Event, ParseEventError> {
    if s == "shiprock"@ {
        Ok(Event::Shiprock)
    } else if s == "rftz"@ {
        Ok(Event::Rftz)
    } else if s == "lt100"@ {
        Ok(Event::Lt100)
    } else if s == "moab240"@ {
        Ok(Event::Moab240)
    } else if s == "jj100"@ {
        Ok(Event::JJ100)
    } else if s == "dptr"@ {
        Ok(Event::DPTR)
    } else if s == "bosque"@ {
        Ok(Event::BosqueBigfoot)
    } else if s == "dcm"@ {
        Ok(Event::DukeCityMarathon)
    } else if s == "ditch"@ {
        Ok(Event::CorralesDitchRun)
    } else if s == "koth"@ {
        Ok(Event::KotH)
    } else if s == "bmdm"@ {
        Ok(Event::BMDM)
    } else if s == "riogrande"@ {
        Ok(Event::RioGrande)
    } else {
        Err(ParseEventError)
    }
}

/// The year that `s` denotes.
pub open spec fn spec_parse_year(s: Seq<char>) -> Result<Year, ParseYearError> {
    match spec_parse_u16(s) {
        Some(y) => Ok(Year(y)),
        None => Err(ParseYearError),
    }
}

impl Race {
    /// Reads the name of a race.
    pub fn parse(s: &str) -> (r: Result<Race, ParseRaceError>)
        ensures
            r == spec_parse_race(s@),
    {
        let v = chars_of(s);
        let v = v.as_slice();
        if spells(v, "full") {
            Ok(Race::Full)
        } else if spells(v, "half") {
            Ok(Race::Half)
        } else if spells(v, "relay") {
            Ok(Race::Relay)
        } else if spells(v, "10k") {
            Ok(Race::TenK)
        } else if spells(v, "5k") {
            Ok(Race::FiveK)
        } else if spells(v, "handcycle") {
            Ok(Race::Handcycle)
        } else if spells(v, "10kruck") {
            Ok(Race::TenKRuck)
        } else if spells(v, "solo-male-heavy") {
            Ok(Race::SoloMaleHeavy)
        } else {
            Err(ParseRaceError)
        }
    }
}

impl std::str::FromStr for Race {
    type Err = ParseRaceError;

    fn from_str(s: &str) -> (r: Result<Race, ParseRaceError>)
        ensures
            r == spec_parse_race(s@),
    {
        Race::parse(s)
    }
}

impl ParseRaceError {
    /// What to tell the operator.
    pub fn message(&self) -> (s: String)
        ensures
            s@ == "choose \"full\", \"half\", \"relay\", \"10k\", \"5k\" or \"handcycle\" (or \"solo-male-heavy\")"@,
    {
        "choose \"full\", \"half\", \"relay\", \"10k\", \"5k\" or \"handcycle\" (or \"solo-male-heavy\")".to_owned()
    }
}

impl Event {
    /// Reads the name of an event.
    pub fn parse(s: &str) -> (r: Result<Event, ParseEventError>)
        ensures
            r == spec_parse_event(s@),
    {
        let v = chars_of(s);
        let v = v.as_slice();
        if spells(v, "shiprock") {
            Ok(Event::Shiprock)
        } else if spells(v, "rftz") {
            Ok(Event::Rftz)
        } else if spells(v, "lt100") {
            Ok(Event::Lt100)
        } else if spells(v, "moab240") {
            Ok(Event::Moab240)
        } else if spells(v, "jj100") {
            Ok(Event::JJ100)
        } else if spells(v, "dptr") {
            Ok(Event::DPTR)
        } else if spells(v, "bosque") {
            Ok(Event::BosqueBigfoot)
        } else if spells(v, "dcm") {
            Ok(Event::DukeCityMarathon)
        } else if spells(v, "ditch") {
            Ok(Event::CorralesDitchRun)
        } else if spells(v, "koth") {
            Ok(Event::KotH)
        } else if spells(v, "bmdm") {
            Ok(Event::BMDM)
        } else if spells(v, "riogrande") {
            Ok(Event::RioGrande)
        } else {
            Err(ParseEventError)
        }
    }
}

impl std::str::FromStr for Event {
    type Err = ParseEventError;

    fn from_str(s: &str) -> (r: Result<Event, ParseEventError>)
        ensures
            r == spec_parse_event(s@),
    {
        Event::parse(s)
    }
}

impl ParseEventError {
    /// What to tell the operator.
    pub fn message(&self) -> (s: String)
        ensures
            s@ == "choose \"shiprock\", \"rftz\", \"lt100\", \"moab240\", \"dptr\", \"bosque\", \"dcm\", \"ditch\", \"koth\", \"bmdm\" or \"riogrande\""@,
    {
        "choose \"shiprock\", \"rftz\", \"lt100\", \"moab240\", \"dptr\", \"bosque\", \"dcm\", \"ditch\", \"koth\", \"bmdm\" or \"riogrande\"".to_owned()
    }
}

impl Year {
    /// Reads a year.
    pub fn parse(s: &str) -> (r: Result<Year, ParseYearError>)
        ensures
            r == spec_parse_year(s@),
    {
        let v = chars_of(s);
        match parse_u16(v.as_slice()) {
            Some(y) => Ok(Year(y)),
            None => Err(ParseYearError),
        }
    }
}

impl std::str::FromStr for Year {
    type Err = ParseYearError;

    fn from_str(s: &str) -> (r: Result<Year, ParseYearError>)
        ensures
            r == spec_parse_year(s@),
    {
        Year::parse(s)
    }
}

impl Year {
    /// The year in digits.
    pub fn to_text(&self) -> (s: String)
        ensures
            s@ == decimal(self.0 as nat),
    {
        let mut out: Vec<char> = Vec::new();
        push_decimal(&mut out, self.0 as u64);
        assert(out@ =~= decimal(self.0 as nat));
        string_of(out.as_slice())
    }
}

impl Event {
    /// The name of the event as it is written in this library.
    pub open spec fn spec_name(self) -> Seq<char> {
        match self {
            Event::Shiprock => "Shiprock"@,
            Event::Rftz => "Rftz"@,
            Event::Lt100 => "Lt100"@,
            Event::Moab240 => "Moab240"@,
            Event::JJ100 => "JJ100"@,
            Event::DPTR => "DPTR"@,
            Event::BosqueBigfoot => "BosqueBigfoot"@,
            Event::DukeCityMarathon => "DukeCityMarathon"@,
            Event::CorralesDitchRun => "CorralesDitchRun"@,
            Event::KotH => "KotH"@,
            Event::BMDM => "BMDM"@,
            Event::RioGrande => "RioGrande"@,
            Event::DoggieDash => "DoggieDash"@,
            Event::RioDelLago => "RioDelLago"@,
        }
    }

    /// The name of the event as it is written in this library.
    pub fn name(&self) -> (s: &'static str)
        ensures
            s@ == self.spec_name(),
    {
        match self {
            Event::Shiprock => "Shiprock",
            Event::Rftz => "Rftz",
            Event::Lt100 => "Lt100",
            Event::Moab240 => "Moab240",
            Event::JJ100 => "JJ100",
            Event::DPTR => "DPTR",
            Event::BosqueBigfoot => "BosqueBigfoot",
            Event::DukeCityMarathon => "DukeCityMarathon",
            Event::CorralesDitchRun => "CorralesDitchRun",
            Event::KotH => "KotH",
            Event::BMDM => "BMDM",
            Event::RioGrande => "RioGrande",
            Event::DoggieDash => "DoggieDash",
            Event::RioDelLago => "RioDelLago",
        }
    }
}

impl Site {
    /// The name of the site.
    pub open spec fn spec_name(self) -> Seq<char> {
        match self {
            Site::Athlinks => "athlinks"@,
            Site::Chronotrack => "chronotrack"@,
            Site::ItsYourRace => "It's Your Race"@,
            Site::RunSignup => "runsignup"@,
            Site::UltraSignup => "ultrasignup"@,
        }
    }

    /// The name of the site.
    pub fn name(&self) -> (s: &'static str)
        ensures
            s@ == self.spec_name(),
    {
        match self {
            Site::Athlinks => "athlinks",
            Site::Chronotrack => "chronotrack",
            Site::ItsYourRace => "It's Your Race",
            Site::RunSignup => "runsignup",
            Site::UltraSignup => "ultrasignup",
        }
    }
}

/// What is said when an event does not offer a race.
pub open spec fn spec_races_offered(event: Event, race: Race) -> Seq<char> {
    match event {
        Event::Rftz | Event::CorralesDitchRun => "Only Half, 10k and 5k are available"@,
        Event::Lt100 | Event::RioDelLago => "Only the full is available"@,
        Event::DukeCityMarathon => "Only Full, Half, 10k and 5k are available"@,
        Event::KotH => "Only 5k, 10k, 10kruck and half are available"@,
        Event::RioGrande | Event::DoggieDash => "Only 5k and half are available"@,
        Event::BMDM => "Only solo-male-heavy is available"@,
        _ => match race {
            Race::TenKRuck => "No 10k ruck at Shiprock"@,
            Race::SoloMaleHeavy => "solo-male-heavey is a temporary hack"@,
            _ => "That race is not available"@,
        },
    }
}

/// What is said of a year without a listing.
pub open spec fn spec_year_problem(problem: YearProblem) -> Seq<char> {
    match problem {
        YearProblem::Virtual => "That year was virtual"@,
        YearProblem::Offline => "Capture the mhtml and use ctm/runs)"@,
        YearProblem::TooEarly => "Too early"@,
        YearProblem::NotCollected => "That year is not collected"@,
    }
}

/// What is said when a year has no listing.
pub open spec fn spec_years_offered(
    site: Site,
    event: Event,
    year: Year,
    problem: YearProblem,
) -> Seq<char> {
    match site {
        Site::Athlinks => match event {
            Event::DukeCityMarathon => "Only 2022, 2023 or 2024 (for now)"@,
            _ => "Only 2023 (for now?)"@,
        },
        Site::RunSignup => "We currently only scrape The Quad in 2020"@,
        _ => "Year "@ + decimal(year.0 as nat) + " is not supported: "@ + spec_year_problem(
            problem,
        ),
    }
}

/// What is said when a site does not host an event.
pub open spec fn spec_wrong_site(site: Site, event: Event) -> Seq<char> {
    match site {
        Site::UltraSignup => event.spec_name() + " not ultrasignup"@,
        _ => event.spec_name() + " is not "@ + site.spec_name(),
    }
}

impl YearProblem {
    /// What to tell the operator.
    pub fn message(&self) -> (s: &'static str)
        ensures
            s@ == spec_year_problem(*self),
    {
        match self {
            YearProblem::Virtual => "That year was virtual",
            YearProblem::Offline => "Capture the mhtml and use ctm/runs)",
            YearProblem::TooEarly => "Too early",
            YearProblem::NotCollected => "That year is not collected",
        }
    }
}

impl ConfigError {
    /// What to tell the operator.
    pub open spec fn spec_message(self) -> Seq<char> {
        match self {
            ConfigError::WrongSite { site, event } => spec_wrong_site(site, event),
            ConfigError::RaceUnavailable { event, race } => spec_races_offered(event, race),
            ConfigError::YearUnavailable { site, event, year, problem } => spec_years_offered(
                site,
                event,
                year,
                problem,
            ),
        }
    }

    /// What to tell the operator.
    pub fn message(&self) -> (s: String)
        ensures
            s@ == self.spec_message(),
    {
        let mut out: Vec<char> = Vec::new();
        match self {
            ConfigError::WrongSite { site, event } => {
                push_str(&mut out, event.name());
                match site {
                    Site::UltraSignup => {
                        push_str(&mut out, " not ultrasignup");
                    },
                    _ => {
                        push_str(&mut out, " is not ");
                        push_str(&mut out, site.name());
                    },
                }
            },
            ConfigError::RaceUnavailable { event, race } => {
                let text = match event {
                    Event::Rftz | Event::CorralesDitchRun => "Only Half, 10k and 5k are available",
                    Event::Lt100 | Event::RioDelLago => "Only the full is available",
                    Event::DukeCityMarathon => "Only Full, Half, 10k and 5k are available",
                    Event::KotH => "Only 5k, 10k, 10kruck and half are available",
                    Event::RioGrande | Event::DoggieDash => "Only 5k and half are available",
                    Event::BMDM => "Only solo-male-heavy is available",
                    _ => match race {
                        Race::TenKRuck => "No 10k ruck at Shiprock",
                        Race::SoloMaleHeavy => "solo-male-heavey is a temporary hack",
                        _ => "That race is not available",
                    },
                };
                push_str(&mut out, text);
            },
            ConfigError::YearUnavailable { site, event, year, problem } => {
                match site {
                    Site::Athlinks => match event {
                        Event::DukeCityMarathon => {
                            push_str(&mut out, "Only 2022, 2023 or 2024 (for now)");
                        },
                        _ => {
                            push_str(&mut out, "Only 2023 (for now?)");
                        },
                    },
                    Site::RunSignup => {
                        push_str(&mut out, "We currently only scrape The Quad in 2020");
                    },
                    _ => {
                        push_str(&mut out, "Year ");
                        push_decimal(&mut out, year.0 as u64);
                        push_str(&mut out, " is not supported: ");
                        push_str(&mut out, problem.message());
                    },
                }
            },
        }
        assert(out@ =~= self.spec_message());
        string_of(out.as_slice())
    }
}

} // verus!
