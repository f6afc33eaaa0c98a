use race_results::registry::{listing, site_of, Listing};
use race_results::options::{
    ConfigError, Event, Opt, ParseEventError, ParseRaceError, ParseYearError, Race, Site, Year,
    YearProblem,
};

#[test]
fn reads_every_race_name() {
    assert_eq!(Race::parse("full"), Ok(Race::Full));
    assert_eq!(Race::parse("half"), Ok(Race::Half));
    assert_eq!(Race::parse("relay"), Ok(Race::Relay));
    assert_eq!(Race::parse("10k"), Ok(Race::TenK));
    assert_eq!(Race::parse("5k"), Ok(Race::FiveK));
    assert_eq!(Race::parse("handcycle"), Ok(Race::Handcycle));
    assert_eq!(Race::parse("10kruck"), Ok(Race::TenKRuck));
    assert_eq!(Race::parse("solo-male-heavy"), Ok(Race::SoloMaleHeavy));
}

#[test]
fn refuses_an_unknown_race() {
    assert_eq!(Race::parse("Full"), Err(ParseRaceError));
    assert_eq!(Race::parse(""), Err(ParseRaceError));
    assert_eq!(Race::parse("full "), Err(ParseRaceError));
    assert_eq!("marathon".parse::<Race>(), Err(ParseRaceError));
    assert_eq!("10k".parse::<Race>(), Ok(Race::TenK));
}

#[test]
fn reads_every_event_name() {
    assert_eq!(Event::parse("shiprock"), Ok(Event::Shiprock));
    assert_eq!(Event::parse("rftz"), Ok(Event::Rftz));
    assert_eq!(Event::parse("lt100"), Ok(Event::Lt100));
    assert_eq!(Event::parse("moab240"), Ok(Event::Moab240));
    assert_eq!(Event::parse("jj100"), Ok(Event::JJ100));
    assert_eq!(Event::parse("dptr"), Ok(Event::DPTR));
    assert_eq!(Event::parse("bosque"), Ok(Event::BosqueBigfoot));
    assert_eq!(Event::parse("dcm"), Ok(Event::DukeCityMarathon));
    assert_eq!(Event::parse("ditch"), Ok(Event::CorralesDitchRun));
    assert_eq!(Event::parse("koth"), Ok(Event::KotH));
    assert_eq!(Event::parse("bmdm"), Ok(Event::BMDM));
    assert_eq!(Event::parse("riogrande"), Ok(Event::RioGrande));
}

#[test]
fn refuses_an_unknown_event() {
    assert_eq!(Event::parse("boston"), Err(ParseEventError));
    assert_eq!(Event::parse("Shiprock"), Err(ParseEventError));
    assert_eq!("".parse::<Event>(), Err(ParseEventError));
    assert_eq!("koth".parse::<Event>(), Ok(Event::KotH));
}

#[test]
fn reads_and_writes_a_year() {
    assert_eq!(Year::parse("2019"), Ok(Year(2019)));
    assert_eq!(Year::parse("+2019"), Ok(Year(2019)));
    assert_eq!(Year::parse("65535"), Ok(Year(65535)));
    assert_eq!(Year::parse("65536"), Err(ParseYearError));
    assert_eq!(Year::parse("20 19"), Err(ParseYearError));
    assert_eq!(Year::parse(""), Err(ParseYearError));
    assert_eq!("2023".parse::<Year>(), Ok(Year(2023)));
    assert_eq!(Year(2019).to_text(), "2019");
    assert_eq!(Year(0).to_text(), "0");
}

#[test]
fn parse_errors_tell_the_choices() {
    assert_eq!(
        ParseRaceError.message(),
        "choose \"full\", \"half\", \"relay\", \"10k\", \"5k\" or \"handcycle\" (or \"solo-male-heavy\")"
    );
    assert_eq!(
        ParseEventError.message(),
        "choose \"shiprock\", \"rftz\", \"lt100\", \"moab240\", \"dptr\", \"bosque\", \"dcm\", \"ditch\", \"koth\", \"bmdm\" or \"riogrande\""
    );
}

#[test]
fn config_errors_tell_what_is_offered() {
    let wrong = ConfigError::WrongSite { site: Site::Athlinks, event: Event::Moab240 };
    assert_eq!(wrong.message(), "Moab240 is not athlinks");
    let wrong = ConfigError::WrongSite { site: Site::ItsYourRace, event: Event::Shiprock };
    assert_eq!(wrong.message(), "Shiprock is not It's Your Race");
    let race = ConfigError::RaceUnavailable { event: Event::Lt100, race: Race::Half };
    assert_eq!(race.message(), "Only the full is available");
    let race = ConfigError::RaceUnavailable { event: Event::KotH, race: Race::Full };
    assert_eq!(race.message(), "Only 5k, 10k, 10kruck and half are available");
    let year = ConfigError::YearUnavailable {
        site: Site::Athlinks,
        event: Event::DukeCityMarathon,
        year: Year(2019),
            problem: YearProblem::NotCollected
    };
    assert_eq!(year.message(), "Only 2022, 2023 or 2024 (for now)");
    let year = ConfigError::YearUnavailable {
        site: Site::RunSignup,
        event: Event::Shiprock,
        year: Year(2021),
            problem: YearProblem::NotCollected
    };
    assert_eq!(year.message(), "We currently only scrape The Quad in 2020");
    let shiprock = |year: u16, problem: YearProblem| {
        ConfigError::YearUnavailable {
            site: Site::Chronotrack,
            event: Event::Shiprock,
            year: Year(year),
            problem,
        }
        .message()
    };
    assert_eq!(
        shiprock(2020, YearProblem::Virtual),
        "Year 2020 is not supported: That year was virtual"
    );
    assert_eq!(
        shiprock(2023, YearProblem::Offline),
        "Year 2023 is not supported: Capture the mhtml and use ctm/runs)"
    );
    assert_eq!(shiprock(2016, YearProblem::TooEarly), "Year 2016 is not supported: Too early");
    let wrong = ConfigError::WrongSite { site: Site::UltraSignup, event: Event::Shiprock };
    assert_eq!(wrong.message(), "Shiprock not ultrasignup");
    let race = ConfigError::RaceUnavailable { event: Event::DoggieDash, race: Race::Half };
    assert_eq!(race.message(), "Only 5k and half are available");
    let race = ConfigError::RaceUnavailable { event: Event::Shiprock, race: Race::TenKRuck };
    assert_eq!(race.message(), "No 10k ruck at Shiprock");
    let race = ConfigError::RaceUnavailable { event: Event::Shiprock, race: Race::SoloMaleHeavy };
    assert_eq!(race.message(), "solo-male-heavey is a temporary hack");
    assert_eq!(YearProblem::Virtual.message(), "That year was virtual");
}

#[test]
fn names_are_the_variant_names() {
    assert_eq!(Event::BosqueBigfoot.name(), "BosqueBigfoot");
    assert_eq!(Event::KotH.name(), "KotH");
    assert_eq!(Site::UltraSignup.name(), "ultrasignup");
    let opt = Opt {
        event: Event::Shiprock,
        race: Race::Full,
        year: Year(2019),
        display: false,
        participant: false,
    };
    assert_eq!(opt.event.name(), "Shiprock");
}

fn request(event: Event, race: Race, year: u16) -> Opt {
    Opt { event, race, year: Year(year), display: false, participant: false }
}

#[test]
fn every_event_has_its_host() {
    assert_eq!(site_of(Event::Shiprock), Site::Chronotrack);
    for event in [
        Event::Rftz,
        Event::Lt100,
        Event::DukeCityMarathon,
        Event::CorralesDitchRun,
        Event::KotH,
        Event::RioGrande,
        Event::DoggieDash,
        Event::RioDelLago,
    ] {
        assert_eq!(site_of(event), Site::Athlinks);
    }
    for event in [Event::Moab240, Event::JJ100, Event::DPTR, Event::BosqueBigfoot] {
        assert_eq!(site_of(event), Site::UltraSignup);
    }
    assert_eq!(site_of(Event::BMDM), Site::ItsYourRace);
}

#[test]
fn a_request_is_settled_by_the_host() {
    assert!(matches!(
        listing(request(Event::Shiprock, Race::Full, 2019)),
        Ok(Listing::Chronotrack(p)) if p.menu_item == "Shiprock Marathon"
    ));
    assert!(matches!(
        listing(request(Event::KotH, Race::Half, 2019)),
        Ok(Listing::Athlinks(p)) if p.event_id == 166931
    ));
    assert!(matches!(
        listing(request(Event::Moab240, Race::Full, 2019)),
        Ok(Listing::UltraSignup(p)) if p.did == 72701 && p.year == "2019"
    ));
    assert!(matches!(
        listing(request(Event::BMDM, Race::SoloMaleHeavy, 2019)),
        Ok(Listing::ItsYourRace(p)) if p.event_id == 6574
    ));
    assert_eq!(
        listing(request(Event::Shiprock, Race::Full, 2020)).err(),
        Some(ConfigError::YearUnavailable {
            site: Site::Chronotrack,
            event: Event::Shiprock,
            year: Year(2020),
            problem: YearProblem::Virtual
        })
    );
    assert_eq!(
        listing(request(Event::BMDM, Race::Full, 2019)).err(),
        Some(ConfigError::RaceUnavailable { event: Event::BMDM, race: Race::Full })
    );
    assert_eq!(
        listing(request(Event::Lt100, Race::FiveK, 2019)).err(),
        Some(ConfigError::RaceUnavailable { event: Event::Lt100, race: Race::FiveK })
    );
}
