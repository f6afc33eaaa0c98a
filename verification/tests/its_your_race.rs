use race_results::duration::Duration;
use race_results::its_your_race;
use race_results::its_your_race::{
    after_label, extract_participants, first_label, next_button, LabelDecision, LabelOutcome,
    Lookup, Participant, ParticipantRule, Placement, Rule, TransportFailure,
};
use race_results::options::{ConfigError, Event, Opt, Race, Site, Year};

fn opt(event: Event, race: Race, year: u16) -> Opt {
    Opt { event, race, year: Year(year), display: false, participant: false }
}

fn text(s: &str) -> Option<String> {
    Some(s.to_string())
}

#[test]
fn its_your_race_params() {
    let mut request = opt(Event::BMDM, Race::SoloMaleHeavy, 2019);
    request.participant = true;
    let p = its_your_race::Params::new(request).unwrap();
    assert_eq!(p.event_id, 6574);
    assert_eq!(p.race_menus, ["CIVILIAN Male Heavy", "Individual CIVILIAN Male Heavy"]);
    assert_eq!(p.year, Year(2019));
    assert!(p.participant);
    assert_eq!(p.url(), "https://www.itsyourrace.com/Results.aspx?id=6574");
    assert_eq!(p.year_label(), "2019");
    assert_eq!(
        its_your_race::Params::new(opt(Event::BMDM, Race::Full, 2019)).err(),
        Some(ConfigError::RaceUnavailable { event: Event::BMDM, race: Race::Full })
    );
    assert_eq!(
        its_your_race::Params::new(opt(Event::Rftz, Race::SoloMaleHeavy, 2019)).err(),
        Some(ConfigError::WrongSite { site: Site::ItsYourRace, event: Event::Rftz })
    );
}

#[test]
fn its_your_race_controls() {
    assert_eq!(next_button(Lookup::Found), Ok(true));
    assert_eq!(next_button(Lookup::Missing), Ok(false));
    assert_eq!(next_button(Lookup::Failed), Err(TransportFailure));
    assert_eq!(first_label(0), LabelDecision::NotFound);
    assert_eq!(first_label(2), LabelDecision::Try(0));
    assert_eq!(after_label(0, 2, LabelOutcome::Selected), LabelDecision::Done);
    assert_eq!(after_label(0, 2, LabelOutcome::NoSuchOption), LabelDecision::Try(1));
    assert_eq!(after_label(0, 2, LabelOutcome::Failed), LabelDecision::Try(1));
    assert_eq!(after_label(1, 2, LabelOutcome::NoSuchOption), LabelDecision::NotFound);
    assert_eq!(after_label(1, 2, LabelOutcome::Selected), LabelDecision::Done);
    assert_eq!(after_label(usize::MAX, 2, LabelOutcome::Failed), LabelDecision::NotFound);
}

fn iyr_row(place: &str, name: &str, time: &str, pace: &str) -> its_your_race::Row {
    its_your_race::Row {
        place: text(place),
        name: text(name),
        chiptime: text(time),
        pace: text(pace),
        text: Some(format!("{place}\n{name}\n{time}\n{pace}")),
    }
}

#[test]
fn its_your_race_reads_a_row() {
    let p = Placement::from_row(&iyr_row("3", "John Roe (# 451)", "6:12:30", "14:13/mile"))
        .unwrap();
    assert_eq!((p.rank, p.name.as_str(), p.bib.as_str()), (3, "John Roe", "451"));
    assert_eq!(p.time, Duration { seconds: 22350 });
    assert_eq!(p.pace, Duration { seconds: 853 });
    let p = Placement::from_row(&iyr_row("3", "John Roe (# 4)5) jr", "6:12:30", "14:13/mile"))
        .unwrap();
    assert_eq!(p.bib, "4");
    let fail = |row: its_your_race::Row| Placement::from_row(&row).err();
    assert_eq!(fail(iyr_row("0", "J (# 1)", "6:12:30", "14:13/mile")), Some(Rule::Rank));
    assert_eq!(fail(iyr_row("3", "J", "6:12:30", "14:13/mile")), Some(Rule::Name));
    assert_eq!(fail(iyr_row("3", "J (# 1", "6:12:30", "14:13/mile")), Some(Rule::Name));
    assert_eq!(fail(iyr_row("3", "J (# 1) (# 2)", "6:12:30", "14:13/mile")), Some(Rule::Name));
    assert_eq!(fail(iyr_row("3", "J (# 1)", "DNF", "14:13/mile")), Some(Rule::Time));
    assert_eq!(fail(iyr_row("3", "J (# 1)", "6:12:30", "14:13")), Some(Rule::Pace));
    assert_eq!(fail(iyr_row("3", "J (# 1)", "6:12:30", "fast/mile")), Some(Rule::Pace));
    let mut row = iyr_row("3", "J (# 1)", "6:12:30", "14:13/mile");
    row.pace = None;
    assert_eq!(fail(row), Some(Rule::Pace));
}

#[test]
fn its_your_race_extracts_a_page() {
    let rows = vec![
        iyr_row("1", "A (# 1)", "5:00:00", "11:27/mile"),
        its_your_race::Row {
            place: text("PLACE"),
            name: text("NAME"),
            chiptime: text("TIME"),
            pace: text("PACE"),
            text: text("PLACE\nNAME\nPACE\nTIME"),
        },
        iyr_row("2", "B (# 2)", "5:00:01", "slow"),
        iyr_row("3", "C (# 3)", "5:00:02", "11:27/mile"),
        its_your_race::Row {
            place: text(""),
            name: text("D (# 4)"),
            chiptime: text("DNF"),
            pace: text(""),
            text: text("D (# 4)\nDNF"),
        },
    ];
    let batch = its_your_race::extract_page(&rows);
    let ranks: Vec<u16> = batch.records.iter().map(|p| p.rank).collect();
    assert_eq!(ranks, [1, 3]);
    assert_eq!(batch.diagnostics.len(), 1);
    assert_eq!(batch.diagnostics[0].rule, its_your_race::Rule::Pace);
    assert_eq!(batch.diagnostics[0].text.as_deref(), Some("2\nB (# 2)\n5:00:01\nslow"));
}

#[test]
fn its_your_race_reads_participants() {
    let cells = vec![
        text("1"),
        text("John Roe ( Bib # 451 )\nLas Cruces, NM"),
        text("Individual CIVILIAN Male Heavy"),
        text("Male 30-39"),
    ];
    let p = Participant::from_cells(&cells).unwrap();
    assert_eq!(p.name, "John Roe");
    assert_eq!(p.bib, "451");
    assert_eq!(p.hometown, "Las Cruces, NM");
    assert_eq!(p.race, "Individual CIVILIAN Male Heavy");
    assert_eq!(p.age_group, "Male 30-39");
    let no_bib = vec![None, text("Jane Doe\nTaos, NM"), text("R"), text("G")];
    let p = Participant::from_cells(&no_bib).unwrap();
    assert_eq!(
        (p.name.as_str(), p.bib.as_str(), p.hometown.as_str()),
        ("Jane Doe", "", "Taos, NM")
    );
    let rule = |second: &str| {
        Participant::from_cells(&vec![text("1"), text(second), text("R"), text("G")]).err()
    };
    assert_eq!(rule("Jane Doe"), Some(ParticipantRule::Lines));
    assert_eq!(rule("Jane Doe\nTaos\nNM"), Some(ParticipantRule::Lines));
    assert_eq!(rule("Jane Doe ( Bib # 451\nTaos"), Some(ParticipantRule::Bib));
    assert_eq!(rule("Jane ( Bib # 1 ) ( Bib # 2 )\nTaos"), Some(ParticipantRule::Bib));
    let cells_rule = |cells: Vec<Option<String>>| Participant::from_cells(&cells).err();
    assert_eq!(
        cells_rule(vec![text("1"), text("A\nB"), text("R")]),
        Some(ParticipantRule::Cells)
    );
    assert_eq!(
        cells_rule(vec![text("1"), None, text("R"), text("G")]),
        Some(ParticipantRule::Cells)
    );
    assert_eq!(
        cells_rule(vec![text("1"), text("A\nB"), None, text("G")]),
        Some(ParticipantRule::Cells)
    );
    assert_eq!(
        cells_rule(vec![text("1"), text("A\nB"), text("R"), None]),
        Some(ParticipantRule::Cells)
    );
}

#[test]
fn its_your_race_reports_the_participants_it_discards() {
    let good =
        |name: &str| vec![text("1"), Some(format!("{name}\nTaos, NM")), text("R"), text("G")];
    let page = vec![
        good("John Roe ( Bib # 451 )"),
        vec![text("NAME"), text("RACE"), text("TIME")],
        vec![text("1"), text("one line"), text("R"), text("G")],
        vec![text("heading")],
        good("Jane Doe"),
        vec![],
    ];
    let batch = extract_participants(&page);
    let names: Vec<&str> = batch.records.iter().map(|p| p.name.as_str()).collect();
    assert_eq!(names, ["John Roe", "Jane Doe"]);
    let reported: Vec<(Option<&str>, ParticipantRule)> =
        batch.diagnostics.iter().map(|d| (d.text.as_deref(), d.rule)).collect();
    assert_eq!(
        reported,
        [
            (Some("one line"), ParticipantRule::Lines),
            (None, ParticipantRule::Cells),
            (None, ParticipantRule::Cells)
        ]
    );
}
