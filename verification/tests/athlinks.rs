use race_results::athlinks;
use race_results::athlinks::{Placement, Rule};
use race_results::duration::Duration;
use race_results::filter::Match;
use race_results::options::{ConfigError, Event, Opt, Race, Site, Year, YearProblem};
use race_results::pagination::{start, step, PageAction, PageEvent, PaginationState};

fn opt(event: Event, race: Race, year: u16) -> Opt {
    Opt { event, race, year: Year(year), display: false, participant: false }
}

fn text(s: &str) -> Option<String> {
    Some(s.to_string())
}

#[test]
fn athlinks_knows_its_events() {
    let p = athlinks::Params::new(opt(Event::Rftz, Race::Half, 2019)).unwrap();
    assert_eq!((p.event_id, p.second_id, p.race, p.year), (34346, 729962, Race::Half, Year(2019)));
    let p = athlinks::Params::new(opt(Event::Lt100, Race::Full, 2021)).unwrap();
    assert_eq!((p.event_id, p.second_id), (33913, 1064640));
    let p = athlinks::Params::new(opt(Event::DukeCityMarathon, Race::TenK, 2023)).unwrap();
    assert_eq!((p.event_id, p.second_id), (35398, 1032202));
    let p = athlinks::Params::new(opt(Event::CorralesDitchRun, Race::FiveK, 2023)).unwrap();
    assert_eq!((p.event_id, p.second_id), (6398, 1079194));
    let p = athlinks::Params::new(opt(Event::KotH, Race::TenKRuck, 2020)).unwrap();
    assert_eq!((p.event_id, p.second_id), (166931, 1064112));
    let p = athlinks::Params::new(opt(Event::RioGrande, Race::FiveK, 2020)).unwrap();
    assert_eq!((p.event_id, p.second_id), (11260, 1040305));
    let p = athlinks::Params::new(opt(Event::DoggieDash, Race::FiveK, 2020)).unwrap();
    assert_eq!((p.event_id, p.second_id), (68104, 1094706));
    let p = athlinks::Params::new(opt(Event::RioDelLago, Race::Full, 2020)).unwrap();
    assert_eq!((p.event_id, p.second_id), (63638, 991871));
}

#[test]
fn athlinks_refuses_what_it_does_not_collect() {
    assert_eq!(
        athlinks::Params::new(opt(Event::Shiprock, Race::Full, 2019)),
        Err(ConfigError::WrongSite { site: Site::Athlinks, event: Event::Shiprock })
    );
    assert_eq!(
        athlinks::Params::new(opt(Event::Rftz, Race::Full, 2019)),
        Err(ConfigError::RaceUnavailable { event: Event::Rftz, race: Race::Full })
    );
    assert_eq!(
        athlinks::Params::new(opt(Event::Lt100, Race::Half, 2019)),
        Err(ConfigError::RaceUnavailable { event: Event::Lt100, race: Race::Half })
    );
    assert_eq!(
        athlinks::Params::new(opt(Event::DukeCityMarathon, Race::Full, 2021)),
        Err(ConfigError::YearUnavailable {
            site: Site::Athlinks,
            event: Event::DukeCityMarathon,
            year: Year(2021),
            problem: YearProblem::NotCollected
        })
    );
    assert_eq!(
        athlinks::Params::new(opt(Event::DukeCityMarathon, Race::Relay, 2021)),
        Err(ConfigError::YearUnavailable {
            site: Site::Athlinks,
            event: Event::DukeCityMarathon,
            year: Year(2021),
            problem: YearProblem::NotCollected
        })
    );
    assert_eq!(
        athlinks::Params::new(opt(Event::DukeCityMarathon, Race::Relay, 2024)),
        Err(ConfigError::RaceUnavailable { event: Event::DukeCityMarathon, race: Race::Relay })
    );
    assert_eq!(
        athlinks::Params::new(opt(Event::CorralesDitchRun, Race::Half, 2022)),
        Err(ConfigError::YearUnavailable {
            site: Site::Athlinks,
            event: Event::CorralesDitchRun,
            year: Year(2022),
            problem: YearProblem::NotCollected
        })
    );
    assert_eq!(
        athlinks::Params::new(opt(Event::DoggieDash, Race::Half, 2022)),
        Err(ConfigError::RaceUnavailable { event: Event::DoggieDash, race: Race::Half })
    );
}

#[test]
fn athlinks_address_and_filters() {
    let p = athlinks::Params::new(opt(Event::Rftz, Race::Half, 2019)).unwrap();
    assert_eq!(p.url(), "https://www.athlinks.com/event/34346/results/Event/729962/Results");
    let year = p.year_filter();
    assert_eq!(year.selector, "#eventDate");
    assert_eq!(year.labels, ["2019"]);
    assert_eq!(year.mode, Match::Contains);
    let race = p.race_filter();
    assert_eq!(race.selector, "#race");
    assert_eq!(race.labels, ["Half Marathon", "Lovelace Rio Grande Half Marathon"]);
    assert_eq!(race.mode, Match::Exact);
    assert_eq!(athlinks::li_text(Race::Full), ["Marathon", "100 Mile Endurance Run"]);
    assert_eq!(athlinks::li_text(Race::TenK), ["10K Timed", "10K Run", "10k"]);
    assert_eq!(athlinks::li_text(Race::TenKRuck), ["10k Rucksack"]);
    assert_eq!(athlinks::li_text(Race::FiveK).len(), 7);
    assert_eq!(athlinks::li_text(Race::FiveK)[6], "Doggie Dash");
}

#[test]
fn athlinks_controls() {
    assert!(athlinks::is_disabled(Some("MuiInputBase-root Mui-disabled")));
    assert!(!athlinks::is_disabled(Some("MuiInputBase-root")));
    assert!(!athlinks::is_disabled(None));
    assert!(athlinks::has_next(Some("&gt;")));
    assert!(!athlinks::has_next(Some("3")));
    assert!(!athlinks::has_next(Some("&gt; ")));
    assert!(!athlinks::has_next(None));
    assert_eq!(athlinks::PAGE_CEILING, 50);
    assert_eq!(athlinks::SETTLE_SECONDS, 2);
}

#[test]
fn sex_age_bib_and_hometown() {
    assert_eq!(
        athlinks::extract_sex_et_al(&["M 34", "Bib 123", "Albuquerque, NM"]),
        Ok(("M".to_string(), Some(34), "123".to_string(), "Albuquerque, NM".to_string()))
    );
    assert_eq!(
        athlinks::extract_sex_et_al(&["F 29", "Santa Fe, NM"]),
        Ok(("F".to_string(), Some(29), "".to_string(), "Santa Fe, NM".to_string()))
    );
    assert_eq!(
        athlinks::extract_sex_et_al(&["M", "Bib 7", ""]),
        Ok(("M".to_string(), None, "7".to_string(), "".to_string()))
    );
    assert_eq!(
        athlinks::extract_sex_et_al(&["", "bib 7", "x"]),
        Ok(("".to_string(), None, "".to_string(), "x".to_string()))
    );
    assert_eq!(
        athlinks::extract_sex_et_al(&["M 0", "Bib ", "x"]),
        Ok(("M".to_string(), None, "".to_string(), "x".to_string()))
    );
    assert_eq!(
        athlinks::extract_sex_et_al(&["M old", "Bib 1", "x"]),
        Ok(("M".to_string(), None, "1".to_string(), "x".to_string()))
    );
    assert_eq!(
        athlinks::extract_sex_et_al(&["M 34 x", "Bib 1", "x"]),
        Err(athlinks::DetailsError::Words)
    );
    assert_eq!(athlinks::extract_sex_et_al(&["M 34"]), Err(athlinks::DetailsError::Lines));
    assert_eq!(athlinks::extract_sex_et_al(&[]), Err(athlinks::DetailsError::Lines));
    assert_eq!(
        athlinks::extract_sex_et_al(&["a", "b", "c", "d"]),
        Err(athlinks::DetailsError::Lines)
    );
}

fn athlinks_row(rank: &str, time: &str) -> athlinks::Row {
    athlinks::Row {
        name: text("Jane Doe"),
        details: text("F 30\nBib 12\nTaos, NM"),
        cells: vec![text(rank), text("2"), text("1"), text("8:32\nMIN/MI"), text(time)],
        text: Some(format!("Jane Doe\nF 30\nBib 12\nTaos, NM\n{rank}\n2\n1\n8:32\nMIN/MI\n{time}")),
    }
}

#[test]
fn athlinks_reads_a_row() {
    let p = athlinks::Placement::from_row(&athlinks_row("17", "1:51:46")).unwrap();
    assert_eq!(p.name, "Jane Doe");
    assert_eq!(p.sex, "F");
    assert_eq!(p.age, Some(30));
    assert_eq!(p.bib, "12");
    assert_eq!(p.hometown, "Taos, NM");
    assert_eq!(p.rank, 17);
    assert_eq!(p.gender_rank, Some(2));
    assert_eq!(p.division_rank, 1);
    assert_eq!(p.pace, Duration { seconds: 512 });
    assert_eq!(p.time, Duration { seconds: 6706 });
    assert_eq!(p.time.to_text(), "01:51:46");
}

#[test]
fn athlinks_names_the_rule_that_fails() {
    let fail = |row: athlinks::Row| Placement::from_row(&row).err();
    let mut row = athlinks_row("17", "1:51:46");
    row.name = None;
    assert_eq!(fail(row), Some(Rule::Name));
    let mut row = athlinks_row("17", "1:51:46");
    row.details = None;
    assert_eq!(fail(row), Some(Rule::Details));
    let mut row = athlinks_row("17", "1:51:46");
    row.details = text("one line");
    assert_eq!(fail(row), Some(Rule::Details));
    assert_eq!(fail(athlinks_row("0", "1:51:46")), Some(Rule::Rank));
    assert_eq!(fail(athlinks_row("first", "1:51:46")), Some(Rule::Rank));
    let mut row = athlinks_row("17", "1:51:46");
    row.cells[1] = None;
    assert_eq!(fail(row), Some(Rule::GenderRank));
    let mut row = athlinks_row("17", "1:51:46");
    row.cells[2] = text("--");
    assert_eq!(fail(row), Some(Rule::DivisionRank));
    let mut row = athlinks_row("17", "1:51:46");
    row.cells[3] = text("fast");
    assert_eq!(fail(row), Some(Rule::Pace));
    assert_eq!(fail(athlinks_row("17", "1:51:46.5")), Some(Rule::Time));
    let mut row = athlinks_row("17", "1:51:46");
    row.cells.truncate(4);
    assert_eq!(fail(row), Some(Rule::Time));
    let mut row = athlinks_row("17", "1:51:46");
    row.cells.clear();
    assert_eq!(fail(row), Some(Rule::Rank));
    let mut row = athlinks_row("17", "1:51:46");
    row.cells[1] = text("--");
    assert_eq!(Placement::from_row(&row).unwrap().gender_rank, None);
}

#[test]
fn a_two_page_listing_end_to_end() {
    let mut malformed = athlinks_row("4", "2:00:00");
    malformed.cells[2] = text("n/a");
    let page_one = vec![
        athlinks_row("1", "1:30:00"),
        athlinks_row("2", "1:31:00"),
        athlinks_row("5", "DNF"),
        malformed,
        athlinks_row("3", "1:32:00"),
    ];
    let page_two = vec![athlinks_row("51", "3:00:00"), athlinks_row("52", "3:00:01")];
    let pages = [(page_one, Some("&gt;")), (page_two, Some("2"))];

    let mut state = start();
    let mut event = PageEvent::Proceed;
    let mut page = 0;
    let mut batches = Vec::new();
    let mut diagnostics = Vec::new();
    loop {
        let (next, action) = step(state, event);
        state = next;
        event = match action {
            PageAction::ExtractPage => {
                let batch = athlinks::extract_page(&pages[page].0);
                batches.push(batch.records.iter().map(|p| p.rank).collect::<Vec<_>>());
                diagnostics.extend(batch.diagnostics);
                PageEvent::Extracted { has_next: athlinks::has_next(pages[page].1) }
            }
            PageAction::ClickNext => {
                page += 1;
                PageEvent::Advanced
            }
            PageAction::Settle => PageEvent::Proceed,
            PageAction::Finish => break,
            PageAction::Abort | PageAction::Nothing => panic!("the walk went wrong"),
        };
    }
    assert_eq!(state, PaginationState::Done);
    assert_eq!(batches, [vec![1, 2, 3], vec![51, 52]]);
    assert_eq!(diagnostics.len(), 1);
    assert_eq!(diagnostics[0].rule, athlinks::Rule::DivisionRank);
    assert!(diagnostics[0].text.as_deref().unwrap().ends_with("2:00:00"));
}

#[test]
fn athlinks_takes_fifty_rows_of_a_page() {
    let rows: Vec<athlinks::Row> =
        (1..=60).map(|i| athlinks_row(&i.to_string(), "1:00:00")).collect();
    let batch = athlinks::extract_page(&rows);
    assert_eq!(batch.records.len(), 50);
    assert_eq!(batch.records[49].rank, 50);
    assert!(batch.diagnostics.is_empty());
    assert!(athlinks::extract_page(&Vec::new()).records.is_empty());
}

#[test]
fn a_sentinel_row_is_silent_even_if_it_would_parse() {
    let mut row = athlinks_row("17", "1:51:46");
    row.text = text("Jane Doe\nTIME");
    let batch = athlinks::extract_page(&vec![row]);
    assert!(batch.records.is_empty());
    assert!(batch.diagnostics.is_empty());
    let heading =
        athlinks::Row { name: None, details: None, cells: vec![], text: text("RANK\nTIME") };
    let unread = athlinks::Row { name: None, details: None, cells: vec![], text: None };
    let batch = athlinks::extract_page(&vec![heading, unread]);
    assert!(batch.records.is_empty());
    assert_eq!(batch.diagnostics.len(), 1);
    assert_eq!(batch.diagnostics[0].text, None);
    assert_eq!(batch.diagnostics[0].rule, athlinks::Rule::Name);
}
