use race_results::duration::Duration;
use race_results::options::{ConfigError, Event, Opt, Race, Site, Year, YearProblem};
use race_results::runsignup;

fn opt(event: Event, race: Race, year: u16) -> Opt {
    Opt { event, race, year: Year(year), display: false, participant: false }
}

#[test]
fn runsignup_params() {
    assert_eq!(
        runsignup::Params::new(opt(Event::Shiprock, Race::Full, 2020)),
        Ok(runsignup::Params)
    );
    assert_eq!(
        runsignup::Params::new(opt(Event::Shiprock, Race::Full, 2019)),
        Err(ConfigError::YearUnavailable {
            site: Site::RunSignup,
            event: Event::Shiprock,
            year: Year(2019),
            problem: YearProblem::NotCollected
        })
    );
    assert_eq!(
        runsignup::Params.url(),
        "https://runsignup.com/Race/Results/84435/#resultSetId-189088;perpage:5000"
    );
}

const QUAD_ROW: &str = "<tr data-result-url=\"/Race/Results/84435/IndividualResult/xFHC?resultSetId=189088#U43100135\"><td class=\"place\">1</td><td style=\"text-align: right;\" class=\"bib\">77</td><td class=\"name\">Rickey <b>Gates</b></td><td>Boulder</td><td style=\"text-align: right;\" class=\"time\">3:56:44</td><td>Overall Male Soloists</td><td>1</td><td></td><td>1:30:14</td><td>2:06:05</td></tr>";

#[test]
fn runsignup_reads_a_page() {
    let second = QUAD_ROW.replace(">1</td>", ">2</td>").replace("3:56:44", "4:01:02");
    let broken = QUAD_ROW.replace("3:56:44", "--");
    let dnf = "<tr data-result-url=\"/x\"><td>DNF</td></tr>";
    let page = format!("<table><tr><th>Place</th></tr>{QUAD_ROW}{broken}{dnf}{second}</table>");
    let batch = runsignup::placements(&page);
    assert_eq!(batch.records.len(), 2);
    assert_eq!(batch.records[0].place, "1");
    assert_eq!(batch.records[0].name, "Rickey Gates");
    assert_eq!(batch.records[0].clock_time, Duration { seconds: 14204 });
    assert_eq!(batch.records[1].place, "2");
    assert_eq!(batch.records[1].clock_time, Duration { seconds: 14462 });
    assert_eq!(batch.diagnostics.len(), 1);
    assert_eq!(batch.diagnostics[0].rule, runsignup::Rule::Time);
    assert!(batch.diagnostics[0].text.as_deref().unwrap().starts_with("/Race/Results/84435"));
    let none = runsignup::placements("<table></table>");
    assert!(none.records.is_empty() && none.diagnostics.is_empty());
}

#[test]
fn runsignup_rows_and_names() {
    let p = runsignup::Placement::new(("7", "A <b>B</b> <b>C", Duration { seconds: 9 }));
    assert_eq!((p.place.as_str(), p.name.as_str(), p.clock_time.seconds), ("7", "A B C", 9));
    let row = |s: &str| runsignup::placement(&s.chars().collect::<Vec<char>>());
    assert_eq!(row("<td>1</td>").err(), Some(runsignup::Rule::Place));
    assert_eq!(row("x\"><td class=\"place\">1</td>").err(), Some(runsignup::Rule::Name));
    assert_eq!(
        row("x\"><td class=\"place\">1</td><td class=\"name\">A</td>").err(),
        Some(runsignup::Rule::Time)
    );
    let ok = row("x\"><td class=\"place\">1</td><td class=\"name\">A</td><td class=\"time\">59:59<")
        .unwrap();
    assert_eq!(ok.clock_time.seconds, 3599);
}
