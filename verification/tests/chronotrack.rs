use race_results::chronotrack;
use race_results::chronotrack::{choose_the_race, MenuError, RaceChoice};
use race_results::duration::Duration;
use race_results::options::{ConfigError, Event, Opt, Race, Site, Year, YearProblem};

fn opt(event: Event, race: Race, year: u16) -> Opt {
    Opt { event, race, year: Year(year), display: false, participant: false }
}

#[test]
fn chronotrack_years_and_races() {
    assert_eq!(chronotrack::url_for_year(&Year(2017)), Ok("24236"));
    assert_eq!(chronotrack::url_for_year(&Year(2018)), Ok("33304"));
    assert_eq!(chronotrack::url_for_year(&Year(2019)), Ok("40479"));
    assert_eq!(chronotrack::url_for_year(&Year(2020)), Err(YearProblem::Virtual));
    assert_eq!(chronotrack::url_for_year(&Year(2021)), Err(YearProblem::Virtual));
    assert_eq!(chronotrack::url_for_year(&Year(2022)), Err(YearProblem::Offline));
    assert_eq!(chronotrack::url_for_year(&Year(2016)), Err(YearProblem::TooEarly));
    assert_eq!(chronotrack::menu_item_for(&Race::Full), Some("Shiprock Marathon"));
    assert_eq!(chronotrack::menu_item_for(&Race::Half), Some("Shiprock Half Marathon"));
    assert_eq!(chronotrack::menu_item_for(&Race::Relay), Some("Shiprock Marathon Relay"));
    assert_eq!(chronotrack::menu_item_for(&Race::TenK), Some("Shiprock 10k"));
    assert_eq!(chronotrack::menu_item_for(&Race::FiveK), Some("Shiprock 5k"));
    assert_eq!(chronotrack::menu_item_for(&Race::Handcycle), Some("Shiprock Marathon Handcycle"));
    assert_eq!(chronotrack::menu_item_for(&Race::TenKRuck), None);
    assert_eq!(chronotrack::menu_item_for(&Race::SoloMaleHeavy), None);
}

#[test]
fn chronotrack_params() {
    let p = chronotrack::Params::new(opt(Event::Shiprock, Race::Half, 2019)).unwrap();
    assert_eq!(p.menu_item, "Shiprock Half Marathon");
    assert_eq!(p.url(), "https://results.chronotrack.com/event/results/event/event-40479");
    assert_eq!(
        chronotrack::Params::new(opt(Event::Shiprock, Race::Half, 2020)).err(),
        Some(ConfigError::YearUnavailable {
            site: Site::Chronotrack,
            event: Event::Shiprock,
            year: Year(2020),
            problem: YearProblem::Virtual
        })
    );
    let refused = chronotrack::Params::new(opt(Event::Shiprock, Race::Half, 2020)).err().unwrap();
    assert_eq!(refused.message(), "Year 2020 is not supported: That year was virtual");
    let early = chronotrack::Params::new(opt(Event::Shiprock, Race::Half, 2016)).err().unwrap();
    assert_eq!(early.message(), "Year 2016 is not supported: Too early");
    let p = chronotrack::Params::new(opt(Event::Shiprock, Race::Half, 2018)).unwrap();
    assert_eq!(p.url(), "https://results.chronotrack.com/event/results/event/event-33304");
    assert_eq!(
        chronotrack::Params::new(opt(Event::Shiprock, Race::TenKRuck, 2019)).err(),
        Some(ConfigError::RaceUnavailable { event: Event::Shiprock, race: Race::TenKRuck })
    );
    assert!(chronotrack::has_next(Some("fg-button ui-button")));
    assert!(!chronotrack::has_next(Some("fg-button ui-state-disabled")));
    assert!(!chronotrack::has_next(None));
    assert_eq!(chronotrack::ROWS_PER_PAGE, 100);
}

const MENU: &str = "<option value=\"119\">Shiprock Marathon</option>\n\
    <option value=\"120\" selected=\"\">Shiprock Half Marathon</option>\
    <option value=\"121\">Shiprock 10k</option>";

#[test]
fn chronotrack_reads_the_race_list() {
    let options = chronotrack::value_map_from_options(MENU).unwrap();
    let got: Vec<(&str, bool, &str)> =
        options.iter().map(|o| (o.value.as_str(), o.selected, o.label.as_str())).collect();
    assert_eq!(
        got,
        [
            ("119", false, "Shiprock Marathon"),
            ("120", true, "Shiprock Half Marathon"),
            ("121", false, "Shiprock 10k")
        ]
    );
    assert!(chronotrack::value_map_from_options("").is_none());
    assert!(chronotrack::value_map_from_options("<option value=\"1\">A</option> ").is_none());
    assert!(chronotrack::value_map_from_options("<option value=\"1\">A</option><p>").is_none());
    assert!(chronotrack::value_map_from_options("<option value=\"1\"selected=\"\">A</option>")
        .is_none());
    assert!(chronotrack::value_map_from_options("<option value=\"1\">A").is_none());
}

#[test]
fn chronotrack_chooses_the_race() {
    assert!(matches!(
        choose_the_race(MENU, "Shiprock Marathon"),
        Ok(RaceChoice::Select(v)) if v == "119"
    ));
    assert!(matches!(choose_the_race(MENU, "Shiprock Half Marathon"), Ok(RaceChoice::Keep)));
    assert!(matches!(choose_the_race(MENU, "Shiprock 5k"), Err(MenuError::NoSuchItem)));
    assert!(matches!(choose_the_race("<select>", "Shiprock 5k"), Err(MenuError::Unreadable)));
    let twice = "<option value=\"1\">A</option><option value=\"2\">A</option>";
    assert!(matches!(choose_the_race(twice, "A"), Ok(RaceChoice::Select(v)) if v == "2"));
}

fn cell(class: &str, text: &str) -> String {
    format!("<td class=\"ui-widget-content bazu-{class}\"><span>{text}</span></td>")
}

fn chronotrack_row(rank: &str, time: &str, age: Option<&str>, sex: Option<&str>) -> String {
    let mut row = String::from("\n<tr id=\"r\" class=\"odd\">");
    row += &cell("rank", rank);
    row += &cell("name", "Jane Doe");
    row += &cell("bib", "12");
    row += &cell("time", time);
    row += &cell("pace", "8:32");
    row += &cell("hometown", "Taos, NM");
    if let Some(age) = age {
        row += &cell("age", age);
    }
    if let Some(sex) = sex {
        row += &cell("sex", sex);
    }
    row += &cell("agroup", "F30-34");
    row += &cell("agrank", "1");
    row += "\n</tr>";
    row
}

fn chronotrack_page(rows: &[String]) -> String {
    format!(
        "<html><table><thead><tr><th>x</th></tr></thead>\
         <tbody class=\"ui-widget-content\" role=\"alert\" aria-live=\"polite\">{}</tbody></table>",
        rows.concat()
    )
}

#[test]
fn chronotrack_reads_a_page() {
    let page = chronotrack_page(&[
        chronotrack_row("1", "1:51:46", Some("30"), Some("F")),
        chronotrack_row("2", "1:52:00", None, Some("M")),
        chronotrack_row("3", "1:53:00", Some("31"), None),
        chronotrack_row("4", "1:54:00", None, None),
    ]);
    let batch = chronotrack::placements(&page).unwrap();
    assert!(batch.diagnostics.is_empty());
    assert_eq!(batch.records.len(), 4);
    let first = &batch.records[0];
    assert_eq!(first.rank, 1);
    assert_eq!(first.name, "Jane Doe");
    assert_eq!(first.bib, "12");
    assert_eq!(first.time, Duration { seconds: 6706 });
    assert_eq!(first.pace, Duration { seconds: 512 });
    assert_eq!(first.hometown, "Taos, NM");
    assert_eq!(first.age, Some(30));
    assert_eq!(first.sex.as_deref(), Some("F"));
    assert_eq!(first.division, "F30-34");
    assert_eq!(first.division_rank, 1);
    assert_eq!((batch.records[1].age, batch.records[1].sex.as_deref()), (None, Some("M")));
    assert_eq!((batch.records[2].age, batch.records[2].sex.as_deref()), (Some(31), None));
    assert_eq!((batch.records[3].age, batch.records[3].sex.as_deref()), (None, None));
}

#[test]
fn chronotrack_discards_a_bad_row_and_goes_on() {
    let page = chronotrack_page(&[
        chronotrack_row("1", "1:51:46", Some("30"), Some("F")),
        chronotrack_row("2", "soon", Some("30"), Some("F")),
        chronotrack_row("0", "1:52:00", Some("30"), Some("F")),
        chronotrack_row("3", "1:53:00", Some("old"), Some("F")),
        "<tr class=\"x\"><td>DNF</td></tr>".to_string(),
        chronotrack_row("4", "1:54:00", Some("30"), Some("F")),
    ]);
    let batch = chronotrack::placements(&page).unwrap();
    let ranks: Vec<u16> = batch.records.iter().map(|p| p.rank).collect();
    assert_eq!(ranks, [1, 4]);
    let rules: Vec<chronotrack::Rule> = batch.diagnostics.iter().map(|d| d.rule).collect();
    assert_eq!(
        rules,
        [chronotrack::Rule::Time, chronotrack::Rule::Rank, chronotrack::Rule::Division]
    );
    assert!(batch.diagnostics[0].text.as_deref().unwrap().contains("soon"));
    assert!(batch.diagnostics[0].text.as_deref().unwrap().ends_with("</tr>"));
}

#[test]
fn chronotrack_needs_the_result_table() {
    assert!(chronotrack::placements("<html><table><tbody></tbody></table>").is_none());
    let empty = chronotrack_page(&[]);
    let batch = chronotrack::placements(&empty).unwrap();
    assert!(batch.records.is_empty() && batch.diagnostics.is_empty());
}

#[test]
fn chronotrack_cells() {
    let s: Vec<char> = format!("  {}rest", cell("bib", "12")).chars().collect();
    let (text, next) = chronotrack::td(&s, 0, "bib").unwrap();
    assert_eq!(text.iter().collect::<String>(), "12");
    assert_eq!(s[next..].iter().collect::<String>(), "rest");
    assert!(chronotrack::td(&s, 0, "name").is_none());
    assert!(chronotrack::td(&s, 3, "bib").is_none());
    let row: Vec<char> = " \n<tr class=\"a\"> </tr>x".chars().collect();
    let open = chronotrack::tr(&row, 0).unwrap();
    assert_eq!(row[open..].iter().collect::<String>(), " </tr>x");
    let close = chronotrack::close_tr(&row, open).unwrap();
    assert_eq!(row[close..].iter().collect::<String>(), "x");
    assert!(chronotrack::tr(&row, open).is_none());
    assert!(chronotrack::close_tr(&row, 0).is_none());
}

fn rule_of(row: &str) -> Option<chronotrack::Rule> {
    chronotrack::placement(&row.chars().collect::<Vec<char>>(), 0).err()
}

#[test]
fn chronotrack_names_the_rule_that_fails() {
    let good = chronotrack_row("1", "1:51:46", Some("30"), Some("F"));
    assert_eq!(rule_of(&good), None);
    assert_eq!(rule_of("<td>1</td>"), Some(chronotrack::Rule::Row));
    assert_eq!(rule_of(&good.replace("bazu-rank", "bazu-place")), Some(chronotrack::Rule::Rank));
    assert_eq!(rule_of(&good.replace("bazu-name", "bazu-who")), Some(chronotrack::Rule::Name));
    assert_eq!(rule_of(&good.replace("bazu-bib", "bazu-number")), Some(chronotrack::Rule::Bib));
    assert_eq!(rule_of(&good.replace("1:51:46", "1:51:46.2")), Some(chronotrack::Rule::Time));
    assert_eq!(rule_of(&good.replace("8:32", "8.32")), Some(chronotrack::Rule::Pace));
    assert_eq!(
        rule_of(&good.replace("bazu-hometown", "bazu-town")),
        Some(chronotrack::Rule::Hometown)
    );
    assert_eq!(
        rule_of(&good.replace("bazu-agroup", "bazu-group")),
        Some(chronotrack::Rule::Division)
    );
    assert_eq!(
        rule_of(&good.replace("bazu-agrank", "bazu-grouprank")),
        Some(chronotrack::Rule::DivisionRank)
    );
    assert_eq!(rule_of(&good.replace("</tr>", "<td></td></tr>")), Some(chronotrack::Rule::End));
}

#[test]
fn chronotrack_takes_a_sentinel_row_in_silence() {
    let page = chronotrack_page(&[
        "<tr class=\"head\"><th>PLACE</th>\n<th>TIME</th></tr>".to_string(),
        chronotrack_row("1", "1:51:46", Some("30"), Some("F")),
        "<tr class=\"x\"><td>Jane</td>\n<td>DNF</td></tr>".to_string(),
        "<tr class=\"x\"><td>Jane</td>\n<td>DNS</td></tr>".to_string(),
    ]);
    let batch = chronotrack::placements(&page).unwrap();
    assert_eq!(batch.records.len(), 1);
    assert_eq!(batch.diagnostics.len(), 1);
    assert!(batch.diagnostics[0].text.as_deref().unwrap().contains("DNS"));
}
