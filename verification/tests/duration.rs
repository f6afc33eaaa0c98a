use race_results::duration::Duration;

#[test]
fn reads_hours_minutes_seconds() {
    assert_eq!(Duration::parse("01:02:03"), Some(Duration { seconds: 3723 }));
    assert_eq!(Duration::parse("1:02:03"), Some(Duration { seconds: 3723 }));
    assert_eq!(Duration::parse("101:46:03"), Some(Duration { seconds: 366363 }));
}

#[test]
fn reads_minutes_seconds() {
    assert_eq!(Duration::parse("45:10"), Some(Duration { seconds: 2710 }));
    assert_eq!(Duration::parse("8:32"), Some(Duration { seconds: 512 }));
    assert_eq!(Duration::parse("00:00"), Some(Duration { seconds: 0 }));
}

#[test]
fn refuses_what_is_no_clock_time() {
    for text in [
        "", "5", ":", "1:2", "101:46:3", "1:02:03.5", "45:10.2", "1:60:00", "61:00", "1:00:60",
        "-1:00", "+1:00", " 1:00", "1:00 ", "1:2:03", "1:02:03:04", "a:bc", "123:00", "DNF",
    ] {
        assert_eq!(Duration::parse(text), None, "{text:?}");
    }
}

#[test]
fn refuses_a_time_beyond_sixty_four_bits() {
    assert_eq!(Duration::parse("5124095576030431:00:15"), Some(Duration { seconds: u64::MAX }));
    assert_eq!(Duration::parse("5124095576030431:00:16"), None);
    assert_eq!(Duration::parse("99999999999999999999999:00:00"), None);
}

#[test]
fn writes_without_hours_below_one_hour() {
    assert_eq!(Duration::new(2710).to_text(), "45:10");
    assert_eq!(Duration::new(0).to_text(), "00:00");
    assert_eq!(Duration::new(3599).to_text(), "59:59");
}

#[test]
fn writes_hours_in_two_digits_or_more() {
    assert_eq!(Duration::new(3723).to_text(), "01:02:03");
    assert_eq!(Duration::new(3600).to_text(), "01:00:00");
    assert_eq!(Duration::new(366363).to_text(), "101:46:03");
    assert_eq!(Duration::new(u64::MAX).to_text(), "5124095576030431:00:15");
}

#[test]
fn text_round_trips_through_a_duration() {
    for text in ["01:02:03", "45:10", "00:00", "101:46:03", "23:59:59"] {
        let d = Duration::parse(text).unwrap();
        assert_eq!(d.to_text(), text);
    }
}

#[test]
fn duration_round_trips_through_text() {
    for seconds in [0u64, 1, 59, 60, 3599, 3600, 35999, 36000, 86399, 366363, u64::MAX] {
        let d = Duration::new(seconds);
        assert_eq!(Duration::parse(&d.to_text()), Some(d));
    }
}
