use race_results::number::{
    decimal_string, parse_positive_u16, parse_positive_u8, parse_u16, parse_u8, parse_unsigned,
};
use race_results::text::{
    chars_of, contains, find_from, is_blank, lines, split, strip_prefix, strip_suffix, without,
};

fn chars(s: &str) -> Vec<char> {
    s.chars().collect()
}

fn strings(pieces: Vec<Vec<char>>) -> Vec<String> {
    pieces.into_iter().map(|p| p.into_iter().collect()).collect()
}

#[test]
fn chars_of_keeps_every_character() {
    assert_eq!(chars_of("a\u{e9}\u{1f600}z"), vec!['a', '\u{e9}', '\u{1f600}', 'z']);
    assert_eq!(chars_of(""), Vec::<char>::new());
}

#[test]
fn find_gives_the_first_occurrence() {
    let s = chars("abcabc");
    assert_eq!(find_from(&s, &chars("bc"), 0), Some(1));
    assert_eq!(find_from(&s, &chars("bc"), 2), Some(4));
    assert_eq!(find_from(&s, &chars("bc"), 5), None);
    assert_eq!(find_from(&s, &chars("x"), 0), None);
    assert_eq!(find_from(&s, &chars(""), 6), Some(6));
    assert_eq!(find_from(&s, &chars(""), 7), None);
    assert!(contains(&s, &chars("cab")));
    assert!(!contains(&s, &chars("cba")));
}

#[test]
fn split_cuts_as_the_standard_library_does() {
    for (text, pat) in [
        ("M 34", " "),
        ("", " "),
        (" ", " "),
        ("a  b", " "),
        ("Did Not Finish - 12", " - "),
        ("aaaa", "aa"),
        ("aaa", "aa"),
        ("name (# 12) (# 13)", " (# "),
        ("one\ntwo\n", "\n"),
    ] {
        let expected: Vec<String> = text.split(pat).map(str::to_string).collect();
        assert_eq!(strings(split(&chars(text), &chars(pat))), expected, "{text:?} by {pat:?}");
    }
}

#[test]
fn lines_are_cut_at_line_feeds() {
    assert_eq!(strings(lines(&chars("a\nb\nDNF"))), ["a", "b", "DNF"]);
    assert_eq!(strings(lines(&chars("whole"))), ["whole"]);
    assert_eq!(strings(lines(&chars(""))), [""]);
}

#[test]
fn strips_what_is_there() {
    assert_eq!(strip_prefix(&chars("Bib 123"), &chars("Bib ")), Some(chars("123")));
    assert_eq!(strip_prefix(&chars("bib 123"), &chars("Bib ")), None);
    assert_eq!(strip_prefix(&chars("Bi"), &chars("Bib ")), None);
    assert_eq!(strip_suffix(&chars("8:32/mile"), &chars("/mile")), Some(chars("8:32")));
    assert_eq!(strip_suffix(&chars("8:32/km"), &chars("/mile")), None);
    assert_eq!(strip_suffix(&chars("ile"), &chars("/mile")), None);
}

#[test]
fn without_takes_every_occurrence_out() {
    assert_eq!(without(&chars("Rickey <b>Gates</b>"), &chars("<b>")), chars("Rickey Gates</b>"));
    assert_eq!(without(&chars("aXbXc"), &chars("X")), chars("abc"));
    assert_eq!(without(&chars("abc"), &chars("X")), chars("abc"));
}

#[test]
fn blank_is_white_space_only() {
    assert!(is_blank(&chars("")));
    assert!(is_blank(&chars(" \t\n\r\u{a0}\u{2003}\u{3000}")));
    assert!(!is_blank(&chars(" x ")));
    assert!(!is_blank(&chars("\u{200b}")));
    for c in (0..=0x3100u32).filter_map(char::from_u32) {
        assert_eq!(is_blank(&[c]), c.is_whitespace(), "{:x}", c as u32);
    }
}

#[test]
fn numbers_are_read_as_the_standard_library_reads_them() {
    for text in ["0", "7", "007", "+7", "255", "256", "65535", "65536", "", "+", "-1", "1 ", " 1",
        "1a", "++1", "99999999999999999999999999"] {
        assert_eq!(parse_u8(&chars(text)), text.parse::<u8>().ok(), "{text:?}");
        assert_eq!(parse_u16(&chars(text)), text.parse::<u16>().ok(), "{text:?}");
        assert_eq!(
            parse_unsigned(&chars(text), u64::MAX),
            text.parse::<u64>().ok(),
            "{text:?}"
        );
    }
    assert_eq!(parse_unsigned(&chars("18446744073709551615"), u64::MAX), Some(u64::MAX));
    assert_eq!(parse_unsigned(&chars("18446744073709551616"), u64::MAX), None);
}

#[test]
fn positive_numbers_exclude_zero() {
    assert_eq!(parse_positive_u16(&chars("0")), None);
    assert_eq!(parse_positive_u16(&chars("000")), None);
    assert_eq!(parse_positive_u16(&chars("1")), Some(1));
    assert_eq!(parse_positive_u16(&chars("65535")), Some(65535));
    assert_eq!(parse_positive_u8(&chars("0")), None);
    assert_eq!(parse_positive_u8(&chars("34")), Some(34));
    assert_eq!(parse_positive_u8(&chars("300")), None);
}

#[test]
fn decimal_string_has_no_leading_zeros() {
    assert_eq!(decimal_string(0), "0");
    assert_eq!(decimal_string(9), "9");
    assert_eq!(decimal_string(10), "10");
    assert_eq!(decimal_string(34346), "34346");
    assert_eq!(decimal_string(u64::MAX), "18446744073709551615");
}

#[test]
fn scanning_moves_forward() {
    let s = chars(" \t\r\n<tr a=\"b\">x</tr>");
    assert_eq!(race_results::scan::skip_space(&s, 0), 4);
    assert_eq!(race_results::scan::skip_space(&s, 4), 4);
    assert_eq!(race_results::scan::skip_space(&s, s.len()), s.len());
    assert_eq!(race_results::scan::expect(&s, 4, &chars("<tr ")), Some(8));
    assert_eq!(race_results::scan::expect(&s, 3, &chars("<tr ")), None);
    assert_eq!(race_results::scan::expect(&s, s.len(), &chars("")), Some(s.len()));
    assert_eq!(race_results::scan::until(&s, 0, &chars(">")), Some(13));
    assert_eq!(race_results::scan::until(&s, 14, &chars(">")), Some(19));
    assert_eq!(race_results::scan::until(&s, 20, &chars(">")), None);
    assert_eq!(race_results::scan::past(&s, 0, &chars(">")), Some(14));
    assert_eq!(race_results::scan::past(&s, 0, &chars("</tr>")), Some(s.len()));
    assert_eq!(race_results::scan::past(&s, 0, &chars("</td>")), None);
}

#[test]
fn markup_text_is_what_stands_outside_the_tags() {
    let text = |s: &str, inside: bool| -> String {
        race_results::scan::markup_text(&chars(s), inside).into_iter().collect()
    };
    assert_eq!(text("<td class=\"a\">Jane</td>\n<td>DNF</td>", false), "Jane\nDNF");
    assert_eq!(text("x\" class=\"a\"><td>1</td>", true), "1");
    assert_eq!(text("x\" class=\"a\"><td>1</td>", false), "x\" class=\"a\">1");
    assert_eq!(text("a > b < c", false), "a > b ");
    assert_eq!(text("", false), "");
}
