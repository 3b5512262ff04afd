use zidian::handlers::{
    cancel_message, candidate_response, connection_status, is_nonzi_char, parse_zistring,
    quiz_offset, size_message, size_report, ParseState, ZI_PUNCTUATION,
};
use zidian::text::{chars_of, first_char};

fn strings(v: &[&str]) -> Vec<String> {
    v.iter().map(|s| s.to_string()).collect()
}

#[test]
fn connection_status_by_size() {
    assert_eq!(connection_status(1), "Connected to database");
    assert_eq!(connection_status(20000), "Connected to database");
    assert_eq!(connection_status(0), "Could not connect to database");
    assert_eq!(connection_status(-1), "Could not connect to database");
}

#[test]
fn size_message_text() {
    assert_eq!(
        size_message(12345, "2024-01-02"),
        "The dictionary presently contains 12345 entries. Last updated on 2024-01-02"
    );
    assert_eq!(
        size_message(0, "x"),
        "The dictionary presently contains 0 entries. Last updated on x"
    );
    assert_eq!(
        size_message(i64::MIN, ""),
        format!("The dictionary presently contains {} entries. Last updated on ", i64::MIN)
    );
    assert_eq!(
        size_message(i64::MAX, ""),
        format!("The dictionary presently contains {} entries. Last updated on ", i64::MAX)
    );
}

#[test]
fn size_report_formats_the_utc_date() {
    assert_eq!(
        size_report(3, 0),
        Some("The dictionary presently contains 3 entries. Last updated on 1970-01-01".to_string())
    );
    assert_eq!(
        size_report(3, 1_700_000_000),
        Some("The dictionary presently contains 3 entries. Last updated on 2023-11-14".to_string())
    );
    assert_eq!(
        size_report(3, -1),
        Some("The dictionary presently contains 3 entries. Last updated on 1969-12-31".to_string())
    );
}

#[test]
fn size_report_out_of_range() {
    assert_eq!(size_report(3, i64::MAX), None);
}

#[test]
fn cancel_message_text() {
    assert_eq!(cancel_message(), "Form canceled");
}

#[test]
fn candidate_response_empty_and_not() {
    assert_eq!(candidate_response(""), "<br /><br />No hanzi available for request");
    assert_eq!(
        candidate_response("<button>x</button>"),
        "<br /><br />Select one hanzi from this list:</br><button>x</button>"
    );
}

#[test]
fn quiz_offset_keeps_every_offset_up_to_size() {
    assert_eq!(quiz_offset(0, 10), 0);
    assert_eq!(quiz_offset(9, 10), 9);
    // the last row (offset dbsize - 1) can be drawn
    assert_eq!(quiz_offset(10, 10), 10);
    assert_eq!(quiz_offset(11, 10), 10);
    assert_eq!(quiz_offset(i64::MAX, 10), 10);
    assert_eq!(quiz_offset(0, 0), 0);
    for n in 0..=10 {
        assert_eq!(quiz_offset(n, 10), n);
    }
}

#[test]
fn quiz_draw_of_the_last_row() {
    // 11 entries, a draw of 0.99: offset round(0.99 * 10) = 10 is the last row
    let dbsize: i64 = 11;
    let size = dbsize - 1;
    let numlin = (0.99f64 * (size as f64)).round() as i64;
    assert_eq!(quiz_offset(numlin, size), 10);
}

#[test]
fn nonzi_classification() {
    assert!(is_nonzi_char('a'));
    assert!(is_nonzi_char(' '));
    assert!(is_nonzi_char('\u{1FFF}'));
    assert!(is_nonzi_char('。'));
    assert!(is_nonzi_char('，'));
    assert!(is_nonzi_char('\u{2003}'));
    assert!(is_nonzi_char('•'));
    assert!(!is_nonzi_char('中'));
    assert!(!is_nonzi_char('\u{2000}'));
    assert!(!is_nonzi_char('…'));
}

#[test]
fn punctuation_is_the_original_list() {
    assert_eq!(ZI_PUNCTUATION, "。，“”（）、《》—；：！？「」\u{2003}【】『』％‘’•");
    for c in ZI_PUNCTUATION.chars() {
        assert!(is_nonzi_char(c));
    }
}

#[test]
fn parse_mixed_text() {
    let s = "你好, world";
    let mut lookups = vec![Vec::new(); s.chars().count()];
    lookups[0] = strings(&["ni3"]);
    lookups[1] = strings(&["hao3", "hao4"]);
    let st = parse_zistring(s, &lookups);
    assert_eq!(st.parsed, " ni3 hao3/hao4   , world");
    assert!(st.unknown.is_empty());
    assert!(st.nonzi);
}

#[test]
fn parse_unknown_characters() {
    let s = "中国。龘";
    let lookups = vec![strings(&["zhong1", "zhong4"]), Vec::new(), Vec::new(), Vec::new()];
    let st = parse_zistring(s, &lookups);
    assert_eq!(st.parsed, " zhong1/zhong4 国   。 龘");
    assert_eq!(st.unknown, strings(&["国", "龘"]));
    assert!(!st.nonzi);
}

#[test]
fn parse_empty_string() {
    let st = parse_zistring("", &Vec::new());
    assert_eq!(st.parsed, "");
    assert!(st.unknown.is_empty());
    assert!(!st.nonzi);
}

#[test]
fn parse_copies_latin_text_after_three_spaces() {
    let s = "Hello, 2024!";
    let lookups = vec![strings(&["ignored"]); s.chars().count()];
    let st = parse_zistring(s, &lookups);
    assert_eq!(st.parsed, "   Hello, 2024!");
    assert!(st.unknown.is_empty());
}

#[test]
fn parse_step_by_step_matches_whole_parse() {
    let s = "a中b";
    let lookups = vec![Vec::new(), strings(&["zhong1"]), Vec::new()];
    let mut st = ParseState::new();
    for (c, py) in s.chars().zip(lookups.iter()) {
        st.step(c, py);
    }
    let whole = parse_zistring(s, &lookups);
    assert_eq!(st.parsed, whole.parsed);
    assert_eq!(st.parsed, "   a zhong1   b");
    assert_eq!(st.unknown, whole.unknown);
}

#[test]
fn parse_all_found_reports_nothing() {
    let s = "好好";
    let lookups = vec![strings(&["hao3"]), strings(&["hao3"])];
    let st = parse_zistring(s, &lookups);
    assert_eq!(st.parsed, " hao3 hao3");
    assert!(st.unknown.is_empty());
}

#[test]
fn first_char_of_strings() {
    assert_eq!(first_char("中国"), Some('中'));
    assert_eq!(first_char(""), None);
    assert_eq!(chars_of("ab中"), vec!['a', 'b', '中']);
}

#[test]
fn size_report_has_a_date_across_the_stated_range() {
    assert!(size_report(1, 8_000_000_000_000).is_some());
    assert!(size_report(1, -8_000_000_000_000).is_some());
    assert_eq!(size_report(1, i64::MIN), None);
}

#[test]
fn parse_of_a_concatenation_joins_the_parts() {
    let s1 = "中a";
    let s2 = "b国";
    let l1 = vec![strings(&["zhong1"]), Vec::new()];
    let l2 = vec![Vec::new(), Vec::new()];
    let mut l12 = l1.clone();
    l12.extend(l2.clone());
    let p1 = parse_zistring(s1, &l1);
    let p2 = parse_zistring(s2, &l2);
    let p12 = parse_zistring("中ab国", &l12);
    // both sides of the join are copied characters: the three spaces that
    // open the second part are dropped
    assert_eq!(p12.parsed, format!("{}{}", p1.parsed, &p2.parsed[3..]));
    assert_eq!(p12.parsed, " zhong1   ab 国");
    let mut unknown = p1.unknown.clone();
    unknown.extend(p2.unknown.clone());
    assert_eq!(p12.unknown, unknown);
}

#[test]
fn parse_of_a_concatenation_without_merge() {
    let l1 = vec![Vec::new()];
    let l2 = vec![strings(&["hao3"])];
    let p1 = parse_zistring("x", &l1);
    let p2 = parse_zistring("好", &l2);
    let p12 = parse_zistring("x好", &vec![Vec::new(), strings(&["hao3"])]);
    assert_eq!(p12.parsed, format!("{}{}", p1.parsed, p2.parsed));
    assert_eq!(p12.parsed, "   x hao3");
}
