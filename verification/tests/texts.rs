use rslint_runner::number::decimal;
use rslint_runner::pattern::{
    check_capture, check_captures, restyle, restyle_found, splice, Capture,
};
use rslint_runner::style::{Color, Style};
use rslint_runner::text::{
    byte_slice, byte_tail, char_start_before, check_boundary, check_span, find,
};

fn capture(start: usize, end: usize, group: (usize, usize)) -> Capture {
    Capture { start, end, group: Some(group) }
}

#[test]
fn decimal_of_counts() {
    assert_eq!(decimal(0), "0");
    assert_eq!(decimal(7), "7");
    assert_eq!(decimal(10), "10");
    assert_eq!(decimal(42), "42");
    assert_eq!(decimal(1090), "1090");
    assert_eq!(decimal(usize::MAX), usize::MAX.to_string());
}

#[test]
fn boundaries_of_characters() {
    let text = "aé€b";
    assert!(check_boundary(text, 0));
    assert!(check_boundary(text, 1));
    assert!(!check_boundary(text, 2));
    assert!(check_boundary(text, 3));
    assert!(!check_boundary(text, 4));
    assert!(!check_boundary(text, 5));
    assert!(check_boundary(text, 6));
    assert!(check_boundary(text, 7));
    assert!(!check_boundary(text, 8));
    assert!(check_boundary("", 0));
    assert!(!check_boundary("", 1));
}

#[test]
fn spans_of_whole_characters() {
    let text = "aé€b";
    assert!(check_span(text, 1, 3));
    assert!(check_span(text, 3, 3));
    assert!(check_span(text, 0, 7));
    assert!(!check_span(text, 3, 1));
    assert!(!check_span(text, 1, 2));
    assert!(!check_span(text, 2, 3));
    assert!(!check_span(text, 0, 8));
}

#[test]
fn slices_by_byte_offsets() {
    let text = "aé€b";
    assert_eq!(byte_slice(text, 1, 3), "é");
    assert_eq!(byte_slice(text, 1, 6), "é€");
    assert_eq!(byte_slice(text, 0, 7), text);
    assert_eq!(byte_slice(text, 6, 6), "");
    assert_eq!(byte_tail(text, 3), "€b");
    assert_eq!(byte_tail(text, 7), "");
    assert_eq!(byte_tail(text, 0), text);
}

#[test]
fn find_gives_the_first_occurrence() {
    assert_eq!(find("abcabc", "bc"), Some(1));
    assert_eq!(find("abcabc", "abc"), Some(0));
    assert_eq!(find("abcabc", "cab"), Some(2));
    assert_eq!(find("abcabc", "abcabc"), Some(0));
    assert_eq!(find("abcabc", "abcabca"), None);
    assert_eq!(find("abcabc", "x"), None);
    assert_eq!(find("aab", "ab"), Some(1));
    assert_eq!(find("é€b", "b"), Some(5));
    assert_eq!(find("é€b", "€"), Some(2));
    assert_eq!(find("", "a"), None);
    assert_eq!(find("abc", ""), Some(0));
    assert_eq!(find("", ""), Some(0));
}

#[test]
fn start_of_the_character_before_an_offset() {
    let text = "aé€b";
    assert_eq!(char_start_before(text, 0), 0);
    assert_eq!(char_start_before(text, 1), 0);
    assert_eq!(char_start_before(text, 3), 1);
    assert_eq!(char_start_before(text, 6), 3);
    assert_eq!(char_start_before(text, 7), 6);
    assert_eq!(char_start_before(text, 5), 3);
}

#[test]
fn captures_that_fit_a_text() {
    let text = "aé€b";
    assert!(check_capture(text, 0, capture(0, 3, (1, 3))));
    assert!(check_capture(text, 1, capture(1, 1, (1, 1))));
    assert!(!check_capture(text, 2, capture(1, 3, (1, 3))));
    assert!(!check_capture(text, 0, capture(0, 2, (0, 1))));
    assert!(!check_capture(text, 0, capture(0, 3, (1, 2))));
    assert!(!check_capture(text, 0, capture(3, 1, (1, 1))));
    assert!(!check_capture(text, 0, capture(0, 9, (0, 1))));
    assert!(!check_capture(text, 0, Capture { start: 0, end: 1, group: None }));

    assert!(check_captures(text, &vec![]));
    assert!(check_captures(text, &vec![capture(0, 1, (0, 1)), capture(1, 3, (1, 3)), capture(6, 7, (6, 7))]));
    assert!(!check_captures(text, &vec![capture(1, 3, (1, 3)), capture(0, 1, (0, 1))]));
    assert!(!check_captures(text, &vec![capture(0, 3, (0, 1)), capture(1, 6, (1, 3))]));
    assert!(!check_captures(text, &vec![capture(0, 1, (0, 1)), capture(1, 2, (1, 2))]));
}

#[test]
fn splice_replaces_each_match_by_its_insert() {
    let text = "one two three";
    let found = vec![capture(0, 3, (0, 3)), capture(4, 7, (4, 7))];
    let inserts = vec!["1".to_string(), "<2>".to_string()];
    assert_eq!(splice(text, &found, &inserts), "1 <2> three");
    assert_eq!(splice(text, &vec![], &vec![]), text);
    assert_eq!(splice(text, &vec![capture(0, 13, (0, 0))], &vec![String::new()]), "");
    assert_eq!(
        splice(text, &vec![capture(3, 3, (3, 3)), capture(13, 13, (13, 13))], &vec!["!".to_string(), "?".to_string()]),
        "one! two three?"
    );
    assert_eq!(
        splice("é€", &vec![capture(2, 5, (2, 5))], &vec!["e".to_string()]),
        "ée"
    );
}

#[test]
fn restyle_paints_the_first_group_of_each_match() {
    let bold = Style { bold: true, foreground: None, background: None };
    assert_eq!(restyle("a [b] c [d]", "\\[(.)\\]", &bold), "a \u{1b}[1mb\u{1b}[0m c \u{1b}[1md\u{1b}[0m");
    let red_on_yellow =
        Style { bold: false, foreground: Some(Color::Red), background: Some(Color::Yellow) };
    assert_eq!(restyle("x=[é]", "\\[(.)\\]", &red_on_yellow), "x=\u{1b}[43;31mé\u{1b}[0m");
    let all = Style { bold: true, foreground: Some(Color::Rgb(1, 20, 255)), background: Some(Color::Rgb(0, 9, 100)) };
    assert_eq!(
        restyle("[q]", "\\[(.)\\]", &all),
        "\u{1b}[1;48;2;0;9;100;38;2;1;20;255mq\u{1b}[0m"
    );
    let plain = Style { bold: false, foreground: None, background: None };
    assert_eq!(restyle("a [b] c", "\\[(.)\\]", &plain), "a b c");
    let white = Style { bold: false, foreground: Some(Color::White), background: Some(Color::Green) };
    assert_eq!(restyle("[w]", "\\[(.)\\]", &white), "\u{1b}[42;37mw\u{1b}[0m");
}

#[test]
fn restyle_without_a_match_changes_nothing() {
    let bold = Style { bold: true, foreground: None, background: None };
    assert_eq!(restyle("nothing here", "\\[(.)\\]", &bold), "nothing here");
    assert_eq!(restyle("", "\\[(.)\\]", &bold), "");
}

#[test]
fn restyle_with_a_pattern_that_is_none_changes_nothing() {
    let bold = Style { bold: true, foreground: None, background: None };
    assert_eq!(restyle("a (b", "(b", &bold), "a (b");
}

#[test]
fn restyle_with_a_pattern_without_a_group_changes_nothing() {
    let bold = Style { bold: true, foreground: None, background: None };
    assert_eq!(restyle("a b c", "b", &bold), "a b c");
}

#[test]
fn styles_of_the_explanations() {
    assert_eq!(Style::heading(), Style { bold: true, foreground: Some(Color::White), background: None });
    assert_eq!(
        Style::inline_code(),
        Style { bold: false, foreground: Some(Color::White), background: Some(Color::Rgb(42, 42, 42)) }
    );
    assert_eq!(Style::label(), Style { bold: false, foreground: Some(Color::Green), background: None });
}

#[test]
fn restyle_found_paints_the_group_of_each_given_match() {
    let bold = Style { bold: true, foreground: None, background: None };
    let text = "a [b] c [é]";
    let found = vec![capture(2, 5, (3, 4)), capture(8, 12, (9, 11))];
    assert_eq!(
        restyle_found(text, &found, &bold),
        "a \u{1b}[1mb\u{1b}[0m c \u{1b}[1mé\u{1b}[0m"
    );
    assert_eq!(restyle_found(text, &vec![found[0]], &bold), "a \u{1b}[1mb\u{1b}[0m c [é]");
    assert_eq!(restyle_found(text, &vec![capture(0, 12, (12, 12))], &bold), "\u{1b}[1m\u{1b}[0m");
    assert_eq!(restyle_found(text, &vec![], &bold), text);
}

#[test]
fn restyle_found_leaves_the_text_where_the_matches_do_not_fit() {
    let bold = Style { bold: true, foreground: None, background: None };
    let text = "a [b] c [é]";
    assert_eq!(restyle_found(text, &vec![capture(8, 12, (9, 11)), capture(2, 5, (3, 4))], &bold), text);
    assert_eq!(restyle_found(text, &vec![capture(8, 12, (9, 10))], &bold), text);
    assert_eq!(restyle_found(text, &vec![capture(8, 13, (9, 11))], &bold), text);
    assert_eq!(
        restyle_found(text, &vec![Capture { start: 2, end: 5, group: None }], &bold),
        text
    );
}
