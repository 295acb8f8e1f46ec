use tgt_core::state::auth::InputField;
use tgt_core::text::{
    contains_text, line_start, next_char_boundary, one_line, parse_i32, prev_char_boundary,
    trim_range,
};

#[test]
fn boundaries_step_over_whole_characters() {
    let s = "a\u{e9}\u{1f600}z";
    assert_eq!(next_char_boundary(s, 0), 1);
    assert_eq!(next_char_boundary(s, 1), 3);
    assert_eq!(next_char_boundary(s, 3), 7);
    assert_eq!(prev_char_boundary(s, 7), 3);
    assert_eq!(prev_char_boundary(s, 3), 1);
    assert_eq!(prev_char_boundary(s, 1), 0);
}

#[test]
fn typing_and_erasing_undo_each_other_in_the_middle_of_a_text() {
    let mut field = InputField {
        text: "a\u{e9}z".to_string(),
        cursor: 3,
    };
    field.insert_char('\u{1f600}');
    assert_eq!(field.text, "a\u{e9}\u{1f600}z");
    assert_eq!(field.cursor, 7);
    field.backspace();
    assert_eq!(field.text, "a\u{e9}z");
    assert_eq!(field.cursor, 3);
    field.delete();
    assert_eq!(field.text, "a\u{e9}");
    assert_eq!(field.cursor, 3);
}

#[test]
fn moving_the_cursor_keeps_the_text_and_stops_at_the_ends() {
    let mut field = InputField {
        text: "\u{e9}b".to_string(),
        cursor: 0,
    };
    field.move_left();
    assert_eq!(field.cursor, 0);
    field.move_right();
    assert_eq!(field.cursor, 2);
    field.end();
    assert_eq!(field.cursor, 3);
    field.move_right();
    assert_eq!(field.cursor, 3);
    field.home();
    assert_eq!(field.cursor, 0);
    field.backspace();
    assert_eq!(field.text, "\u{e9}b");
}

#[test]
fn one_line_takes_the_first_line_trimmed_and_cut() {
    assert_eq!(one_line("  hello \r\nworld", 10), "hello");
    assert_eq!(one_line("", 10), "");
    assert_eq!(one_line("\nsecond", 10), "");
    assert_eq!(one_line("abcdef", 6), "abcdef");
    assert_eq!(one_line("abcdefg", 6), "abcde\u{2026}");
    assert_eq!(one_line("\u{3000}wide\u{a0}", 10), "wide");
    // A zero-width space is no white space.
    assert_eq!(one_line("\u{200b}x", 10), "\u{200b}x");
}

#[test]
fn a_trimmed_range_can_be_empty() {
    let v: Vec<char> = " \t ".chars().collect();
    let (from, to) = trim_range(&v, 0, 3);
    assert_eq!(from, to);
    let v: Vec<char> = " a b ".chars().collect();
    assert_eq!(trim_range(&v, 0, 5), (1, 4));
    assert_eq!(trim_range(&v, 2, 5), (3, 4));
}

#[test]
fn a_text_is_found_wherever_it_stands() {
    assert!(contains_text("hello", ""));
    assert!(contains_text("", ""));
    assert!(contains_text("hello", "hell"));
    assert!(contains_text("hello", "lo"));
    assert!(contains_text("aaab", "aab"));
    assert!(!contains_text("hello", "world"));
    assert!(!contains_text("hi", "hii"));
}

#[test]
fn a_line_starts_behind_the_last_line_feed() {
    assert_eq!(line_start("abc", 3), 0);
    assert_eq!(line_start("ab\ncd", 5), 3);
    assert_eq!(line_start("ab\ncd", 2), 0);
    assert_eq!(line_start("\u{e9}\n\n", 4), 4);
}

#[test]
fn only_a_whole_integer_that_fits_is_parsed() {
    assert_eq!(parse_i32("42"), Some(42));
    assert_eq!(parse_i32("+7"), Some(7));
    assert_eq!(parse_i32("-2147483648"), Some(i32::MIN));
    assert_eq!(parse_i32("2147483647"), Some(i32::MAX));
    assert_eq!(parse_i32("2147483648"), None);
    assert_eq!(parse_i32(""), None);
    assert_eq!(parse_i32("-"), None);
    assert_eq!(parse_i32("1 "), None);
    assert_eq!(parse_i32("0012"), Some(12));
}
