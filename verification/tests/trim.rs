use clipboard_master::trim::is_space_char;
use clipboard_master::trim::lines;

#[test]
fn trailing_spaces_are_trimmed_per_line() {
    let text = String::from("one  \ntwo\t\nthree");
    assert_eq!(lines(&text), Some(String::from("one\ntwo\nthree")));
}

#[test]
fn already_trimmed_text_is_reported_unchanged() {
    assert_eq!(lines(&String::from("one\ntwo\nthree")), None);
    assert_eq!(lines(&String::from("x")), None);
    assert_eq!(lines(&String::from("\n")), None);
    assert_eq!(lines(&String::new()), None);
}

#[test]
fn final_newline_is_kept_and_missing_one_stays_missing() {
    assert_eq!(lines(&String::from("a \n")), Some(String::from("a\n")));
    assert_eq!(lines(&String::from("a \nb ")), Some(String::from("a\nb")));
    assert_eq!(lines(&String::from("a\n")), None);
}

#[test]
fn carriage_return_line_endings_become_newlines() {
    assert_eq!(lines(&String::from("a\r\nb")), Some(String::from("a\nb")));
    assert_eq!(lines(&String::from("a\r\nb\r\n")), Some(String::from("a\nb\n")));
}

#[test]
fn unicode_whitespace_is_trimmed() {
    let text = String::from("wide\u{3000}\nthin\u{2009}");
    assert_eq!(lines(&text), Some(String::from("wide\nthin")));
}

#[test]
fn blank_lines_survive() {
    assert_eq!(lines(&String::from("a\n\nb ")), Some(String::from("a\n\nb")));
    assert_eq!(lines(&String::from("a\n\nb")), None);
}

#[test]
fn whitespace_only_text_is_emptied_per_line() {
    assert_eq!(lines(&String::from("   ")), Some(String::from("")));
    assert_eq!(lines(&String::from("  \n  ")), Some(String::from("\n")));
}

#[test]
fn whitespace_classification_matches_std() {
    for c in [' ', '\t', '\n', '\r', '\u{a0}', '\u{2003}', '\u{200a}', '\u{3000}'] {
        assert!(is_space_char(c));
        assert!(c.is_whitespace());
    }
    for c in ['x', '0', '-', '\u{200b}'] {
        assert!(!is_space_char(c));
        assert!(!c.is_whitespace());
    }
}
