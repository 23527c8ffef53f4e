use clarity_repl::paint::{paint_error, paint_plain, Colour};
use clarity_repl::table::{are_measurable, is_measurable};

#[test]
fn colours_have_their_codes() {
    assert_eq!(paint_plain(Colour::Black, "x"), "\x1b[30mx\x1b[0m");
    assert_eq!(paint_plain(Colour::Red, "x"), "\x1b[31mx\x1b[0m");
    assert_eq!(paint_plain(Colour::Green, "x"), "\x1b[32mx\x1b[0m");
    assert_eq!(paint_plain(Colour::Yellow, "x"), "\x1b[33mx\x1b[0m");
    assert_eq!(paint_plain(Colour::Blue, ""), "\x1b[34m\x1b[0m");
}

#[test]
fn errors_are_bold_and_underlined() {
    assert_eq!(paint_error("foo"), "\x1b[1;4;31mfoo\x1b[0m");
}

#[test]
fn plain_text_is_measured() {
    assert!(is_measurable(""));
    assert!(is_measurable("ST1 → é"));
}

#[test]
fn escapes_have_to_be_ascii() {
    assert!(is_measurable("\x1b[31mé\x1b[0m"));
    assert!(!is_measurable("\x1b[31é"));
    assert!(is_measurable("\x1b[31\né"));
    assert!(is_measurable("\x1b\x1b[é"));
    assert!(!is_measurable("a\x1b[é"));
}

#[test]
fn every_cell_counts() {
    let good = vec![vec!["a".to_string()], vec![]];
    assert!(are_measurable(&good));
    let bad = vec![vec!["a".to_string()], vec!["b".to_string(), "\x1b[é".to_string()]];
    assert!(!are_measurable(&bad));
}
