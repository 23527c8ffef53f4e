use clarity_repl::diagnostic::{can_highlight, highlight, Span};

fn span(start_line: u32, start_column: u32, end_line: u32, end_column: u32) -> Span {
    Span { start_line, start_column, end_line, end_column }
}

#[test]
fn one_line_is_painted_from_column_to_column() {
    let spans = vec![span(1, 4, 1, 6)];
    assert!(can_highlight("(+ foo 1)", &spans));
    assert_eq!(highlight("(+ foo 1)", &spans), vec!["(+ \x1b[1;4;31mfoo\x1b[0m 1)"]);
}

#[test]
fn several_lines_are_painted_to_their_ends() {
    let code = "(let\n\n  ((a 1))\n  a)\nrest";
    let spans = vec![span(1, 2, 4, 3)];
    assert!(can_highlight(code, &spans));
    assert_eq!(
        highlight(code, &spans),
        vec![
            "(\x1b[1;4;31mlet\x1b[0m",
            "",
            "\x1b[1;4;31m  ((a 1))\x1b[0m",
            "\x1b[1;4;31m  a\x1b[0m)",
            "rest",
        ]
    );
}

#[test]
fn the_place_zero_counts_as_the_first() {
    assert_eq!(highlight("ab", &vec![span(0, 0, 0, 0)]), vec!["\x1b[1;4;31ma\x1b[0mb"]);
}

#[test]
fn a_later_span_counts_the_escapes_of_an_earlier_one() {
    let spans = vec![span(1, 1, 1, 1), span(1, 1, 1, 1)];
    assert_eq!(
        highlight("ab", &spans),
        vec!["\x1b[1;4;31m\x1b\x1b[0m[1;4;31ma\x1b[0mb"]
    );
}

#[test]
fn columns_are_bytes() {
    assert!(can_highlight("é1", &vec![span(1, 1, 1, 2)]));
    assert_eq!(highlight("é1", &vec![span(1, 1, 1, 2)]), vec!["\x1b[1;4;31mé\x1b[0m1"]);
    assert!(!can_highlight("é1", &vec![span(1, 1, 1, 1)]));
    assert!(!can_highlight("é1", &vec![span(1, 2, 1, 2)]));
}

#[test]
fn spans_beyond_the_line_do_not_fit() {
    assert!(can_highlight("abc", &vec![span(1, 1, 1, 3)]));
    assert!(!can_highlight("abc", &vec![span(1, 1, 1, 4)]));
    assert!(!can_highlight("abc", &vec![span(1, 3, 1, 1)]));
    assert!(can_highlight("abc", &vec![span(1, 3, 1, 2)]));
    assert!(!can_highlight("abc\nd", &vec![span(1, 5, 2, 1)]));
    assert!(can_highlight("abc\nd", &vec![span(1, 4, 2, 1)]));
}

#[test]
fn an_empty_stretch_is_painted_too() {
    assert_eq!(highlight("abc", &vec![span(1, 3, 1, 2)]), vec!["ab\x1b[1;4;31m\x1b[0mc"]);
}

#[test]
fn spans_beyond_the_code_touch_nothing() {
    assert!(can_highlight("abc", &vec![span(5, 90, 7, 90)]));
    assert_eq!(highlight("abc", &vec![span(5, 90, 7, 90)]), vec!["abc"]);
    assert_eq!(highlight("abc", &vec![span(2, 1, 1, 1)]), vec!["abc"]);
}

#[test]
fn carriage_returns_are_not_part_of_a_line() {
    assert_eq!(highlight("ab\r\ncd\r\n", &vec![span(1, 1, 1, 2)]), vec![
        "\x1b[1;4;31mab\x1b[0m",
        "cd",
    ]);
}

#[test]
fn painting_adds_escape_sequences_only() {
    let painted = highlight("one two three", &vec![span(1, 5, 1, 7)]);
    let stripped = painted[0].replace("\x1b[1;4;31m", "").replace("\x1b[0m", "");
    assert_eq!(stripped, "one two three");
}
