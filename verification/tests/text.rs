use clarity_repl::text::{
    characters, is_before, is_same, join, lines, replace, split_on, starts_with, to_decimal,
    to_number,
};

fn strings(items: &[&str]) -> Vec<String> {
    items.iter().map(|item| item.to_string()).collect()
}

#[test]
fn characters_are_code_points() {
    assert_eq!(characters("aé→"), vec!['a', 'é', '→']);
    assert!(characters("").is_empty());
}

#[test]
fn prefixes_are_found() {
    assert!(starts_with("::get_accounts now", "::get_accounts"));
    assert!(starts_with("abc", ""));
    assert!(!starts_with("ab", "abc"));
    assert!(!starts_with("xbc", "ab"));
}

#[test]
fn same_texts_are_the_same() {
    assert!(is_same("::help", "::help"));
    assert!(!is_same("::help", "::help "));
}

#[test]
fn every_separator_separates() {
    assert_eq!(split_on("a b c", ' '), strings(&["a", "b", "c"]));
    assert_eq!(split_on("a  b", ' '), strings(&["a", "", "b"]));
    assert_eq!(split_on(" ", ' '), strings(&["", ""]));
    assert_eq!(split_on("", ' '), strings(&[""]));
}

#[test]
fn split_agrees_with_the_standard_library() {
    for text in ["", " ", "a", "a b", " a b ", "  ", "é é", "a\tb"] {
        let expected: Vec<String> = text.split(' ').map(|piece| piece.to_string()).collect();
        assert_eq!(split_on(text, ' '), expected);
        assert_eq!(join(&split_on(text, ' '), " "), text);
    }
}

#[test]
fn joined_pieces_are_split_again() {
    for pieces in [vec![""], vec!["a"], vec!["a", ""], vec!["", "é", "", "b"]] {
        assert_eq!(split_on(&join(&strings(&pieces), " "), ' '), strings(&pieces));
    }
}

#[test]
fn lines_agree_with_the_standard_library() {
    for text in [
        "", "\n", "a", "a\n", "a\nb", "a\r\nb", "a\r\r\nb", "a\r", "\r\n", "\r", "a\n\nb\n\n",
    ] {
        let expected: Vec<String> = text.lines().map(|line| line.to_string()).collect();
        assert_eq!(lines(text), expected);
    }
}

#[test]
fn joining_puts_the_separator_between() {
    assert_eq!(join(&strings(&["a", "b", "c"]), "\n"), "a\nb\nc");
    assert_eq!(join(&strings(&["a"]), "\n"), "a");
    assert_eq!(join(&strings(&[]), "\n"), "");
}

#[test]
fn replacing_agrees_with_the_standard_library() {
    for (text, pattern, with) in [
        ("aaa", "aa", "b"),
        ("a b c", " ", ""),
        ("line\nline", "\n", " "),
        ("::describe_function ::describe_function x", "::describe_function", ""),
        ("", "x", "y"),
        ("ab", "abc", "y"),
    ] {
        assert_eq!(replace(text, pattern, with), text.replace(pattern, with));
    }
}

#[test]
fn decimals_are_written() {
    assert_eq!(to_decimal(0), "0");
    assert_eq!(to_decimal(10), "10");
    assert_eq!(to_decimal(907), "907");
    assert_eq!(to_decimal(u128::MAX), "340282366920938463463374607431768211455");
}

#[test]
fn numbers_are_read() {
    assert_eq!(to_number("0", 10), Some(0));
    assert_eq!(to_number("+7", 10), Some(7));
    assert_eq!(to_number("0010", 10), Some(10));
    assert_eq!(to_number("11", 10), None);
    assert_eq!(to_number("", 10), None);
    assert_eq!(to_number("+", 10), None);
    assert_eq!(to_number("-1", 10), None);
    assert_eq!(to_number("++1", 10), None);
    assert_eq!(to_number(" 1", 10), None);
    assert_eq!(to_number("1x", 10), None);
}

#[test]
fn numbers_agree_with_the_standard_library() {
    for text in [
        "0", "+0", "-0", "4294967295", "4294967296", "18446744073709551615",
        "18446744073709551616", "99999999999999999999999999999999999999999", "1_0", "٣",
    ] {
        assert_eq!(to_number(text, u32::MAX as u64), text.parse::<u32>().ok().map(|n| n as u64));
        assert_eq!(to_number(text, u64::MAX), text.parse::<u64>().ok());
    }
}

#[test]
fn decimals_are_read_back() {
    for n in [0u64, 9, 10, 1234567890, u64::MAX] {
        assert_eq!(to_number(&to_decimal(n as u128), u64::MAX), Some(n));
    }
}

#[test]
fn order_agrees_with_the_standard_library() {
    let words = ["", "a", "aa", "ab", "b", "B", "é", "→", "zz", "map-get?", "map-set"];
    for a in words {
        for b in words {
            assert_eq!(is_before(a, b), a < b);
        }
    }
}
