use gitwatch::text::{
    chars_of, has_prefix, joined, lines_of, parse_number, push_decimal, push_padded, push_signed,
    same_text, trim_bounds, trimmed, words_of,
};

fn lines(s: &str) -> Vec<String> {
    lines_of(&chars_of(s)).iter().map(|l| l.iter().collect()).collect()
}

fn words(s: &str) -> Vec<String> {
    words_of(&chars_of(s)).iter().map(|w| w.iter().collect()).collect()
}

fn number(s: &str) -> Option<usize> {
    parse_number(&chars_of(s))
}

#[test]
fn lines_end_at_line_feeds() {
    assert_eq!(lines(""), Vec::<String>::new());
    assert_eq!(lines("a\nb"), vec!["a", "b"]);
    assert_eq!(lines("a\nb\n"), vec!["a", "b"]);
    assert_eq!(lines("a\r\n\r\nb\r"), vec!["a", "", "b\r"]);
    assert_eq!(lines("\n\n"), vec!["", ""]);
    assert_eq!(lines("a\r\r\nb"), vec!["a\r", "b"]);
}

#[test]
fn parts_have_the_lines_of_the_whole() {
    for (first, later) in [("a\r\n\n", "b\nc"), ("", "x\n"), ("x\n", ""), ("\n", "\r\n")] {
        let mut parts = lines(first);
        parts.extend(lines(later));
        assert_eq!(lines(&format!("{first}{later}")), parts);
    }
}

#[test]
fn lines_agree_with_std() {
    for s in ["", "x", "\n", "x\n", "x\r\ny", "\r\n\r\n", "x\ry\n", "é\n\u{2713}\r", "a\n\nb"] {
        let expected: Vec<String> = s.lines().map(|l| l.to_string()).collect();
        assert_eq!(lines(s), expected);
    }
}

#[test]
fn words_are_separated_by_white_space() {
    assert_eq!(words("  +3  -4 \t"), vec!["+3", "-4"]);
    assert_eq!(words(" \n "), Vec::<String>::new());
    assert_eq!(words("a\u{a0}b\u{2003}c"), vec!["a", "b", "c"]);
}

#[test]
fn white_space_agrees_with_std() {
    for code in 0u32..0x11_0000 {
        if let Some(c) = char::from_u32(code) {
            assert_eq!(gitwatch::text::space_char(c), c.is_whitespace());
        }
    }
}

#[test]
fn trimming_cuts_both_ends() {
    assert_eq!(trimmed("  a b \r\n"), "a b");
    assert_eq!(trimmed(" \t\n"), "");
    assert_eq!(trimmed(""), "");
    assert_eq!(trimmed("x"), "x");
    assert_eq!(trim_bounds(&chars_of("ab  c "), 2), (4, 5));
}

#[test]
fn numbers_are_read() {
    assert_eq!(number("0"), Some(0));
    assert_eq!(number("007"), Some(7));
    assert_eq!(number("+12"), Some(12));
    assert_eq!(number("18446744073709551615"), Some(usize::MAX));
    assert_eq!(number("18446744073709551616"), None);
    assert_eq!(number("99999999999999999999999"), None);
    assert_eq!(number(""), None);
    assert_eq!(number("+"), None);
    assert_eq!(number("-1"), None);
    assert_eq!(number("++1"), None);
    assert_eq!(number("1 "), None);
    assert_eq!(number("1x"), None);
}

#[test]
fn numbers_written_in_decimal_read_back() {
    for n in [0usize, 7, 10, 100, 12345, 909090, usize::MAX] {
        let mut s = String::new();
        push_decimal(&mut s, n as u128);
        assert_eq!(s, n.to_string());
        assert_eq!(number(&s), Some(n));
    }
}

#[test]
fn signed_numbers_have_a_minus_sign() {
    for n in [0i64, 5, -5, i64::MAX, i64::MIN] {
        let mut s = String::from("at ");
        push_signed(&mut s, n);
        assert_eq!(s, format!("at {n}"));
    }
}

#[test]
fn names_are_padded_by_characters() {
    for (name, width) in [("api", 8), ("", 3), ("é\u{2713}", 4), ("abc", 3), ("abcd", 3)] {
        let mut s = String::from("<");
        push_padded(&mut s, name, width);
        assert_eq!(s, format!("<{name:<width$}"));
    }
}

#[test]
fn pieces_are_joined() {
    let pieces = vec!["a".to_string(), "".to_string(), "c".to_string()];
    assert_eq!(joined(&pieces, ", "), "a, , c");
    assert_eq!(joined(&Vec::new(), ", "), "");
}

#[test]
fn texts_are_compared() {
    assert!(same_text("true", "true"));
    assert!(!same_text("true", "tru"));
    assert!(!same_text("tru", "true"));
    assert!(!same_text("true", "trux"));
    assert!(has_prefix(&chars_of("# branch"), "# "));
    assert!(!has_prefix(&chars_of("#"), "# "));
    assert!(has_prefix(&chars_of(""), ""));
}
