use nm_openvpn_sso::text::{
    decimal_string, eq_ignore_ascii_case_str, parse_u16_str, split_lines, split_once_str,
    split_str, strip_prefix_str, trim_quotes_str, trim_str,
};

#[test]
fn trim_removes_unicode_white_space_at_both_ends() {
    assert_eq!(trim_str(" \t\u{3000}a b\u{85}\n"), "a b");
    assert_eq!(trim_str("   "), "");
    assert_eq!(trim_str("x"), "x");
}

#[test]
fn trim_quotes_removes_every_leading_and_trailing_quote() {
    assert_eq!(trim_quotes_str("\"\"value\""), "value");
    assert_eq!(trim_quotes_str("\"a\"b\""), "a\"b");
    assert_eq!(trim_quotes_str("\"\""), "");
}

#[test]
fn split_keeps_empty_pieces_like_str_split() {
    assert_eq!(split_str("a, b, c", ", "), vec!["a", "b", "c"]);
    assert_eq!(split_str("a,,b,", ","), vec!["a", "", "b", ""]);
    assert_eq!(split_str("", ":"), vec![""]);
    assert_eq!(split_str("aaa", "aa"), vec!["", "a"]);
}

#[test]
fn split_once_splits_at_the_first_match() {
    assert_eq!(
        split_once_str("k = v = w", " = "),
        Some(("k".to_string(), "v = w".to_string()))
    );
    assert_eq!(split_once_str("no separator", " = "), None);
}

#[test]
fn lines_drop_line_endings_like_bufread_lines() {
    assert_eq!(split_lines("a\r\nb\nc"), vec!["a", "b", "c"]);
    assert_eq!(split_lines("a\n\nb\n"), vec!["a", "", "b"]);
    assert_eq!(split_lines("last\r"), vec!["last\r"]);
    assert!(split_lines("").is_empty());
}

#[test]
fn strip_prefix_gives_the_rest() {
    assert_eq!(strip_prefix_str("DATA_KEY=foo", "DATA_KEY="), Some("foo".to_string()));
    assert_eq!(strip_prefix_str("DATA_KEY", "DATA_KEY="), None);
}

#[test]
fn eq_ignore_ascii_case_folds_only_ascii_letters() {
    assert!(eq_ignore_ascii_case_str("TrUe", "true"));
    assert!(!eq_ignore_ascii_case_str("true ", "true"));
    assert!(!eq_ignore_ascii_case_str("Ä", "ä"));
}

#[test]
fn parse_u16_accepts_what_from_str_accepts() {
    assert_eq!(parse_u16_str("1194"), Some(1194));
    assert_eq!(parse_u16_str("+80"), Some(80));
    assert_eq!(parse_u16_str("0080"), Some(80));
    assert_eq!(parse_u16_str("65535"), Some(65535));
    assert_eq!(parse_u16_str("65536"), None);
    assert_eq!(parse_u16_str("99999999999"), None);
    assert_eq!(parse_u16_str(""), None);
    assert_eq!(parse_u16_str("+"), None);
    assert_eq!(parse_u16_str("-1"), None);
    assert_eq!(parse_u16_str(" 1"), None);
    assert_eq!(parse_u16_str("12a"), None);
    for s in ["1194", "+80", "65536", "", "+", "-1", "x"] {
        assert_eq!(parse_u16_str(s), s.parse::<u16>().ok(), "input {:?}", s);
    }
}

#[test]
fn decimal_string_matches_to_string() {
    for n in [0u16, 7, 10, 443, 1194, 65535] {
        assert_eq!(decimal_string(n), n.to_string());
    }
}

#[test]
fn port_text_reads_back_as_the_port() {
    for n in [0u16, 9, 10, 99, 100, 1194, 65535] {
        assert_eq!(parse_u16_str(&decimal_string(n)), Some(n));
    }
}
