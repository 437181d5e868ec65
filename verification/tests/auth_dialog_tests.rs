use nm_openvpn_sso::auth_dialog::{format_secrets_output, parse_stdin_protocol};

#[test]
fn parses_well_formed_stdin() {
    let input = "DATA_KEY=foo\nDATA_VAL=bar\nSECRET_KEY=username\nSECRET_VAL=alice\nDONE\n";
    let ctx = parse_stdin_protocol(input);
    assert_eq!(ctx.data.get("foo"), Some(&"bar".to_string()));
    assert_eq!(ctx.secrets.get("username"), Some(&"alice".to_string()));
}

#[test]
fn stops_at_done_marker() {
    let input = "DATA_KEY=foo\nDATA_VAL=bar\nDONE\nDATA_KEY=ignored\nDATA_VAL=ignored\n";
    let ctx = parse_stdin_protocol(input);
    assert_eq!(ctx.data.len(), 1);
}

#[test]
fn handles_missing_done_marker_at_eof() {
    let input = "DATA_KEY=foo\nDATA_VAL=bar\n";
    let ctx = parse_stdin_protocol(input);
    assert_eq!(ctx.data.get("foo"), Some(&"bar".to_string()));
}

#[test]
fn ignores_unmatched_key_without_value() {
    let input = "DATA_KEY=foo\nSECRET_KEY=bar\nDONE\n";
    let ctx = parse_stdin_protocol(input);
    assert!(ctx.data.is_empty());
    assert!(ctx.secrets.is_empty());
}

#[test]
fn handles_empty_input() {
    let ctx = parse_stdin_protocol("");
    assert!(ctx.data.is_empty());
    assert!(ctx.secrets.is_empty());
}

#[test]
fn formats_secrets_output_with_terminator() {
    let out = format_secrets_output("alice", "s3cret");
    assert_eq!(out, "username\nalice\npassword\ns3cret\n\n");
}

use nm_openvpn_sso::auth_dialog::{parse_stdin_lines, ProtocolReader, StdinContext};
use nm_openvpn_sso::text::split_lines;

#[test]
fn accepts_crlf_line_endings() {
    let ctx = parse_stdin_protocol("SECRET_KEY=password\r\nSECRET_VAL=pw\r\nDONE\r\n");
    assert_eq!(ctx.secrets.get("password"), Some(&"pw".to_string()));
}

#[test]
fn value_of_the_other_kind_clears_the_pending_key() {
    let ctx = parse_stdin_protocol("DATA_KEY=a\nSECRET_VAL=x\nDATA_VAL=y\nDONE\n");
    assert!(ctx.data.is_empty());
    assert!(ctx.secrets.is_empty());
}

#[test]
fn later_value_for_the_same_key_wins() {
    let ctx = parse_stdin_protocol("DATA_KEY=a\nDATA_VAL=1\nnoise\nDATA_KEY=a\nDATA_VAL=2\n");
    assert_eq!(ctx.data.get("a"), Some(&"2".to_string()));
    assert_eq!(ctx.data.len(), 1);
}

#[test]
fn eof_reads_the_same_as_done() {
    let body = "DATA_KEY=a\nDATA_VAL=1\nSECRET_KEY=s\nSECRET_VAL=2\n";
    let with_done = format!("{}DONE\nDATA_KEY=b\nDATA_VAL=3\n", body);
    let a = parse_stdin_protocol(body);
    let b = parse_stdin_protocol(&with_done);
    assert_eq!(a.data.get("a"), b.data.get("a"));
    assert_eq!(a.data.len(), b.data.len());
    assert_eq!(a.secrets.get("s"), b.secrets.get("s"));
    assert_eq!(b.data.get("b"), None);
}

#[test]
fn reader_wants_no_more_after_done() {
    let mut reader = ProtocolReader::new();
    assert!(reader.feed("DATA_KEY=k"));
    assert!(reader.feed("DATA_VAL=v"));
    assert!(!reader.feed("DONE"));
    assert!(!reader.feed("DATA_KEY=late"));
    let ctx = reader.finish();
    assert_eq!(ctx.data.get("k"), Some(&"v".to_string()));
}

#[test]
fn parse_lines_matches_parse_text() {
    let lines = vec!["DATA_KEY=username".to_string(), "DATA_VAL=bob".to_string()];
    let ctx = parse_stdin_lines(&lines);
    assert_eq!(ctx.known_username(), Some("bob".to_string()));
}

#[test]
fn known_username_prefers_the_secret() {
    let ctx = parse_stdin_protocol(
        "DATA_KEY=username\nDATA_VAL=static\nSECRET_KEY=username\nSECRET_VAL=live\nDONE\n",
    );
    assert_eq!(ctx.known_username(), Some("live".to_string()));
    let empty = StdinContext::default();
    assert_eq!(empty.known_username(), None);
}

#[test]
fn secrets_output_reads_back_line_by_line() {
    let out = format_secrets_output("alice", "s3cret");
    assert_eq!(split_lines(&out), vec!["username", "alice", "password", "s3cret", ""]);
    let out = format_secrets_output("", "pw\r");
    assert_eq!(split_lines(&out), vec!["username", "", "password", "pw", ""]);
}
