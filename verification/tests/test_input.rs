use cli_utils::{trim_str, FailingSource, MemorySource, _read_stdin};

#[test]
fn test_read_input() {
    let input = "Hello, world!\n";
    let expected_output = "Hello, world!";
    let mut reader = MemorySource::new(input);
    let output = _read_stdin(&mut reader).unwrap();
    assert_eq!(output, expected_output);
}

#[test]
fn test_read_input_empty() {
    let input = "";
    let expected_output = "";
    let mut reader = MemorySource::new(input);
    let output = _read_stdin(&mut reader).unwrap();
    assert_eq!(output, expected_output);
}

#[test]
fn test_read_input_padded() {
    let mut reader = MemorySource::new("  padded  \n");
    let output = _read_stdin(&mut reader).unwrap();
    assert_eq!(output, "padded");
}

#[test]
fn test_read_input_crlf() {
    let mut reader = MemorySource::new("line\r\n");
    let output = _read_stdin(&mut reader).unwrap();
    assert_eq!(output, "line");
}

#[test]
fn test_read_input_stops_at_first_line() {
    let mut reader = MemorySource::new("first\nsecond\n");
    let output = _read_stdin(&mut reader).unwrap();
    assert_eq!(output, "first");
    let output = _read_stdin(&mut reader).unwrap();
    assert_eq!(output, "second");
}

#[test]
fn test_read_input_no_trailing_newline() {
    let mut reader = MemorySource::new("unterminated");
    let output = _read_stdin(&mut reader).unwrap();
    assert_eq!(output, "unterminated");
}

#[test]
fn test_read_input_failing_source() {
    let mut reader = FailingSource {};
    let output = _read_stdin(&mut reader);
    assert!(output.is_err());
}

#[test]
fn test_trim_both_ends() {
    assert_eq!(trim_str("  a b  "), "a b");
}

#[test]
fn test_trim_all_whitespace() {
    assert_eq!(trim_str(" \t\r\n "), "");
}

#[test]
fn test_trim_unicode_whitespace() {
    assert_eq!(trim_str("\u{a0}\u{2003}text\u{3000}"), "text");
}
