use lines::tail::{read_lines, tail, ReadError};

fn texts(lines: &[&str]) -> Result<Vec<String>, ReadError> {
    Ok(lines.iter().map(|line| line.to_string()).collect())
}

#[test]
fn the_last_line_is_shown() {
    assert_eq!(tail(b"a\nb\nhello\n", 1), texts(&["hello"]));
}

#[test]
fn the_last_lines_come_in_their_order() {
    assert_eq!(tail(b"a\nb\nc\nd\n", 2), texts(&["c", "d"]));
    assert_eq!(tail(b"a\nb\nc\nd\n", 3), texts(&["b", "c", "d"]));
}

#[test]
fn a_short_file_is_shown_whole() {
    assert_eq!(tail(b"a\nb\n", 2), texts(&["a", "b"]));
    assert_eq!(tail(b"a\nb\n", 3), texts(&["a", "b"]));
    assert_eq!(tail(b"a\nb\n", 10), texts(&["a", "b"]));
    assert_eq!(tail(b"a\nb\n", usize::MAX), texts(&["a", "b"]));
}

#[test]
fn no_lines_are_shown_where_none_are_asked_for() {
    assert_eq!(tail(b"a\nb\n", 0), texts(&[]));
}

#[test]
fn an_empty_file_has_no_lines() {
    assert_eq!(tail(b"", 10), texts(&[]));
    assert_eq!(read_lines(b""), texts(&[]));
}

#[test]
fn blank_lines_are_lines() {
    assert_eq!(read_lines(b"\n"), texts(&[""]));
    assert_eq!(read_lines(b"\n\n"), texts(&["", ""]));
    assert_eq!(read_lines(b"# 2024_02_29\n\n"), texts(&["# 2024_02_29", ""]));
    assert_eq!(tail(b"a\n\n", 1), texts(&[""]));
}

#[test]
fn a_last_line_without_a_line_feed_is_a_line() {
    assert_eq!(read_lines(b"a\nb"), texts(&["a", "b"]));
    assert_eq!(tail(b"a\nb", 1), texts(&["b"]));
    assert_eq!(read_lines(b"only"), texts(&["only"]));
}

#[test]
fn a_carriage_return_before_the_line_feed_ends_the_line_with_it() {
    assert_eq!(read_lines(b"a\r\nb\r\n"), texts(&["a", "b"]));
    assert_eq!(read_lines(b"\r\n"), texts(&[""]));
}

#[test]
fn other_carriage_returns_stay_in_the_line() {
    assert_eq!(read_lines(b"a\rb\n"), texts(&["a\rb"]));
    assert_eq!(read_lines(b"a\r\r\n"), texts(&["a\r"]));
    assert_eq!(read_lines(b"a\nb\r"), texts(&["a", "b\r"]));
}

#[test]
fn lines_are_not_cut_short() {
    let long = "x".repeat(10_000);
    let content = format!("first\n{}\n", long);
    assert_eq!(tail(content.as_bytes(), 1), Ok(vec![long]));
}

#[test]
fn text_beyond_ascii_is_decoded() {
    let content = "gr\u{fc}n\n\u{65e5}\u{672c}\u{8a9e}\n\u{1f600}\n";
    assert_eq!(
        tail(content.as_bytes(), 3),
        texts(&["gr\u{fc}n", "\u{65e5}\u{672c}\u{8a9e}", "\u{1f600}"])
    );
}

#[test]
fn content_that_is_not_text_is_refused() {
    assert_eq!(tail(b"a\n\xff\xfe\nb\n", 1), Err(ReadError::InvalidText));
    assert_eq!(tail(b"\xc3\n", 10), Err(ReadError::InvalidText));
    assert_eq!(read_lines(b"ok\n\xed\xa0\x80"), Err(ReadError::InvalidText));
}

#[test]
fn a_fault_outside_the_tail_is_a_fault_all_the_same() {
    assert_eq!(tail(b"\x80\na\nb\n", 1), Err(ReadError::InvalidText));
    assert_eq!(tail(b"\x80\na\nb\n", 0), Err(ReadError::InvalidText));
}

#[test]
fn a_character_cut_in_two_by_a_line_feed_is_a_fault() {
    assert_eq!(read_lines(b"\xc3\n\xbc\n"), Err(ReadError::InvalidText));
}
