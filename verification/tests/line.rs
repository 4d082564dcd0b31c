use dp_net::line::{message_line, LineError, LineReader};

fn read_all(bytes: &[u8]) -> Vec<Result<String, String>> {
    let mut reader = LineReader::new();
    let mut lines = Vec::new();
    for b in bytes {
        match reader.read_line(Some(*b)) {
            Some(Ok(s)) => lines.push(Ok(s)),
            Some(Err(e)) => lines.push(Err(format!("{:?}", e))),
            None => {}
        }
    }
    lines
}

#[test]
fn message_is_text_and_newline() {
    assert_eq!(message_line("{}"), b"{}\n".to_vec());
    assert_eq!(message_line(""), b"\n".to_vec());
    assert_eq!(message_line("é"), vec![0xc3, 0xa9, 10]);
}

#[test]
fn written_messages_come_back_in_order() {
    let texts = ["{\"type\":\"Subscribe\"}", "", "größe \u{1f600}"];
    let mut bytes = Vec::new();
    for t in texts {
        bytes.extend(message_line(t));
    }
    let expected: Vec<Result<String, String>> = texts.iter().map(|t| Ok(t.to_string())).collect();
    assert_eq!(read_all(&bytes), expected);
}

#[test]
fn line_without_end_is_not_read() {
    assert_eq!(read_all(b"abc"), vec![]);
    assert_eq!(read_all(b"a\nb"), vec![Ok("a".to_string())]);
}

#[test]
fn closed_stream() {
    let mut reader = LineReader::new();
    assert!(reader.read_line(Some(b'x')).is_none());
    assert!(matches!(reader.read_line(None), Some(Err(LineError::Closed))));
}

#[test]
fn line_that_is_no_text() {
    let mut reader = LineReader::new();
    assert!(reader.read_line(Some(0xff)).is_none());
    match reader.read_line(Some(b'\n')) {
        Some(Err(LineError::Invalid(e))) => assert_eq!(e.into_bytes(), vec![0xff]),
        other => panic!("{:?}", other),
    }
    assert!(reader.read_line(Some(b'a')).is_none());
    assert!(matches!(reader.read_line(Some(b'\n')), Some(Ok(s)) if s == "a"));
}
