use roslyn_proxy::framing::{frame_header, header_step, parse_header_line, HeaderLine, HeaderStep};

#[test]
fn test_parse_content_length_line() {
    let line = b"Content-Length: 123\r\n".to_vec();
    assert!(matches!(parse_header_line(&line), HeaderLine::ContentLength(123)));
}

#[test]
fn test_parse_blank_line_ends_headers() {
    assert!(matches!(parse_header_line(&b"\r\n".to_vec()), HeaderLine::Blank));
    assert!(matches!(parse_header_line(&b"".to_vec()), HeaderLine::Blank));
}

#[test]
fn test_parse_other_header_tolerated() {
    let line = b"Content-Type: application/vscode-jsonrpc; charset=utf-8\r\n".to_vec();
    assert!(matches!(parse_header_line(&line), HeaderLine::Other));
}

#[test]
fn test_parse_bad_content_length() {
    let line = b"Content-Length: abc\r\n".to_vec();
    assert!(matches!(parse_header_line(&line), HeaderLine::BadContentLength));
    let line = b"Content-Length: 12a\r\n".to_vec();
    assert!(matches!(parse_header_line(&line), HeaderLine::BadContentLength));
    let line = b"Content-Length: 99999999999999999999999\r\n".to_vec();
    assert!(matches!(parse_header_line(&line), HeaderLine::BadContentLength));
    // The space after the colon is part of the prefix; without digits the
    // trimmed line no longer matches it and reads as an ordinary header.
    let line = b"Content-Length: \r\n".to_vec();
    assert!(matches!(parse_header_line(&line), HeaderLine::Other));
}

#[test]
fn test_header_step_sequence() {
    let step = header_step(None, &b"Content-Type: x\r\n".to_vec());
    assert!(matches!(step, HeaderStep::NeedMore(None)));

    let step = header_step(None, &b"Content-Length: 42\r\n".to_vec());
    let announced = match step {
        HeaderStep::NeedMore(Some(n)) => n,
        _ => panic!("expected an announced length"),
    };
    assert_eq!(announced, 42);

    let step = header_step(Some(announced), &b"\r\n".to_vec());
    assert!(matches!(step, HeaderStep::Done(42)));
}

#[test]
fn test_header_step_missing_length() {
    let step = header_step(None, &b"\r\n".to_vec());
    assert!(matches!(step, HeaderStep::MissingLength));
}

#[test]
fn test_header_step_bad_length() {
    let step = header_step(None, &b"Content-Length: twelve\r\n".to_vec());
    assert!(matches!(step, HeaderStep::BadLength));
}

#[test]
fn test_frame_header_bytes() {
    assert_eq!(frame_header(5), b"Content-Length: 5\r\n\r\n".to_vec());
    assert_eq!(frame_header(1205), b"Content-Length: 1205\r\n\r\n".to_vec());
    assert_eq!(frame_header(0), b"Content-Length: 0\r\n\r\n".to_vec());
}
