use lsp_stub::frame::{decimal_bytes, parse_header_line, read_frame, write_frame_bytes, FramingError};

#[test]
fn write_frame_has_header_blank_line_and_body() {
    let f = write_frame_bytes(b"hello");
    assert_eq!(f, b"Content-Length: 5\n\nhello".to_vec());
}

#[test]
fn round_trip_recovers_payload() {
    let payload = br#"{"jsonrpc":"2.0","id":1,"method":"initialize","params":{}}"#;
    let f = write_frame_bytes(payload);
    let (body, used) = read_frame(&f).unwrap();
    assert_eq!(body, payload.to_vec());
    assert_eq!(used, f.len());
}

#[test]
fn round_trip_empty_payload() {
    let f = write_frame_bytes(b"");
    assert_eq!(f, b"Content-Length: 0\n\n".to_vec());
    assert_eq!(read_frame(&f), Ok((Vec::new(), f.len())));
}

#[test]
fn round_trip_long_payload() {
    let payload = vec![b'x'; 12345];
    let f = write_frame_bytes(&payload);
    assert!(f.starts_with(b"Content-Length: 12345\n\n"));
    assert_eq!(read_frame(&f), Ok((payload, f.len())));
}

#[test]
fn read_frame_stops_at_declared_length() {
    let input = b"Content-Length: 2\r\n\r\nabcdef";
    assert_eq!(read_frame(input), Ok((b"ab".to_vec(), 23)));
}

#[test]
fn empty_input_is_end_of_stream() {
    assert_eq!(read_frame(b""), Err(FramingError::EndOfStream));
}

#[test]
fn header_without_second_token_is_malformed() {
    assert_eq!(read_frame(b"Content-Length:\n\n{}"), Err(FramingError::MalformedHeader));
    assert_eq!(read_frame(b"\n\n{}"), Err(FramingError::MalformedHeader));
}

#[test]
fn non_numeric_length_is_malformed_length() {
    assert_eq!(read_frame(b"Content-Length: 1x\n\n{}"), Err(FramingError::MalformedLength));
    assert_eq!(read_frame(b"Content-Length: -2\n\n{}"), Err(FramingError::MalformedLength));
}

#[test]
fn oversized_length_is_malformed_length() {
    let input = b"Content-Length: 99999999999999999999999999\n\n";
    assert_eq!(read_frame(input), Err(FramingError::MalformedLength));
}

#[test]
fn extra_header_line_is_malformed_header() {
    let input = b"Content-Length: 2\nContent-Type: x\n\n{}";
    assert_eq!(read_frame(input), Err(FramingError::MalformedHeader));
}

#[test]
fn short_body_is_truncated() {
    assert_eq!(read_frame(b"Content-Length: 10\n\n{}"), Err(FramingError::TruncatedBody));
    assert_eq!(read_frame(b"Content-Length: 10\n"), Err(FramingError::TruncatedBody));
    assert_eq!(read_frame(b"Content-Length: 10"), Err(FramingError::TruncatedBody));
}

#[test]
fn header_line_parsing() {
    assert_eq!(parse_header_line(b"Content-Length: 42\r\n"), Ok(42));
    assert_eq!(parse_header_line(b"  Length   7  "), Ok(7));
    assert_eq!(parse_header_line(b"Content-Length:"), Err(FramingError::MalformedHeader));
    assert_eq!(parse_header_line(b"Content-Length: 4a"), Err(FramingError::MalformedLength));
    assert_eq!(parse_header_line(b"Content-Length: 18446744073709551615"), Ok(usize::MAX));
}

#[test]
fn decimal_spelling() {
    assert_eq!(decimal_bytes(0), b"0".to_vec());
    assert_eq!(decimal_bytes(9), b"9".to_vec());
    assert_eq!(decimal_bytes(1234), b"1234".to_vec());
}

#[test]
fn plus_signed_length_is_accepted() {
    assert_eq!(parse_header_line(b"Content-Length: +5\n"), Ok(5));
    assert_eq!(read_frame(b"Content-Length: +2\n\n{}"), Ok((b"{}".to_vec(), 22)));
    assert_eq!(parse_header_line(b"Content-Length: +\n"), Err(FramingError::MalformedLength));
    assert_eq!(parse_header_line(b"Content-Length: ++5\n"), Err(FramingError::MalformedLength));
}
