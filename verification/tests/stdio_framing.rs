use emberflow::framing::{classify_stdio_line, StdioLine, MAX_CONTENT_LENGTH};

#[test]
fn blank_lines_are_skipped() {
    assert_eq!(classify_stdio_line("\n"), StdioLine::Blank);
    assert_eq!(classify_stdio_line("\r\n"), StdioLine::Blank);
    assert_eq!(classify_stdio_line(""), StdioLine::Blank);
}

#[test]
fn content_length_headers_are_read() {
    assert_eq!(classify_stdio_line("Content-Length: 42\r\n"), StdioLine::ContentLength(42));
    assert_eq!(classify_stdio_line("Content-Length:7"), StdioLine::ContentLength(7));
    assert_eq!(classify_stdio_line("Content-Length:  +15  \n"), StdioLine::ContentLength(15));
    assert_eq!(
        classify_stdio_line("Content-Length: 10485760\n"),
        StdioLine::ContentLength(MAX_CONTENT_LENGTH)
    );
}

#[test]
fn oversized_content_lengths_are_refused() {
    assert_eq!(
        classify_stdio_line("Content-Length: 10485761\r\n"),
        StdioLine::TooLong(10485761)
    );
}

#[test]
fn invalid_content_lengths_are_reported_with_their_value() {
    assert_eq!(
        classify_stdio_line("Content-Length: abc\n"),
        StdioLine::BadLength("abc".to_string())
    );
    assert_eq!(
        classify_stdio_line("Content-Length: \n"),
        StdioLine::BadLength(String::new())
    );
    assert_eq!(
        classify_stdio_line("Content-Length: -3\n"),
        StdioLine::BadLength("-3".to_string())
    );
    assert_eq!(
        classify_stdio_line("Content-Length: +\n"),
        StdioLine::BadLength("+".to_string())
    );
    let huge = "99999999999999999999999999";
    assert_eq!(
        classify_stdio_line(&format!("Content-Length: {huge}\n")),
        StdioLine::BadLength(huge.to_string())
    );
    assert!(huge.parse::<usize>().is_err());
}

#[test]
fn other_lines_are_requests() {
    assert_eq!(
        classify_stdio_line("{\"jsonrpc\":\"2.0\",\"id\":1}\r\n"),
        StdioLine::Request("{\"jsonrpc\":\"2.0\",\"id\":1}".to_string())
    );
    assert_eq!(
        classify_stdio_line("content-length: 3\n"),
        StdioLine::Request("content-length: 3".to_string())
    );
}
