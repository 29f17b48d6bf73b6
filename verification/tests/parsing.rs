use minihttp::request::{HTMLRequest, Header, Helper, RequestError};

#[test]
fn parse_recovers_all_components() {
    let raw = "GET /path HTTP/1.1\r\nHost: example.com\r\nAccept: */*\r\n\r\nhello body";
    let req = HTMLRequest::from_requeststr(raw).unwrap();
    assert_eq!(req.method, "GET");
    assert_eq!(req.endpoint, "/path");
    // the request line ends in \r\n on the wire; splitting the head on
    // bare newlines leaves the carriage return on the version token
    assert_eq!(req.version, "HTTP/1.1\r");
    assert_eq!(req.header.len(), 2);
    assert_eq!(req.header[0].key, "Host");
    assert_eq!(req.header[0].value, "example.com");
    assert_eq!(req.header[1].key, "Accept");
    assert_eq!(req.header[1].value, "*/*");
    assert_eq!(req.body, "hello body");
}

#[test]
fn parse_keeps_body_verbatim_after_first_blank_line() {
    let raw = "POST /x HTTP/1.1\r\nA: b\r\n\r\nline one\r\n\r\nline two";
    let req = HTMLRequest::from_requeststr(raw).unwrap();
    assert_eq!(req.body, "line one\r\n\r\nline two");
}

#[test]
fn parse_trims_trailing_null_padding() {
    let raw = "GET / HTTP/1.1\r\n\r\nabc\0\0\0\0";
    let req = HTMLRequest::from_requeststr(raw).unwrap();
    assert_eq!(req.method, "GET");
    assert_eq!(req.header.len(), 0);
    assert_eq!(req.body, "abc");
}

#[test]
fn parse_empty_body_with_padding() {
    let raw = "GET / HTTP/1.1\r\n\r\n\0\0\0";
    let req = HTMLRequest::from_requeststr(raw).unwrap();
    assert_eq!(req.body, "");
}

#[test]
fn parse_missing_separator_fails_empty() {
    let r = HTMLRequest::from_requeststr("GET / HTTP/1.1\r\nHost: x");
    assert!(matches!(r, Err(RequestError::EmptyRequest)));
}

#[test]
fn parse_blank_input_fails_empty() {
    assert!(matches!(
        HTMLRequest::from_requeststr(""),
        Err(RequestError::EmptyRequest)
    ));
    assert!(matches!(
        HTMLRequest::from_requeststr("   \r\n  "),
        Err(RequestError::EmptyRequest)
    ));
    assert!(matches!(
        HTMLRequest::from_requeststr("\0\0\0\0"),
        Err(RequestError::EmptyRequest)
    ));
}

#[test]
fn parse_short_request_line_fails() {
    let r = HTMLRequest::from_requeststr("GETONLY\r\nA: b\r\n\r\nbody");
    assert!(matches!(r, Err(RequestError::MalformedRequestLine)));
}

#[test]
fn parse_header_without_separator_fails() {
    let r = HTMLRequest::from_requeststr("GET / HTTP/1.1\r\nBadHeader\r\n\r\nbody");
    assert!(matches!(r, Err(RequestError::MalformedHeader)));
}

#[test]
fn header_new_trims_both_sides() {
    let h = Header::new("  Host \t", " example.com \r");
    assert_eq!(h.key, "Host");
    assert_eq!(h.value, "example.com");
}

#[test]
fn header_new_trims_unicode_whitespace() {
    let h = Header::new("\u{a0}Host\u{a0}", "\u{2009}value\u{3000}");
    assert_eq!(h.key, "Host");
    assert_eq!(h.value, "value");
}

#[test]
fn header_display_form() {
    let h = Header::new("Host", "example.com");
    assert_eq!(h.display(), "Host: example.com");
}

#[test]
fn display_list_one_line_per_header() {
    let list = vec![Header::new("A", "1"), Header::new("B", "2")];
    assert_eq!(Helper::display_list(&list), "A: 1\nB: 2\n");
}

#[test]
fn get_header_finds_first_exact_match() {
    let raw = "GET / HTTP/1.1\r\nHost: one\r\nOther: two\r\n\r\nx";
    let req = HTMLRequest::from_requeststr(raw).unwrap();
    let h = req.get_header("Other").unwrap();
    assert_eq!(h.value, "two");
    assert!(req.get_header("host").is_none());
}

#[test]
fn request_display_labels_parts() {
    let raw = "GET /p HTTP/1.1\r\nA: 1\r\n\r\nbody";
    let req = HTMLRequest::from_requeststr(raw).unwrap();
    let shown = req.display();
    assert_eq!(
        shown,
        "Method: GET\nEndpoint: /p\nVersion: HTTP/1.1\r\nHeaders: A: 1\nBody: body"
    );
}

#[test]
fn parse_full_fixed_size_buffer() {
    // what one bounded read hands over: the message at the front of a
    // 512-byte buffer, the rest null padding
    let mut buffer = [0u8; 512];
    let message = b"POST /addfloat HTTP/1.1\r\nHost: localhost\r\n\r\npayload";
    buffer[..message.len()].copy_from_slice(message);
    let content = String::from_utf8_lossy(&buffer[..]).to_string();
    let req = HTMLRequest::from_requeststr(content.as_str()).unwrap();
    assert_eq!(req.method, "POST");
    assert_eq!(req.endpoint, "/addfloat");
    assert_eq!(req.header.len(), 1);
    assert_eq!(req.body, "payload");
}

#[test]
fn parse_takes_first_three_request_line_tokens() {
    let raw = "GET / HTTP/1.1 extra\r\n\r\nx";
    let req = HTMLRequest::from_requeststr(raw).unwrap();
    assert_eq!(req.method, "GET");
    assert_eq!(req.endpoint, "/");
    assert_eq!(req.version, "HTTP/1.1");
}

#[test]
fn parse_header_value_may_contain_colons() {
    let raw = "GET / HTTP/1.1\r\nReferer: http://example.com: note\r\n\r\nx";
    let req = HTMLRequest::from_requeststr(raw).unwrap();
    assert_eq!(req.header[0].key, "Referer");
    assert_eq!(req.header[0].value, "http://example.com: note");
}
