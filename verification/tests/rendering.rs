use minihttp::duration::format_duration;
use minihttp::mime::get_mime_type;
use minihttp::response::{
    body_response, file_not_found_response, file_ok_head, status_response,
};
use minihttp::server::{request_log_line, HTTPServer};
use minihttp::strutil::u64_to_string;

#[test]
fn status_response_is_status_line_only() {
    assert_eq!(status_response(200), "HTTP/1.1 200\r\n\r\n");
    assert_eq!(status_response(404), "HTTP/1.1 404\r\n\r\n");
}

#[test]
fn body_response_counts_bytes_and_fixes_content_type() {
    assert_eq!(
        body_response(405, "hi"),
        "HTTP/1.1 405\r\nContent-Length: 2\r\nContent-Type: text/plain\r\n\r\nhi"
    );
    assert_eq!(
        body_response(200, ""),
        "HTTP/1.1 200\r\nContent-Length: 0\r\nContent-Type: text/plain\r\n\r\n"
    );
}

#[test]
fn file_head_carries_length_type_and_name() {
    assert_eq!(
        file_ok_head(5, "html", "index.html"),
        "HTTP/1.1 200 OK\r\nContent-Length: 5\r\nContent-Type: text/html\r\nContent-Disposition: attachment; filename=\"index.html\"\r\n\r\n"
    );
}

#[test]
fn file_head_unknown_extension_is_octet_stream() {
    assert_eq!(
        file_ok_head(1024, "xyz", "data.xyz"),
        "HTTP/1.1 200 OK\r\nContent-Length: 1024\r\nContent-Type: application/octet-stream\r\nContent-Disposition: attachment; filename=\"data.xyz\"\r\n\r\n"
    );
}

#[test]
fn missing_file_reply_is_404_with_fixed_body() {
    assert_eq!(
        file_not_found_response(),
        "HTTP/1.1 404\r\nContent-Length: 14\r\n\r\nFile not found"
    );
}

#[test]
fn mime_lookup_known_and_unknown() {
    assert_eq!(get_mime_type("html"), "text/html");
    assert_eq!(get_mime_type("htm"), "text/html");
    assert_eq!(get_mime_type("json"), "application/json");
    assert_eq!(get_mime_type("png"), "image/png");
    assert_eq!(get_mime_type("css"), "text/css");
    assert_eq!(get_mime_type("7z"), "application/x-7z-compressed");
    assert_eq!(get_mime_type("xyz"), "application/octet-stream");
    assert_eq!(get_mime_type(""), "application/octet-stream");
}

#[test]
fn duration_seconds_form() {
    // 1,500,000,000 ns: one second with the milliseconds as a
    // three-digit fraction
    assert_eq!(format_duration(1, 500_000_000), "1.500s");
    assert_eq!(format_duration(2, 7_000_000), "2.007s");
}

#[test]
fn duration_milliseconds_form() {
    assert_eq!(format_duration(0, 250_000_000), "250.0ms");
    assert_eq!(format_duration(0, 1_500_000), "1.500ms");
}

#[test]
fn duration_microseconds_form() {
    // the fraction is the nanosecond remainder below one microsecond
    assert_eq!(format_duration(0, 40_000), "40.0\u{3bc}s");
    assert_eq!(format_duration(0, 40_123), "40.123\u{3bc}s");
}

#[test]
fn duration_nanoseconds_form() {
    assert_eq!(format_duration(0, 900), "900ns");
}

#[test]
fn decimal_rendering_is_exact() {
    assert_eq!(u64_to_string(0), "0");
    assert_eq!(u64_to_string(7), "7");
    assert_eq!(u64_to_string(1024), "1024");
    assert_eq!(u64_to_string(u64::MAX), "18446744073709551615");
}

#[test]
fn server_defaults_and_overrides() {
    let s = HTTPServer::from_default();
    assert_eq!(s.host, "localhost");
    assert_eq!(s.port, "8080");
    let s = HTTPServer::new(Some("0.0.0.0"), None);
    assert_eq!(s.host, "0.0.0.0");
    assert_eq!(s.port, "8080");
    assert_eq!(s.bind_address(), "0.0.0.0:8080");
}

#[test]
fn log_line_shape() {
    assert_eq!(
        request_log_line("1.2.3.4:5", "0.0.0.0:8080", "/x", "900ns"),
        "Received request from 1.2.3.4:5 on local 0.0.0.0:8080/x - 900ns"
    );
}
