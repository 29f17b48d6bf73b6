//! The response side of the wire protocol: the three literal response
//! shapes the server writes back — status only, status with a
//! plain-text body, and the header block that precedes a streamed file.
//! Each function renders the full text to send; the write itself
//! happens at the connection.

use vstd::prelude::*;
use vstd::string::StringSliceAdditionalSpecFns;
use crate::strutil::{dec_digits, u64_to_string, usize_to_string};
use crate::mime::{get_mime_type, spec_mime_type};

verus! {

/// The byte length of a string slice, which is what `Content-Length`
/// counts.
pub open spec fn spec_byte_len(s: &str) -> usize {
    s.spec_bytes().len() as usize
}

/// A status-only response: `HTTP/1.1 {code}\r\n\r\n` — no headers and an
/// empty body.
pub open spec fn spec_status_response(code: u64) -> Seq<char> {
    "HTTP/1.1 "@ + dec_digits(code as nat) + "\r\n\r\n"@
}

/// Renders a status-only response, as [`spec_status_response`]
/// describes.
pub fn status_response(code: u64) -> (r: String)
    ensures
        r@ == spec_status_response(code),
{
    let mut out = String::from_str("HTTP/1.1 ");
    out.append(u64_to_string(code).as_str());
    out.append("\r\n\r\n");
    proof {
        assert(out@ =~= spec_status_response(code));
    }
    out
}

/// A response with a plain-text body: the status line, a
/// `Content-Length` holding the body's byte length, a fixed
/// `Content-Type: text/plain`, a blank line, then the body.  Callers
/// that need another content type must not use this shape.
pub open spec fn spec_body_response(code: u64, body: Seq<char>, byte_len: nat) -> Seq<char> {
    "HTTP/1.1 "@ + dec_digits(code as nat) + "\r\nContent-Length: "@ + dec_digits(byte_len)
        + "\r\nContent-Type: text/plain\r\n\r\n"@ + body
}

/// Renders a response with a plain-text body, as
/// [`spec_body_response`] describes.
pub fn body_response(code: u64, body: &str) -> (r: String)
    ensures
        r@ == spec_body_response(code, body@, spec_byte_len(body) as nat),
{
    let blen = body.len();
    let mut out = String::from_str("HTTP/1.1 ");
    out.append(u64_to_string(code).as_str());
    out.append("\r\nContent-Length: ");
    out.append(usize_to_string(blen).as_str());
    out.append("\r\nContent-Type: text/plain\r\n\r\n");
    out.append(body);
    proof {
        assert(out@ =~= spec_body_response(code, body@, spec_byte_len(body) as nat));
    }
    out
}

/// The header block sent before streaming an existing file: status 200,
/// a `Content-Length` holding the file's byte size, the content type
/// looked up from the file's extension, and a `Content-Disposition`
/// naming the file, then a blank line.  The file's bytes follow on the
/// wire.
pub open spec fn spec_file_ok_head(
    content_length: u64,
    ext: Seq<char>,
    file_name: Seq<char>,
) -> Seq<char> {
    "HTTP/1.1 200 OK\r\nContent-Length: "@ + dec_digits(content_length as nat)
        + "\r\nContent-Type: "@ + spec_mime_type(ext)
        + "\r\nContent-Disposition: attachment; filename=\""@ + file_name + "\"\r\n\r\n"@
}

/// Renders the header block for serving an existing file, as
/// [`spec_file_ok_head`] describes.
pub fn file_ok_head(content_length: u64, file_extension: &str, file_name: &str) -> (r: String)
    ensures
        r@ == spec_file_ok_head(content_length, file_extension@, file_name@),
{
    let mut out = String::from_str("HTTP/1.1 200 OK\r\nContent-Length: ");
    out.append(u64_to_string(content_length).as_str());
    out.append("\r\nContent-Type: ");
    out.append(get_mime_type(file_extension).as_str());
    out.append("\r\nContent-Disposition: attachment; filename=\"");
    out.append(file_name);
    out.append("\"\r\n\r\n");
    proof {
        assert(out@ =~= spec_file_ok_head(content_length, file_extension@, file_name@));
    }
    out
}

/// The full response for a path that is not a regular file: status 404
/// with the plain body `File not found`.
pub fn file_not_found_response() -> (r: String)
    ensures
        r@ == "HTTP/1.1 404\r\nContent-Length: 14\r\n\r\nFile not found"@,
{
    String::from_str("HTTP/1.1 404\r\nContent-Length: 14\r\n\r\nFile not found")
}

} // verus!
