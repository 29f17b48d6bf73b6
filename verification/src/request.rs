//! The request side of the wire protocol: a parsed `key: value` header
//! pair, and the parser that turns the raw text of one bounded read into
//! a structured request.
//!
//! The parser expects the whole message in a single buffer: the request
//! line, zero or more header lines, a blank line (`\r\n\r\n`), then the
//! body.  A message whose separator did not fit into the buffer is
//! rejected rather than accumulated further; that bounded single read is
//! a deliberate limit of this server, not a negotiated behaviour.

use vstd::prelude::*;
use crate::strutil::{
    first_match, lemma_first_match_props, lemma_split_len, matches_at, spec_split, spec_trim,
    spec_trim_end_char, split_char, trim, trim_end_char, find_str,
};

verus! {

/// One parsed header pair.  Both sides are trimmed of surrounding
/// whitespace at construction and never change afterwards.
pub struct Header {
    pub key: String,
    pub value: String,
}

impl Header {
    /// Builds a header pair, trimming whitespace from both ends of both
    /// sides.
    pub fn new(key: &str, value: &str) -> (h: Header)
        ensures
            h.key@ == spec_trim(key@),
            h.value@ == spec_trim(value@),
    {
        Header { key: String::from_str(trim(key)), value: String::from_str(trim(value)) }
    }

    /// The display form of a header pair: `key: value`.
    pub open spec fn spec_display(self) -> Seq<char> {
        self.key@ + ": "@ + self.value@
    }

    /// Renders the header pair, as [`Header::spec_display`] describes.
    pub fn display(&self) -> (r: String)
        ensures
            r@ == self.spec_display(),
    {
        let mut out = self.key.clone();
        out.append(": ");
        out.append(self.value.as_str());
        proof {
            assert(out@ =~= self.spec_display());
        }
        out
    }
}

/// The display form of a header list: each pair on a line of its own,
/// every line ending with a newline.
pub open spec fn spec_display_list(list: Seq<Header>) -> Seq<char>
    decreases list.len(),
{
    if list.len() == 0 {
        Seq::empty()
    } else {
        spec_display_list(list.drop_last()) + list.last().spec_display() + "\n"@
    }
}

pub struct Helper {}

impl Helper {
    /// Renders a header list, as [`spec_display_list`] describes.
    pub fn display_list(list: &Vec<Header>) -> (r: String)
        ensures
            r@ == spec_display_list(list@),
    {
        let mut out = String::new();
        let mut i: usize = 0;
        while i < list.len()
            invariant
                0 <= i <= list@.len(),
                out@ == spec_display_list(list@.take(i as int)),
            decreases list@.len() - i,
        {
            let line = list[i].display();
            out.append(line.as_str());
            out.append("\n");
            proof {
                assert(list@.take(i + 1).drop_last() =~= list@.take(i as int));
                assert(list@.take(i + 1).last() == list@[i as int]);
                assert(out@ =~= spec_display_list(list@.take(i + 1)));
            }
            i = i + 1;
        }
        proof {
            assert(list@.take(list@.len() as int) =~= list@);
        }
        out
    }
}

/// Why a raw message was rejected without producing a request.
#[derive(PartialEq, Eq, Structural, Clone, Copy, Debug)]
pub enum RequestError {
    /// The message was blank, or its head never reached a blank-line
    /// separator; the connection is abandoned without a reply.
    EmptyRequest,
    /// The request line held fewer than three space-separated tokens.
    MalformedRequestLine,
    /// A header line held no `": "` separator.
    MalformedHeader,
}

/// A structured request: the three request-line tokens, the header
/// pairs in wire order, and the body text.  Built once per connection
/// from exactly one parse and never mutated afterwards.
pub struct HTMLRequest {
    pub method: String,
    pub endpoint: String,
    pub version: String,
    pub header: Vec<Header>,
    pub body: String,
}

/// The raw text with surrounding whitespace removed; parsing starts
/// from this.
pub open spec fn spec_trimmed(raw: Seq<char>) -> Seq<char> {
    spec_trim(raw)
}

/// The position of the first blank-line separator in the trimmed text.
pub open spec fn spec_sep_at(raw: Seq<char>) -> Option<int> {
    first_match(spec_trimmed(raw), "\r\n\r\n"@)
}

/// The head section: everything before the first separator, with
/// trailing null padding removed.
pub open spec fn spec_head(raw: Seq<char>) -> Seq<char> {
    let t = spec_trimmed(raw);
    spec_trim_end_char(t.subrange(0, spec_sep_at(raw).unwrap()), '\0')
}

/// The body: everything after the first separator, verbatim except for
/// trailing null padding.
pub open spec fn spec_body(raw: Seq<char>) -> Seq<char> {
    let t = spec_trimmed(raw);
    spec_trim_end_char(t.subrange(spec_sep_at(raw).unwrap() + 4, t.len() as int), '\0')
}

/// The lines of the head section; the first is the request line, the
/// rest are header lines.
pub open spec fn spec_head_lines(raw: Seq<char>) -> Seq<Seq<char>> {
    spec_split(spec_head(raw), '\n')
}

/// The space-separated tokens of the request line.
pub open spec fn spec_request_tokens(raw: Seq<char>) -> Seq<Seq<char>> {
    spec_split(spec_head_lines(raw)[0], ' ')
}

/// Whether a header line holds the `": "` separator.
pub open spec fn spec_header_line_ok(line: Seq<char>) -> bool {
    first_match(line, ": "@) is Some
}

/// The key of a header line: what stands before the first `": "`,
/// trimmed.
pub open spec fn spec_header_key(line: Seq<char>) -> Seq<char> {
    spec_trim(line.subrange(0, first_match(line, ": "@).unwrap()))
}

/// The value of a header line: what stands after the first `": "`,
/// trimmed.  Trimming covers the carriage return that ends a wire
/// header line.
pub open spec fn spec_header_value(line: Seq<char>) -> Seq<char> {
    spec_trim(line.subrange(first_match(line, ": "@).unwrap() + 2, line.len() as int))
}

/// Whether the raw text parses into a request: it is not blank, a
/// blank-line separator is present, the request line has at least three
/// tokens, and every header line carries `": "`.
pub open spec fn spec_parse_ok(raw: Seq<char>) -> bool {
    &&& spec_trimmed(raw).len() > 0
    &&& spec_sep_at(raw) is Some
    &&& spec_request_tokens(raw).len() >= 3
    &&& forall|i: int|
        1 <= i < spec_head_lines(raw).len() ==> spec_header_line_ok(#[trigger] spec_head_lines(raw)[i])
}

impl HTMLRequest {
    /// Parses the raw text of one read into a request, or says exactly
    /// why it cannot be one.  On success the method, path and version
    /// are the first three tokens of the request line, the headers are
    /// the trimmed pairs of the remaining head lines in order, and the
    /// body is everything after the first blank line.
    pub fn from_requeststr(requestin: &str) -> (r: Result<HTMLRequest, RequestError>)
        ensures
            match r {
                Ok(req) => {
                    &&& spec_parse_ok(requestin@)
                    &&& req.method@ == spec_request_tokens(requestin@)[0]
                    &&& req.endpoint@ == spec_request_tokens(requestin@)[1]
                    &&& req.version@ == spec_request_tokens(requestin@)[2]
                    &&& req.body@ == spec_body(requestin@)
                    &&& req.header@.len() == spec_head_lines(requestin@).len() - 1
                    &&& forall|i: int|
                        0 <= i < req.header@.len() ==> (#[trigger] req.header@[i]).key@
                            == spec_header_key(spec_head_lines(requestin@)[i + 1])
                            && req.header@[i].value@ == spec_header_value(
                            spec_head_lines(requestin@)[i + 1],
                        )
                },
                Err(RequestError::EmptyRequest) => spec_trimmed(requestin@).len() == 0
                    || spec_sep_at(requestin@) is None,
                Err(RequestError::MalformedRequestLine) => spec_trimmed(requestin@).len() > 0
                    && spec_sep_at(requestin@) is Some && spec_request_tokens(requestin@).len() < 3,
                Err(RequestError::MalformedHeader) => spec_trimmed(requestin@).len() > 0
                    && spec_sep_at(requestin@) is Some && spec_request_tokens(requestin@).len() >= 3
                    && exists|i: int|
                    1 <= i < spec_head_lines(requestin@).len() && !spec_header_line_ok(
                        #[trigger] spec_head_lines(requestin@)[i],
                    ),
            },
    {
        let t: &str = trim(requestin);
        let n = t.unicode_len();
        if n == 0 {
            return Err(RequestError::EmptyRequest);
        }
        let sep = find_str(t, "\r\n\r\n");
        match sep {
            None => Err(RequestError::EmptyRequest),
            Some(i) => {
                proof {
                    lemma_first_match_props(t@, "\r\n\r\n"@);
                    reveal_strlit("\r\n\r\n");
                    assert(matches_at(t@, "\r\n\r\n"@, i as int));
                    assert(i + 4 <= n);
                }
                let head = trim_end_char(t.substring_char(0, i), '\0');
                let body = trim_end_char(t.substring_char(i + 4, n), '\0');
                proof {
                    assert(head@ == spec_head(requestin@));
                    assert(body@ == spec_body(requestin@));
                }
                let lines = split_char(head, '\n');
                proof {
                    lemma_split_len(head@, '\n');
                    assert(lines@.len() == lines.deep_view().len());
                    assert(lines.deep_view()[0] == lines@[0]@);
                }
                let tokens = split_char(lines[0].as_str(), ' ');
                if tokens.len() < 3 {
                    return Err(RequestError::MalformedRequestLine);
                }
                proof {
                    assert(tokens.deep_view()[0] == tokens@[0]@);
                    assert(tokens.deep_view()[1] == tokens@[1]@);
                    assert(tokens.deep_view()[2] == tokens@[2]@);
                }
                let mut headers: Vec<Header> = Vec::new();
                let mut li: usize = 1;
                while li < lines.len()
                    invariant
                        1 <= li <= lines@.len(),
                        spec_trimmed(requestin@).len() > 0,
                        spec_sep_at(requestin@) is Some,
                        tokens.deep_view() == spec_request_tokens(requestin@),
                        tokens@.len() >= 3,
                        body@ == spec_body(requestin@),
                        lines.deep_view() == spec_head_lines(requestin@),
                        headers@.len() == li - 1,
                        forall|k: int|
                            1 <= k < li ==> spec_header_line_ok(
                                #[trigger] spec_head_lines(requestin@)[k],
                            ),
                        forall|k: int|
                            0 <= k < headers@.len() ==> (#[trigger] headers@[k]).key@
                                == spec_header_key(spec_head_lines(requestin@)[k + 1])
                                && headers@[k].value@ == spec_header_value(
                                spec_head_lines(requestin@)[k + 1],
                            ),
                    decreases lines@.len() - li,
                {
                    let line: &str = lines[li].as_str();
                    proof {
                        assert(lines.deep_view()[li as int] == lines@[li as int]@);
                    }
                    match find_str(line, ": ") {
                        None => {
                            proof {
                                assert(lines.deep_view()[li as int] == spec_head_lines(
                                    requestin@,
                                )[li as int]);
                                assert(!spec_header_line_ok(
                                    spec_head_lines(requestin@)[li as int],
                                ));
                            }
                            return Err(RequestError::MalformedHeader);
                        },
                        Some(k) => {
                            let ln = line.unicode_len();
                            proof {
                                lemma_first_match_props(line@, ": "@);
                                reveal_strlit(": ");
                                assert(matches_at(line@, ": "@, k as int));
                                assert(k + 2 <= ln);
                            }
                            let keyp = line.substring_char(0, k);
                            let valp = line.substring_char(k + 2, ln);
                            headers.push(Header::new(keyp, valp));
                        },
                    }
                    li = li + 1;
                }
                Ok(
                    HTMLRequest {
                        method: tokens[0].clone(),
                        endpoint: tokens[1].clone(),
                        version: tokens[2].clone(),
                        header: headers,
                        body: String::from_str(body),
                    },
                )
            },
        }
    }

    /// The first header whose key equals `key` exactly, if any.
    pub fn get_header(&self, key: &str) -> (r: Option<&Header>)
        ensures
            match r {
                Some(h) => exists|i: int|
                    0 <= i < self.header@.len() && (#[trigger] self.header@[i]).key@ == key@ && *h
                        == self.header@[i] && forall|j: int|
                        0 <= j < i ==> (#[trigger] self.header@[j]).key@ != key@,
                None => forall|i: int|
                    0 <= i < self.header@.len() ==> (#[trigger] self.header@[i]).key@ != key@,
            },
    {
        let mut i: usize = 0;
        while i < self.header.len()
            invariant
                0 <= i <= self.header@.len(),
                forall|j: int| 0 <= j < i ==> (#[trigger] self.header@[j]).key@ != key@,
            decreases self.header@.len() - i,
        {
            if crate::strutil::str_eq(self.header[i].key.as_str(), key) {
                return Some(&self.header[i]);
            }
            i = i + 1;
        }
        None
    }

    /// The display form of a whole request: its parts labelled, the
    /// headers one per line.
    pub open spec fn spec_display(self) -> Seq<char> {
        "Method: "@ + self.method@ + "\nEndpoint: "@ + self.endpoint@ + "\nVersion: "@
            + self.version@ + "\nHeaders: "@ + spec_display_list(self.header@) + "Body: "@
            + self.body@
    }

    /// Renders the request, as [`HTMLRequest::spec_display`] describes.
    pub fn display(&self) -> (r: String)
        ensures
            r@ == self.spec_display(),
    {
        let mut out = String::from_str("Method: ");
        out.append(self.method.as_str());
        out.append("\nEndpoint: ");
        out.append(self.endpoint.as_str());
        out.append("\nVersion: ");
        out.append(self.version.as_str());
        out.append("\nHeaders: ");
        let list = Helper::display_list(&self.header);
        out.append(list.as_str());
        out.append("Body: ");
        out.append(self.body.as_str());
        proof {
            assert(out@ =~= self.spec_display());
        }
        out
    }
}

} // verus!
