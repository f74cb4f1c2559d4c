//! Rendering handler outcomes into the exact bytes that go on the wire, and
//! the ordered, first-match dispatch on the request path.

use vstd::prelude::*;
use vstd::string::StringExecFns;
use vstd::utf8::encode_utf8;
use crate::chars::{byte_len, dec_of, dec_str_usize, str_eq, str_starts_with};
use crate::headers::RequestHeader;
use crate::start_line::{version_token, HttpVersion, StartLine};
use crate::status::{code_number, code_phrase, HttpRequestCode};

verus! {

/// The status line of a response: `<version> <code> <phrase>` and a line end.
pub open spec fn status_line_of(v: HttpVersion, c: HttpRequestCode) -> Seq<char> {
    version_token(v) + " "@ + dec_of(code_number(c)) + " "@ + code_phrase(c) + "\r\n"@
}

/// The representation-header block announcing a body's type and length,
/// closed by the blank line that ends the headers.
pub open spec fn rep_header_of(content_type: Seq<char>, content_length: int) -> Seq<char> {
    "Content-Type: "@ + content_type + "\r\nContent-Length: "@ + dec_of(content_length)
        + "\r\n\r\n"@
}

/// A full response carrying a body: its announced length is the body's exact
/// UTF-8 byte count.
pub open spec fn response_with_body(
    v: HttpVersion,
    c: HttpRequestCode,
    content_type: Seq<char>,
    body: Seq<char>,
) -> Seq<char> {
    status_line_of(v, c) + rep_header_of(content_type, encode_utf8(body).len() as int) + body
}

/// A response of a status line alone, followed by a blank line.
pub open spec fn response_without_body(v: HttpVersion, c: HttpRequestCode) -> Seq<char> {
    status_line_of(v, c) + "\r\n"@
}

/// Content-Length in every rendered response equals the exact byte count of
/// the body that follows the header block, for any body.
pub proof fn lemma_content_length_exact(
    v: HttpVersion,
    c: HttpRequestCode,
    content_type: Seq<char>,
    body: Seq<char>,
)
    ensures
        response_with_body(v, c, content_type, body) == status_line_of(v, c) + ("Content-Type: "@
            + content_type + "\r\nContent-Length: "@ + dec_of(encode_utf8(body).len() as int)
            + "\r\n\r\n"@) + body,
{
}

/// The response headers describing a body: its content type and byte length.
#[derive(Debug)]
pub struct RepresentationHeader {
    pub content_type: String,
    pub content_length: usize,
}

impl RepresentationHeader {
    pub fn new(content_type: &str, content_length: usize) -> (r: RepresentationHeader)
        ensures
            r.content_type@ == content_type@,
            r.content_length == content_length,
    {
        RepresentationHeader { content_type: content_type.to_owned(), content_length }
    }

    /// Renders the header block, as `rep_header_of` describes.
    pub fn render(&self) -> (r: String)
        ensures
            r@ == rep_header_of(self.content_type@, self.content_length as int),
    {
        let mut s = "Content-Type: ".to_owned();
        s.append(self.content_type.as_str());
        s.append("\r\nContent-Length: ");
        let num = dec_str_usize(self.content_length);
        s.append(num.as_str());
        s.append("\r\n\r\n");
        s
    }
}

/// Renders the status line for an outcome, echoing the request's version.
pub fn status_code(start_line: &StartLine, code: HttpRequestCode) -> (r: String)
    ensures
        r@ == status_line_of(start_line.version, code),
{
    let pair = code.to_tuple();
    let mut s = start_line.version.to_str().to_owned();
    s.append(" ");
    let num = dec_str_usize(pair.0);
    s.append(num.as_str());
    s.append(" ");
    s.append(pair.1);
    s.append("\r\n");
    s
}

/// The echo route: replies with everything after the second `/` of the path,
/// verbatim, as a `text/plain` body.
pub fn handle_echo(path: &str, start_line: &StartLine) -> (r: String)
    requires
        path@.len() >= 6,
        path@.take(6) == "/echo/"@,
    ensures
        r@ == response_with_body(
            start_line.version,
            HttpRequestCode::Okay,
            "text/plain"@,
            path@.skip(6),
        ),
{
    let n = path.unicode_len();
    let reply = path.substring_char(6, n);
    proof {
        assert(path@.subrange(6, n as int) =~= path@.skip(6));
    }
    let mut s = status_code(start_line, HttpRequestCode::Okay);
    let header = RepresentationHeader::new("text/plain", byte_len(reply));
    let block = header.render();
    s.append(block.as_str());
    s.append(reply);
    s
}

/// The user-agent route: replies with the `User-Agent` header's value when it
/// is present, and with an empty `BadRequest` body when it is not.
pub fn user_agent(request_header: &RequestHeader, start_line: &StartLine) -> (r: String)
    ensures
        r@ == if request_header@.contains_key("User-Agent"@) {
            response_with_body(
                start_line.version,
                HttpRequestCode::Okay,
                "text/plain"@,
                request_header@["User-Agent"@],
            )
        } else {
            response_with_body(
                start_line.version,
                HttpRequestCode::BadRequest,
                "text/plain"@,
                Seq::<char>::empty(),
            )
        },
{
    match request_header.get_header("User-Agent") {
        Some(value) => {
            let mut s = status_code(start_line, HttpRequestCode::Okay);
            let header = RepresentationHeader::new("text/plain", byte_len(value.as_str()));
            let block = header.render();
            s.append(block.as_str());
            s.append(value.as_str());
            s
        },
        None => {
            let mut s = status_code(start_line, HttpRequestCode::BadRequest);
            let header = RepresentationHeader::new("text/plain", 0);
            let block = header.render();
            s.append(block.as_str());
            proof {
                assert(encode_utf8(Seq::<char>::empty()) =~= Seq::<u8>::empty());
                assert(s@ + Seq::<char>::empty() =~= s@);
            }
            s
        },
    }
}

/// The name a files-route path asks for: everything after its `/files/`
/// prefix; nothing when the path is not a files route.
pub fn file_name(path: &str) -> (r: Option<String>)
    ensures
        match r {
            Some(name) => path@.len() >= 7 && path@.take(7) == "/files/"@ && name@ == path@.skip(7),
            None => !(path@.len() >= 7 && path@.take(7) == "/files/"@),
        },
{
    proof {
        reveal_strlit("/files/");
    }
    if str_starts_with(path, "/files/") {
        let n = path.unicode_len();
        proof {
            assert(path@.subrange(7, n as int) =~= path@.skip(7));
        }
        Some(path.substring_char(7, n).to_owned())
    } else {
        None
    }
}

/// The files route: the file's content as an `application/octet-stream` body
/// when it could be read, and an empty `NotFound` body when it could not.
pub fn file_response(start_line: &StartLine, contents: Option<&String>) -> (r: String)
    ensures
        r@ == match contents {
            Some(c) => response_with_body(
                start_line.version,
                HttpRequestCode::Okay,
                "application/octet-stream"@,
                c@,
            ),
            None => response_with_body(
                start_line.version,
                HttpRequestCode::NotFound,
                "text/plain"@,
                Seq::<char>::empty(),
            ),
        },
{
    match contents {
        Some(file) => {
            let mut s = status_code(start_line, HttpRequestCode::Okay);
            let header = RepresentationHeader::new(
                "application/octet-stream",
                byte_len(file.as_str()),
            );
            let block = header.render();
            s.append(block.as_str());
            s.append(file.as_str());
            s
        },
        None => {
            let mut s = status_code(start_line, HttpRequestCode::NotFound);
            let header = RepresentationHeader::new("text/plain", 0);
            let block = header.render();
            s.append(block.as_str());
            proof {
                assert(encode_utf8(Seq::<char>::empty()) =~= Seq::<u8>::empty());
                assert(s@ + Seq::<char>::empty() =~= s@);
            }
            s
        },
    }
}

/// The response of the ordered, first-match dispatch on the request path:
/// the root, echo, user-agent, and files routes, and `NotFound` for any
/// other path. `file` is what reading the asked-for file yielded, and is
/// consulted only on the files route.
pub open spec fn spec_respond(
    version: HttpVersion,
    path: Seq<char>,
    headers: Map<Seq<char>, Seq<char>>,
    file: Option<Seq<char>>,
) -> Seq<char> {
    if path == "/"@ {
        response_without_body(version, HttpRequestCode::Okay)
    } else if path.len() >= 6 && path.take(6) == "/echo/"@ {
        response_with_body(version, HttpRequestCode::Okay, "text/plain"@, path.skip(6))
    } else if path.len() >= 11 && path.take(11) == "/user-agent"@ {
        if headers.contains_key("User-Agent"@) {
            response_with_body(version, HttpRequestCode::Okay, "text/plain"@, headers["User-Agent"@])
        } else {
            response_with_body(
                version,
                HttpRequestCode::BadRequest,
                "text/plain"@,
                Seq::<char>::empty(),
            )
        }
    } else if path.len() >= 7 && path.take(7) == "/files/"@ {
        match file {
            Some(c) => response_with_body(
                version,
                HttpRequestCode::Okay,
                "application/octet-stream"@,
                c,
            ),
            None => response_with_body(
                version,
                HttpRequestCode::NotFound,
                "text/plain"@,
                Seq::<char>::empty(),
            ),
        }
    } else {
        response_without_body(version, HttpRequestCode::NotFound)
    }
}

/// Dispatches a parsed request to its handler and renders the response, as
/// `spec_respond` describes. `file` is what reading the asked-for file
/// yielded (`file_name` says which file that is), and matters only on the
/// files route.
pub fn respond(start_line: &StartLine, request_header: &RequestHeader, file: Option<&String>) -> (r:
    String)
    ensures
        r@ == spec_respond(
            start_line.version,
            start_line.path@,
            request_header@,
            match file {
                Some(c) => Some(c@),
                None => None::<Seq<char>>,
            },
        ),
{
    proof {
        reveal_strlit("/");
        reveal_strlit("/echo/");
        reveal_strlit("/user-agent");
        reveal_strlit("/files/");
    }
    let path = &start_line.path;
    if str_eq(path.as_str(), "/") {
        let mut s = status_code(start_line, HttpRequestCode::Okay);
        s.append("\r\n");
        s
    } else if str_starts_with(path.as_str(), "/echo/") {
        handle_echo(path.as_str(), start_line)
    } else if str_starts_with(path.as_str(), "/user-agent") {
        user_agent(request_header, start_line)
    } else if str_starts_with(path.as_str(), "/files/") {
        file_response(start_line, file)
    } else {
        let mut s = status_code(start_line, HttpRequestCode::NotFound);
        s.append("\r\n");
        s
    }
}

} // verus!
