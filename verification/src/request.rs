//! Turning the raw lines of one request into the typed model: start line,
//! header mapping, announced body length, and body decoding.

use vstd::prelude::*;
use vstd::utf8::{decode_utf8, valid_utf8};
use crate::chars::{all_digits, dec_val, tokens_of};
use crate::error::HttpError;
use crate::headers::{headers_of_lines, RequestBody, RequestHeader};
use crate::start_line::{method_token, start_line_err_msg, start_line_ok,
    version_token, StartLine};
use crate::status::HttpRequestCode;

verus! {

/// Relies on `alloc::string::String::from_utf8`: it returns the string whose
/// UTF-8 encoding is exactly the given bytes when they are valid UTF-8, and
/// fails when they are not.
#[verifier::external_body]
fn utf8_to_string(bytes: Vec<u8>) -> (r: Option<String>)
    ensures
        match r {
            Some(s) => valid_utf8(bytes@) && s@ == decode_utf8(bytes@),
            None => !valid_utf8(bytes@),
        },
{
    String::from_utf8(bytes).ok()
}

/// Decodes the raw body bytes as text: fails with `BadRequest` naming a
/// decode error exactly when the bytes are not valid UTF-8.
pub fn decode_body(bytes: Vec<u8>) -> (r: Result<RequestBody, HttpError>)
    ensures
        match r {
            Ok(b) => valid_utf8(bytes@) && b.content@ == decode_utf8(bytes@),
            Err(e) => {
                &&& !valid_utf8(bytes@)
                &&& match e {
                    HttpError::HttpParseError(msg, code) => msg@
                        == "Invalid UTF-8 sequence in body"@ && code
                        == HttpRequestCode::BadRequest,
                }
            },
        },
{
    match utf8_to_string(bytes) {
        Some(s) => Ok(RequestBody::new(s)),
        None => Err(
            HttpError::HttpParseError(
                "Invalid UTF-8 sequence in body".to_owned(),
                HttpRequestCode::BadRequest,
            ),
        ),
    }
}

/// The announced body length of a request: the value of its `Content-Length`
/// header, when that value is a digit string whose value fits a `usize`.
pub open spec fn spec_body_length(headers: Map<Seq<char>, Seq<char>>) -> Option<int> {
    if headers.contains_key("Content-Length"@) && all_digits(headers["Content-Length"@]) && dec_val(
        headers["Content-Length"@],
    ) <= usize::MAX {
        Some(dec_val(headers["Content-Length"@]))
    } else {
        None
    }
}

/// How many body bytes the headers announce, as `spec_body_length` describes;
/// nothing when the length header is absent or does not parse.
pub fn body_length(header: &RequestHeader) -> (r: Option<usize>)
    ensures
        match r {
            Some(n) => spec_body_length(header@) == Some(n as int),
            None => spec_body_length(header@) is None,
        },
{
    match header.get_header("Content-Length") {
        Some(v) => crate::chars::parse_dec_usize(v.as_str()),
        None => None,
    }
}

/// Parses the already-read lines of one request: the start line from the
/// first line, the header mapping from the rest. An empty request (no lines
/// at all) and a malformed start line fail with `BadRequest`.
pub fn parse_request(lines: &[String]) -> (r: Result<(StartLine, RequestHeader), HttpError>)
    ensures
        ({
            let hl = lines@.map_values(|s: String| s@);
            match r {
                Ok(p) => {
                    &&& hl.len() > 0
                    &&& start_line_ok(hl[0])
                    &&& method_token(p.0.method) == tokens_of(hl[0])[0]
                    &&& p.0.path@ == tokens_of(hl[0])[1]
                    &&& version_token(p.0.version) == tokens_of(hl[0])[2]
                    &&& p.1@ == headers_of_lines(hl)
                },
                Err(e) => {
                    &&& hl.len() == 0 || !start_line_ok(hl[0])
                    &&& match e {
                        HttpError::HttpParseError(msg, code) => {
                            &&& code == HttpRequestCode::BadRequest
                            &&& if hl.len() == 0 {
                                msg@ == "Empty request"@
                            } else {
                                msg@ == start_line_err_msg(hl[0])
                            }
                        },
                    }
                },
            }
        }),
{
    if lines.len() == 0 {
        return Err(
            HttpError::HttpParseError("Empty request".to_owned(), HttpRequestCode::BadRequest),
        );
    }
    let first: &String = &lines[0];
    let start_line = match StartLine::new(first) {
        Ok(sl) => sl,
        Err(e) => {
            return Err(e);
        },
    };
    let request_header = RequestHeader::from_http_request(lines);
    Ok((start_line, request_header))
}

} // verus!
