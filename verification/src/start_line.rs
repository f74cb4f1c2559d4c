//! The first line of a request: method, path, and protocol version, parsed
//! from its whitespace-separated tokens.

use vstd::prelude::*;
use vstd::string::StringExecFns;
use crate::chars::{is_ws, lemma_tokens_push_token, lemma_tokens_ws_extend, split_whitespace_tokens,
    str_eq, tokens_of};
use crate::error::HttpError;
use crate::status::HttpRequestCode;

verus! {

/// The closed set of request methods.
#[derive(Debug, Clone, Copy, PartialEq, Eq, Structural)]
pub enum HttpMethod {
    GET,
    POST,
    PUT,
    PATCH,
    TRACE,
    CONNECT,
    DELETE,
    HEAD,
    OPTIONS,
}

/// The exact token that names a method.
pub open spec fn method_token(m: HttpMethod) -> Seq<char> {
    match m {
        HttpMethod::GET => "GET"@,
        HttpMethod::POST => "POST"@,
        HttpMethod::PUT => "PUT"@,
        HttpMethod::PATCH => "PATCH"@,
        HttpMethod::TRACE => "TRACE"@,
        HttpMethod::CONNECT => "CONNECT"@,
        HttpMethod::DELETE => "DELETE"@,
        HttpMethod::HEAD => "HEAD"@,
        HttpMethod::OPTIONS => "OPTIONS"@,
    }
}

impl HttpMethod {
    /// Parses a method token by exact, case-sensitive match; any other token
    /// is a `BadRequest` failure naming the invalid method.
    pub fn try_from(s: &str) -> (r: Result<HttpMethod, HttpError>)
        ensures
            match r {
                Ok(m) => s@ == method_token(m),
                Err(e) => {
                    &&& forall|m: HttpMethod| s@ != method_token(m)
                    &&& match e {
                        HttpError::HttpParseError(msg, code) => msg@ == "Invalid HTTP method: "@
                            + s@ && code == HttpRequestCode::BadRequest,
                    }
                },
            },
    {
        if str_eq(s, "GET") {
            Ok(HttpMethod::GET)
        } else if str_eq(s, "POST") {
            Ok(HttpMethod::POST)
        } else if str_eq(s, "PUT") {
            Ok(HttpMethod::PUT)
        } else if str_eq(s, "PATCH") {
            Ok(HttpMethod::PATCH)
        } else if str_eq(s, "TRACE") {
            Ok(HttpMethod::TRACE)
        } else if str_eq(s, "CONNECT") {
            Ok(HttpMethod::CONNECT)
        } else if str_eq(s, "DELETE") {
            Ok(HttpMethod::DELETE)
        } else if str_eq(s, "HEAD") {
            Ok(HttpMethod::HEAD)
        } else if str_eq(s, "OPTIONS") {
            Ok(HttpMethod::OPTIONS)
        } else {
            let mut msg = "Invalid HTTP method: ".to_owned();
            msg.append(s);
            Err(HttpError::HttpParseError(msg, HttpRequestCode::BadRequest))
        }
    }
}

/// The closed set of protocol version tokens.
#[allow(non_camel_case_types)]
#[derive(Debug, Clone, Copy, PartialEq, Eq, Structural)]
pub enum HttpVersion {
    HTTP_1_0,
    HTTP_1_1,
    HTTP_2_0,
    HTTP_3_0,
}

/// The exact token that names a version.
pub open spec fn version_token(v: HttpVersion) -> Seq<char> {
    match v {
        HttpVersion::HTTP_1_0 => "HTTP/1.0"@,
        HttpVersion::HTTP_1_1 => "HTTP/1.1"@,
        HttpVersion::HTTP_2_0 => "HTTP/2.0"@,
        HttpVersion::HTTP_3_0 => "HTTP/3.0"@,
    }
}

impl HttpVersion {
    /// Parses a version token by exact match; any other token is a
    /// `BadRequest` failure naming the invalid version.
    pub fn try_from(s: &str) -> (r: Result<HttpVersion, HttpError>)
        ensures
            match r {
                Ok(v) => s@ == version_token(v),
                Err(e) => {
                    &&& forall|v: HttpVersion| s@ != version_token(v)
                    &&& match e {
                        HttpError::HttpParseError(msg, code) => msg@ == "Invalid HTTP version: "@
                            + s@ && code == HttpRequestCode::BadRequest,
                    }
                },
            },
    {
        if str_eq(s, "HTTP/1.0") {
            Ok(HttpVersion::HTTP_1_0)
        } else if str_eq(s, "HTTP/1.1") {
            Ok(HttpVersion::HTTP_1_1)
        } else if str_eq(s, "HTTP/2.0") {
            Ok(HttpVersion::HTTP_2_0)
        } else if str_eq(s, "HTTP/3.0") {
            Ok(HttpVersion::HTTP_3_0)
        } else {
            let mut msg = "Invalid HTTP version: ".to_owned();
            msg.append(s);
            Err(HttpError::HttpParseError(msg, HttpRequestCode::BadRequest))
        }
    }

    /// The version's wire token, for the status line of a response.
    pub fn to_str(&self) -> (r: &'static str)
        ensures
            r@ == version_token(*self),
    {
        match self {
            HttpVersion::HTTP_1_0 => "HTTP/1.0",
            HttpVersion::HTTP_1_1 => "HTTP/1.1",
            HttpVersion::HTTP_2_0 => "HTTP/2.0",
            HttpVersion::HTTP_3_0 => "HTTP/3.0",
        }
    }
}

/// The parsed first line of a request.
#[derive(Debug)]
pub struct StartLine {
    pub method: HttpMethod,
    pub path: String,
    pub version: HttpVersion,
}

/// A start line is well formed when it has exactly three whitespace-separated
/// tokens, of which the first names a method and the third a version.
pub open spec fn start_line_ok(s: Seq<char>) -> bool {
    &&& tokens_of(s).len() == 3
    &&& exists|m: HttpMethod| tokens_of(s)[0] == method_token(m)
    &&& exists|v: HttpVersion| tokens_of(s)[2] == version_token(v)
}

/// The message of the failure a malformed start line produces: the line
/// itself on a wrong token count, else the offending method or version.
pub open spec fn start_line_err_msg(s: Seq<char>) -> Seq<char> {
    if tokens_of(s).len() != 3 {
        s
    } else if forall|m: HttpMethod| tokens_of(s)[0] != method_token(m) {
        "Invalid HTTP method: "@ + tokens_of(s)[0]
    } else {
        "Invalid HTTP version: "@ + tokens_of(s)[2]
    }
}

impl StartLine {
    /// Parses the first line of a request: succeeds exactly on well-formed
    /// lines, taking the path token verbatim; fails with `BadRequest`
    /// carrying the line itself on a wrong token count, and a message naming
    /// the offending token on an unknown method or version.
    pub fn new(start_line: &String) -> (r: Result<StartLine, HttpError>)
        ensures
            match r {
                Ok(sl) => {
                    &&& start_line_ok(start_line@)
                    &&& method_token(sl.method) == tokens_of(start_line@)[0]
                    &&& sl.path@ == tokens_of(start_line@)[1]
                    &&& version_token(sl.version) == tokens_of(start_line@)[2]
                },
                Err(e) => {
                    &&& !start_line_ok(start_line@)
                    &&& match e {
                        HttpError::HttpParseError(msg, code) => {
                            &&& code == HttpRequestCode::BadRequest
                            &&& msg@ == start_line_err_msg(start_line@)
                        },
                    }
                },
            },
    {
        let toks = split_whitespace_tokens(start_line.as_str());
        if toks.len() != 3 {
            return Err(
                HttpError::HttpParseError(start_line.clone(), HttpRequestCode::BadRequest),
            );
        }
        let method = match HttpMethod::try_from(toks[0].as_str()) {
            Ok(m) => m,
            Err(e) => {
                return Err(e);
            },
        };
        let version = match HttpVersion::try_from(toks[2].as_str()) {
            Ok(v) => v,
            Err(e) => {
                return Err(e);
            },
        };
        Ok(StartLine { method, path: toks[1].clone(), version })
    }
}

/// Method tokens are non-empty and free of whitespace.
pub proof fn lemma_method_token_shape(m: HttpMethod)
    ensures
        method_token(m).len() > 0,
        forall|j: int| 0 <= j < method_token(m).len() ==> !is_ws(method_token(m)[j]),
{
    reveal_strlit("GET");
    reveal_strlit("POST");
    reveal_strlit("PUT");
    reveal_strlit("PATCH");
    reveal_strlit("TRACE");
    reveal_strlit("CONNECT");
    reveal_strlit("DELETE");
    reveal_strlit("HEAD");
    reveal_strlit("OPTIONS");
}

/// Version tokens are non-empty and free of whitespace.
pub proof fn lemma_version_token_shape(v: HttpVersion)
    ensures
        version_token(v).len() > 0,
        forall|j: int| 0 <= j < version_token(v).len() ==> !is_ws(version_token(v)[j]),
{
    reveal_strlit("HTTP/1.0");
    reveal_strlit("HTTP/1.1");
    reveal_strlit("HTTP/2.0");
    reveal_strlit("HTTP/3.0");
}

/// No two methods share a token.
pub proof fn lemma_method_token_injective(a: HttpMethod, b: HttpMethod)
    requires
        method_token(a) == method_token(b),
    ensures
        a == b,
{
    reveal_strlit("GET");
    reveal_strlit("POST");
    reveal_strlit("PUT");
    reveal_strlit("PATCH");
    reveal_strlit("TRACE");
    reveal_strlit("CONNECT");
    reveal_strlit("DELETE");
    reveal_strlit("HEAD");
    reveal_strlit("OPTIONS");
    let ta = method_token(a);
    let tb = method_token(b);
    match a {
        HttpMethod::GET => assert(ta.len() == 3 && ta[0] == 'G'),
        HttpMethod::POST => assert(ta.len() == 4 && ta[0] == 'P'),
        HttpMethod::PUT => assert(ta.len() == 3 && ta[0] == 'P'),
        HttpMethod::PATCH => assert(ta.len() == 5 && ta[0] == 'P'),
        HttpMethod::TRACE => assert(ta.len() == 5 && ta[0] == 'T'),
        HttpMethod::CONNECT => assert(ta.len() == 7 && ta[0] == 'C'),
        HttpMethod::DELETE => assert(ta.len() == 6 && ta[0] == 'D'),
        HttpMethod::HEAD => assert(ta.len() == 4 && ta[0] == 'H'),
        HttpMethod::OPTIONS => assert(ta.len() == 7 && ta[0] == 'O'),
    }
    match b {
        HttpMethod::GET => assert(tb.len() == 3 && tb[0] == 'G'),
        HttpMethod::POST => assert(tb.len() == 4 && tb[0] == 'P'),
        HttpMethod::PUT => assert(tb.len() == 3 && tb[0] == 'P'),
        HttpMethod::PATCH => assert(tb.len() == 5 && tb[0] == 'P'),
        HttpMethod::TRACE => assert(tb.len() == 5 && tb[0] == 'T'),
        HttpMethod::CONNECT => assert(tb.len() == 7 && tb[0] == 'C'),
        HttpMethod::DELETE => assert(tb.len() == 6 && tb[0] == 'D'),
        HttpMethod::HEAD => assert(tb.len() == 4 && tb[0] == 'H'),
        HttpMethod::OPTIONS => assert(tb.len() == 7 && tb[0] == 'O'),
    }
}

/// No two versions share a token.
pub proof fn lemma_version_token_injective(a: HttpVersion, b: HttpVersion)
    requires
        version_token(a) == version_token(b),
    ensures
        a == b,
{
    reveal_strlit("HTTP/1.0");
    reveal_strlit("HTTP/1.1");
    reveal_strlit("HTTP/2.0");
    reveal_strlit("HTTP/3.0");
    let ta = version_token(a);
    let tb = version_token(b);
    match a {
        HttpVersion::HTTP_1_0 => assert(ta[5] == '1' && ta[7] == '0'),
        HttpVersion::HTTP_1_1 => assert(ta[5] == '1' && ta[7] == '1'),
        HttpVersion::HTTP_2_0 => assert(ta[5] == '2' && ta[7] == '0'),
        HttpVersion::HTTP_3_0 => assert(ta[5] == '3' && ta[7] == '0'),
    }
    match b {
        HttpVersion::HTTP_1_0 => assert(tb[5] == '1' && tb[7] == '0'),
        HttpVersion::HTTP_1_1 => assert(tb[5] == '1' && tb[7] == '1'),
        HttpVersion::HTTP_2_0 => assert(tb[5] == '2' && tb[7] == '0'),
        HttpVersion::HTTP_3_0 => assert(tb[5] == '3' && tb[7] == '0'),
    }
}

/// Every line `"<M> <P> <V>"` built from a method token, a non-empty
/// whitespace-free path, and a version token is a well-formed start line
/// whose three tokens are exactly the method, the path, and the version:
/// with `StartLine::new`'s contract, parsing it round-trips all three.
pub proof fn lemma_start_line_round_trip(m: HttpMethod, p: Seq<char>, v: HttpVersion)
    requires
        p.len() > 0,
        forall|j: int| 0 <= j < p.len() ==> !is_ws(p[j]),
    ensures
        ({
            let line = method_token(m) + " "@ + p + " "@ + version_token(v);
            &&& start_line_ok(line)
            &&& tokens_of(line) =~= seq![method_token(m), p, version_token(v)]
        }),
{
    reveal_strlit(" ");
    let sp = " "@;
    assert(sp =~= seq![' ']);
    assert(is_ws(' '));
    let mt = method_token(m);
    let vt = version_token(v);
    lemma_method_token_shape(m);
    lemma_version_token_shape(v);

    assert(Seq::<char>::empty() + mt =~= mt);
    lemma_tokens_push_token(Seq::<char>::empty(), mt);
    assert(tokens_of(mt) == seq![mt]);

    lemma_tokens_ws_extend(mt, ' ');
    assert(mt + sp =~= mt.push(' '));
    assert(tokens_of(mt + sp) == seq![mt]);

    lemma_tokens_push_token(mt + sp, p);
    assert((mt + sp).last() == ' ');
    assert(tokens_of(mt + sp + p) == seq![mt].push(p));

    lemma_tokens_ws_extend(mt + sp + p, ' ');
    assert(mt + sp + p + sp =~= (mt + sp + p).push(' '));
    assert(tokens_of(mt + sp + p + sp) == seq![mt].push(p));

    lemma_tokens_push_token(mt + sp + p + sp, vt);
    assert((mt + sp + p + sp).last() == ' ');
    let line = mt + sp + p + sp + vt;
    assert(tokens_of(line) == seq![mt].push(p).push(vt));
    assert(seq![mt].push(p).push(vt) =~= seq![mt, p, vt]);
    assert(tokens_of(line)[0] == mt);
    assert(tokens_of(line)[2] == vt);
}

} // verus!
