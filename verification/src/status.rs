//! The closed set of status classifications the server can produce, each
//! bound to a numeric code and a reason phrase.

use vstd::prelude::*;

verus! {

/// Outcome of handling one request: selects the status line of the response.
#[derive(Debug, Clone, Copy, PartialEq, Eq, Structural)]
pub enum HttpRequestCode {
    Okay,
    BadRequest,
    Forbidden,
    NotFound,
    InternalServerError,
}

/// The numeric status code bound to an outcome.
pub open spec fn code_number(c: HttpRequestCode) -> int {
    match c {
        HttpRequestCode::Okay => 200,
        HttpRequestCode::BadRequest => 400,
        HttpRequestCode::Forbidden => 403,
        HttpRequestCode::NotFound => 404,
        HttpRequestCode::InternalServerError => 500,
    }
}

/// The reason phrase bound to an outcome.
pub open spec fn code_phrase(c: HttpRequestCode) -> Seq<char> {
    match c {
        HttpRequestCode::Okay => "OK"@,
        HttpRequestCode::BadRequest => "Bad Request"@,
        HttpRequestCode::Forbidden => "Forbidden"@,
        HttpRequestCode::NotFound => "Not Found"@,
        HttpRequestCode::InternalServerError => "Internal Server Error"@,
    }
}

impl HttpRequestCode {
    /// The (numeric code, reason phrase) pair for this outcome.
    pub fn to_tuple(&self) -> (r: (usize, &'static str))
        ensures
            r.0 == code_number(*self),
            r.1@ == code_phrase(*self),
    {
        match self {
            HttpRequestCode::Okay => (200, "OK"),
            HttpRequestCode::BadRequest => (400, "Bad Request"),
            HttpRequestCode::Forbidden => (403, "Forbidden"),
            HttpRequestCode::NotFound => (404, "Not Found"),
            HttpRequestCode::InternalServerError => (500, "Internal Server Error"),
        }
    }
}

} // verus!
