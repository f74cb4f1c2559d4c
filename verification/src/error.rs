//! The single parse-error kind: a free-text message together with the
//! outcome that classifies it.

use vstd::prelude::*;
use vstd::string::StringExecFns;
use crate::status::{code_phrase, HttpRequestCode};

verus! {

/// A request-handling failure: a message and the outcome it maps to.
#[derive(Debug)]
pub enum HttpError {
    HttpParseError(String, HttpRequestCode),
}

/// The one-line text describing an error.
pub open spec fn error_text(e: HttpError) -> Seq<char> {
    match e {
        HttpError::HttpParseError(msg, code) => "HTTP Parse Error ("@ + code_phrase(code) + "): "@
            + msg@,
    }
}

impl HttpError {
    /// Renders the error as text, as `error_text` describes.
    pub fn render(&self) -> (r: String)
        ensures
            r@ == error_text(*self),
    {
        match self {
            HttpError::HttpParseError(msg, code) => {
                let mut s = "HTTP Parse Error (".to_owned();
                s.append(code.to_tuple().1);
                s.append("): ");
                s.append(msg.as_str());
                s
            },
        }
    }
}

} // verus!
