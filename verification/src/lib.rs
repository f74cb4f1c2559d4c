//! A minimal HTTP/1.1 request-parsing and response-formatting library.
//!
//! Untrusted bytes come in as lines; they are parsed into a typed request
//! (method, path, version, headers, optional body) and a handler outcome is
//! rendered back into the exact byte sequence to put on the wire.

pub mod chars;
pub mod error;
pub mod headers;
pub mod request;
pub mod response;
pub mod start_line;
pub mod status;

pub use error::HttpError;
pub use headers::{RequestBody, RequestHeader};
pub use request::{body_length, decode_body, parse_request};
pub use response::{file_name, file_response, handle_echo, respond, status_code, user_agent,
    RepresentationHeader};
pub use start_line::{HttpMethod, HttpVersion, StartLine};
pub use status::HttpRequestCode;
