use http_server_starter_rust::chars;
use http_server_starter_rust::{
    body_length, decode_body, parse_request, HttpError, HttpMethod, HttpRequestCode, HttpVersion,
    RequestBody, RequestHeader, StartLine,
};

fn lines(ls: &[&str]) -> Vec<String> {
    ls.iter().map(|s| s.to_string()).collect()
}

#[test]
fn status_code_pairs() {
    assert_eq!(HttpRequestCode::Okay.to_tuple(), (200, "OK"));
    assert_eq!(HttpRequestCode::BadRequest.to_tuple(), (400, "Bad Request"));
    assert_eq!(HttpRequestCode::Forbidden.to_tuple(), (403, "Forbidden"));
    assert_eq!(HttpRequestCode::NotFound.to_tuple(), (404, "Not Found"));
    assert_eq!(
        HttpRequestCode::InternalServerError.to_tuple(),
        (500, "Internal Server Error")
    );
}

#[test]
fn method_tokens_round_trip() {
    let cases = [
        ("GET", HttpMethod::GET),
        ("POST", HttpMethod::POST),
        ("PUT", HttpMethod::PUT),
        ("PATCH", HttpMethod::PATCH),
        ("TRACE", HttpMethod::TRACE),
        ("CONNECT", HttpMethod::CONNECT),
        ("DELETE", HttpMethod::DELETE),
        ("HEAD", HttpMethod::HEAD),
        ("OPTIONS", HttpMethod::OPTIONS),
    ];
    for (token, method) in cases {
        assert_eq!(HttpMethod::try_from(token).unwrap(), method);
    }
}

#[test]
fn method_invalid_is_bad_request() {
    let err = HttpMethod::try_from("get").unwrap_err();
    let HttpError::HttpParseError(msg, code) = err;
    assert_eq!(msg, "Invalid HTTP method: get");
    assert_eq!(code, HttpRequestCode::BadRequest);
}

#[test]
fn version_tokens_round_trip() {
    let cases = [
        ("HTTP/1.0", HttpVersion::HTTP_1_0),
        ("HTTP/1.1", HttpVersion::HTTP_1_1),
        ("HTTP/2.0", HttpVersion::HTTP_2_0),
        ("HTTP/3.0", HttpVersion::HTTP_3_0),
    ];
    for (token, version) in cases {
        assert_eq!(HttpVersion::try_from(token).unwrap(), version);
        assert_eq!(version.to_str(), token);
    }
}

#[test]
fn version_invalid_is_bad_request() {
    let err = HttpVersion::try_from("HTTP/9.9").unwrap_err();
    let HttpError::HttpParseError(msg, code) = err;
    assert_eq!(msg, "Invalid HTTP version: HTTP/9.9");
    assert_eq!(code, HttpRequestCode::BadRequest);
}

#[test]
fn start_line_round_trips_method_path_version() {
    let sl = StartLine::new(&"GET /index.html HTTP/1.1".to_string()).unwrap();
    assert_eq!(sl.method, HttpMethod::GET);
    assert_eq!(sl.path, "/index.html");
    assert_eq!(sl.version, HttpVersion::HTTP_1_1);
}

#[test]
fn start_line_preserves_path_bytes() {
    let sl = StartLine::new(&"POST /echo/h%C3%A9llo-w%C3%B8rld HTTP/2.0".to_string()).unwrap();
    assert_eq!(sl.path, "/echo/h%C3%A9llo-w%C3%B8rld");
    let sl2 = StartLine::new(&"PUT /café/ünïcode HTTP/1.0".to_string()).unwrap();
    assert_eq!(sl2.path, "/café/ünïcode");
}

#[test]
fn start_line_wrong_token_count_fails() {
    for line in ["", "GET", "GET /", "GET / HTTP/1.1 extra", "   "] {
        let err = StartLine::new(&line.to_string()).unwrap_err();
        let HttpError::HttpParseError(msg, code) = err;
        assert_eq!(msg, line);
        assert_eq!(code, HttpRequestCode::BadRequest);
    }
}

#[test]
fn start_line_invalid_method_fails() {
    let err = StartLine::new(&"FETCH / HTTP/1.1".to_string()).unwrap_err();
    let HttpError::HttpParseError(msg, code) = err;
    assert_eq!(msg, "Invalid HTTP method: FETCH");
    assert_eq!(code, HttpRequestCode::BadRequest);
}

#[test]
fn start_line_invalid_version_fails() {
    let err = StartLine::new(&"GET / HTTP/0.9".to_string()).unwrap_err();
    let HttpError::HttpParseError(msg, code) = err;
    assert_eq!(msg, "Invalid HTTP version: HTTP/0.9");
    assert_eq!(code, HttpRequestCode::BadRequest);
}

#[test]
fn headers_split_on_first_colon_and_trim() {
    let ls = lines(&[
        "GET / HTTP/1.1",
        "Host: localhost:4221",
        "  User-Agent  :   curl/7.64.1  ",
    ]);
    let h = RequestHeader::from_http_request(&ls);
    assert_eq!(h.get_header("Host"), Some(&"localhost:4221".to_string()));
    assert_eq!(h.get_header("User-Agent"), Some(&"curl/7.64.1".to_string()));
}

#[test]
fn header_line_without_colon_is_skipped() {
    let ls = lines(&["GET / HTTP/1.1", "no colon here", "Accept: */*"]);
    let h = RequestHeader::from_http_request(&ls);
    assert_eq!(h.get_header("Accept"), Some(&"*/*".to_string()));
    assert_eq!(h.get_header("no colon here"), None);
    assert_eq!(h.get_header("no"), None);
}

#[test]
fn header_duplicate_key_keeps_last_value() {
    let ls = lines(&["GET / HTTP/1.1", "X-Tag: one", "X-Tag: two"]);
    let h = RequestHeader::from_http_request(&ls);
    assert_eq!(h.get_header("X-Tag"), Some(&"two".to_string()));
}

#[test]
fn header_lookup_is_case_sensitive() {
    let ls = lines(&["GET / HTTP/1.1", "User-Agent: foo"]);
    let h = RequestHeader::from_http_request(&ls);
    assert_eq!(h.get_header("user-agent"), None);
    assert_eq!(h.get_header("User-Agent"), Some(&"foo".to_string()));
}

#[test]
fn add_header_overwrites() {
    let mut h = RequestHeader::from_http_request(&lines(&[]));
    h.add_header("K", "v1");
    assert_eq!(h.get_header("K"), Some(&"v1".to_string()));
    h.add_header("K", "v2");
    assert_eq!(h.get_header("K"), Some(&"v2".to_string()));
}

#[test]
fn request_body_holds_content() {
    let b = RequestBody::new("hello".to_string());
    assert_eq!(b.content, "hello");
}

#[test]
fn parse_request_empty_is_bad_request() {
    let err = parse_request(&lines(&[])).unwrap_err();
    let HttpError::HttpParseError(msg, code) = err;
    assert_eq!(msg, "Empty request");
    assert_eq!(code, HttpRequestCode::BadRequest);
}

#[test]
fn parse_request_full() {
    let ls = lines(&["GET /user-agent HTTP/1.1", "User-Agent: foo/1.0"]);
    let (sl, h) = parse_request(&ls).unwrap();
    assert_eq!(sl.method, HttpMethod::GET);
    assert_eq!(sl.path, "/user-agent");
    assert_eq!(sl.version, HttpVersion::HTTP_1_1);
    assert_eq!(h.get_header("User-Agent"), Some(&"foo/1.0".to_string()));
}

#[test]
fn body_length_reads_content_length() {
    let ls = lines(&["POST /files/a HTTP/1.1", "Content-Length: 5"]);
    let (_, h) = parse_request(&ls).unwrap();
    assert_eq!(body_length(&h), Some(5));
}

#[test]
fn body_length_absent_or_malformed_is_none() {
    let (_, h) = parse_request(&lines(&["GET / HTTP/1.1"])).unwrap();
    assert_eq!(body_length(&h), None);
    let mut h = h;
    h.add_header("Content-Length", "abc");
    assert_eq!(body_length(&h), None);
    h.add_header("Content-Length", "-1");
    assert_eq!(body_length(&h), None);
    h.add_header("Content-Length", "99999999999999999999999999999999");
    assert_eq!(body_length(&h), None);
    h.add_header("Content-Length", "12");
    assert_eq!(body_length(&h), Some(12));
}

#[test]
fn decode_body_accepts_utf8() {
    let b = decode_body("héllo".as_bytes().to_vec()).unwrap();
    assert_eq!(b.content, "héllo");
}

#[test]
fn decode_body_rejects_invalid_utf8() {
    let err = decode_body(vec![0xff, 0xfe, 0x61]).unwrap_err();
    let HttpError::HttpParseError(msg, code) = err;
    assert_eq!(msg, "Invalid UTF-8 sequence in body");
    assert_eq!(code, HttpRequestCode::BadRequest);
}

#[test]
fn error_render_names_code_and_message() {
    let e = HttpError::HttpParseError("Empty request".to_string(), HttpRequestCode::BadRequest);
    assert_eq!(e.render(), "HTTP Parse Error (Bad Request): Empty request");
}

#[test]
fn char_utilities() {
    assert!(chars::str_eq("abc", "abc"));
    assert!(!chars::str_eq("abc", "abd"));
    assert!(!chars::str_eq("abc", "ab"));
    assert!(chars::str_starts_with("/echo/abc", "/echo/"));
    assert!(!chars::str_starts_with("/echo", "/echo/"));
    assert_eq!(chars::trim_str("  a b  "), "a b");
    assert_eq!(chars::trim_str("\t\r\n"), "");
    assert_eq!(chars::parse_dec_usize("0"), Some(0));
    assert_eq!(chars::parse_dec_usize("4221"), Some(4221));
    assert_eq!(chars::parse_dec_usize(""), None);
    assert_eq!(chars::parse_dec_usize("+5"), None);
    assert_eq!(chars::dec_str_usize(0), "0");
    assert_eq!(chars::dec_str_usize(404), "404");
    assert_eq!(chars::dec_str_usize(1050), "1050");
    assert_eq!(chars::byte_len("héllo"), 6);
    assert_eq!(chars::byte_len("abc"), 3);
    let toks = chars::split_whitespace_tokens("  GET  /  HTTP/1.1 ");
    assert_eq!(toks, vec!["GET", "/", "HTTP/1.1"]);
    assert_eq!(chars::find_first_colon("a:b:c"), Some(1));
    assert_eq!(chars::find_first_colon("abc"), None);
}
