use http_server_starter_rust::{
    file_name, file_response, handle_echo, parse_request, respond, status_code, user_agent,
    HttpMethod, HttpRequestCode, HttpVersion, RepresentationHeader, StartLine,
};

fn start_line(path: &str) -> StartLine {
    StartLine {
        method: HttpMethod::GET,
        path: path.to_string(),
        version: HttpVersion::HTTP_1_1,
    }
}

fn request(lines: &[&str]) -> (StartLine, http_server_starter_rust::RequestHeader) {
    let ls: Vec<String> = lines.iter().map(|s| s.to_string()).collect();
    parse_request(&ls).unwrap()
}

#[test]
fn representation_header_renders_exactly() {
    let h = RepresentationHeader::new("text/plain", 3);
    assert_eq!(h.content_type, "text/plain");
    assert_eq!(h.content_length, 3);
    assert_eq!(h.render(), "Content-Type: text/plain\r\nContent-Length: 3\r\n\r\n");
}

#[test]
fn status_line_renders_exactly() {
    let sl = start_line("/");
    assert_eq!(status_code(&sl, HttpRequestCode::Okay), "HTTP/1.1 200 OK\r\n");
    assert_eq!(
        status_code(&sl, HttpRequestCode::NotFound),
        "HTTP/1.1 404 Not Found\r\n"
    );
    let old = StartLine {
        method: HttpMethod::GET,
        path: "/".to_string(),
        version: HttpVersion::HTTP_1_0,
    };
    assert_eq!(
        status_code(&old, HttpRequestCode::InternalServerError),
        "HTTP/1.0 500 Internal Server Error\r\n"
    );
}

#[test]
fn root_route_is_plain_ok() {
    let (sl, h) = request(&["GET / HTTP/1.1"]);
    assert_eq!(respond(&sl, &h, None), "HTTP/1.1 200 OK\r\n\r\n");
}

#[test]
fn echo_route_replies_with_path_rest() {
    let (sl, h) = request(&["GET /echo/abc HTTP/1.1"]);
    let r = respond(&sl, &h, None);
    assert!(r.starts_with("HTTP/1.1 200 OK\r\n"));
    assert!(r.contains("Content-Type: text/plain\r\nContent-Length: 3\r\n\r\n"));
    assert!(r.ends_with("abc"));
}

#[test]
fn echo_keeps_later_slashes() {
    let sl = start_line("/echo/a/b/c");
    let r = handle_echo("/echo/a/b/c", &sl);
    assert!(r.ends_with("a/b/c"));
    assert!(r.contains("Content-Length: 5\r\n"));
}

#[test]
fn echo_empty_rest() {
    let sl = start_line("/echo/");
    let r = handle_echo("/echo/", &sl);
    assert_eq!(
        r,
        "HTTP/1.1 200 OK\r\nContent-Type: text/plain\r\nContent-Length: 0\r\n\r\n"
    );
}

#[test]
fn content_length_counts_bytes_not_chars() {
    let (sl, h) = request(&["GET /echo/héllo HTTP/1.1"]);
    let r = respond(&sl, &h, None);
    assert!(r.contains("Content-Length: 6\r\n"));
    assert!(r.ends_with("héllo"));
    let body_bytes = "héllo".as_bytes().len();
    assert_eq!(body_bytes, 6);
}

#[test]
fn user_agent_route_echoes_header() {
    let (sl, h) = request(&["GET /user-agent HTTP/1.1", "User-Agent: foo/1.0"]);
    let r = respond(&sl, &h, None);
    assert!(r.starts_with("HTTP/1.1 200 OK\r\n"));
    assert!(r.contains("Content-Length: 7\r\n"));
    assert!(r.ends_with("foo/1.0"));
    assert_eq!(user_agent(&h, &sl), r);
}

#[test]
fn user_agent_missing_is_bad_request() {
    let (sl, h) = request(&["GET /user-agent HTTP/1.1"]);
    let r = respond(&sl, &h, None);
    assert_eq!(
        r,
        "HTTP/1.1 400 Bad Request\r\nContent-Type: text/plain\r\nContent-Length: 0\r\n\r\n"
    );
}

#[test]
fn file_name_strips_prefix() {
    assert_eq!(file_name("/files/missing.txt"), Some("missing.txt".to_string()));
    assert_eq!(file_name("/files/a/b.txt"), Some("a/b.txt".to_string()));
    assert_eq!(file_name("/nope"), None);
    assert_eq!(file_name("/files"), None);
}

#[test]
fn files_route_missing_file_is_not_found() {
    let (sl, h) = request(&["GET /files/missing.txt HTTP/1.1"]);
    let r = respond(&sl, &h, None);
    assert!(r.starts_with("HTTP/1.1 404 Not Found\r\n"));
    assert_eq!(
        r,
        "HTTP/1.1 404 Not Found\r\nContent-Type: text/plain\r\nContent-Length: 0\r\n\r\n"
    );
}

#[test]
fn files_route_serves_content() {
    let (sl, h) = request(&["GET /files/hello.txt HTTP/1.1"]);
    let content = "file content here".to_string();
    let r = respond(&sl, &h, Some(&content));
    assert_eq!(
        r,
        "HTTP/1.1 200 OK\r\nContent-Type: application/octet-stream\r\nContent-Length: 17\r\n\r\nfile content here"
    );
    assert_eq!(file_response(&sl, Some(&content)), r);
}

#[test]
fn unknown_route_is_not_found() {
    let (sl, h) = request(&["GET /nope HTTP/1.1"]);
    assert_eq!(respond(&sl, &h, None), "HTTP/1.1 404 Not Found\r\n\r\n");
}

#[test]
fn dispatch_is_by_prefix_in_order() {
    // the user-agent route matches by prefix, not by the exact path
    let (sl, h) = request(&["GET /user-agent-plus HTTP/1.1", "User-Agent: x"]);
    let r = respond(&sl, &h, None);
    assert!(r.ends_with("x"));
    // a bare /echo (no second slash) falls through to NotFound
    let (sl, h) = request(&["GET /echo HTTP/1.1"]);
    assert_eq!(respond(&sl, &h, None), "HTTP/1.1 404 Not Found\r\n\r\n");
}

#[test]
fn response_version_echoes_request() {
    let (sl, h) = request(&["GET / HTTP/2.0"]);
    assert_eq!(respond(&sl, &h, None), "HTTP/2.0 200 OK\r\n\r\n");
}
