use stress::errors::ParseError;
use stress::request::parse_request;
use stress::request::split_head_lines;
use stress::request::Request;

fn build_from(raw: &str) -> Result<Request, ParseError> {
    parse_request(raw, "127.0.0.1")
}

#[test]
fn request_line_tokens_are_promoted() {
    let req = build_from("GET /hello HTTP/1.1\r\nHost: x\r\n\r\n").unwrap();
    assert_eq!(req.method, "GET");
    assert_eq!(req.path, "/hello");
    assert_eq!(req.http_version, "HTTP/1.1");
    assert_eq!(req.host, "x");
    assert_eq!(req.ip, "127.0.0.1");
    assert!(req.error.is_none());
}

#[test]
fn tokens_beyond_the_third_are_ignored() {
    let req = build_from("GET /a HTTP/1.1 extra tokens\r\n\r\n").unwrap();
    assert_eq!(req.method, "GET");
    assert_eq!(req.path, "/a");
    assert_eq!(req.http_version, "HTTP/1.1");
}

#[test]
fn lf_only_line_endings_are_accepted() {
    let req = build_from("POST /form HTTP/1.1\nHost: y\nX-Tag: v\n\nignored body").unwrap();
    assert_eq!(req.method, "POST");
    assert_eq!(req.host, "y");
    assert_eq!(req.get_header("X-Tag").unwrap(), "v");
}

#[test]
fn other_version_is_rejected() {
    let e = build_from("GET / HTTP/1.0\r\n\r\n").unwrap_err();
    assert_eq!(e, ParseError::UnsupportedVersion);
    let e = build_from("GET / http/1.1\r\n\r\n").unwrap_err();
    assert_eq!(e, ParseError::UnsupportedVersion);
}

#[test]
fn version_is_checked_before_headers() {
    // even with a malformed header line, the version decides first
    let e = build_from("GET / HTTP/2\r\nno colon here\r\n\r\n").unwrap_err();
    assert_eq!(e, ParseError::UnsupportedVersion);
}

#[test]
fn short_request_line_is_malformed() {
    assert_eq!(build_from("").unwrap_err(), ParseError::MalformedRequestLine);
    assert_eq!(build_from("GET\r\n\r\n").unwrap_err(), ParseError::MalformedRequestLine);
    assert_eq!(build_from("GET /x\r\n\r\n").unwrap_err(), ParseError::MalformedRequestLine);
}

#[test]
fn header_without_colon_is_malformed() {
    let e = build_from("GET / HTTP/1.1\r\nHost: x\r\nbroken line\r\n\r\n").unwrap_err();
    assert_eq!(e, ParseError::MalformedHeader);
}

#[test]
fn header_values_are_trimmed_and_split_on_first_colon() {
    let req = build_from("GET / HTTP/1.1\r\nReferer:   http://a/b?c=d  \r\n\r\n").unwrap();
    assert_eq!(req.get_header("Referer").unwrap(), "http://a/b?c=d");
}

#[test]
fn duplicate_header_last_occurrence_wins() {
    let req = build_from("GET / HTTP/1.1\r\nX-K: one\r\nX-K: two\r\n\r\n").unwrap();
    assert_eq!(req.get_header("X-K").unwrap(), "two");
}

#[test]
fn missing_promoted_headers_default_to_empty() {
    let req = build_from("GET / HTTP/1.1\r\n\r\n").unwrap();
    assert_eq!(req.host, "");
    assert_eq!(req.user_agent, "");
    assert!(req.get_header("Host").is_none());
}

#[test]
fn user_agent_is_promoted() {
    let req = build_from("GET / HTTP/1.1\r\nUser-Agent: curl/8\r\n\r\n").unwrap();
    assert_eq!(req.user_agent, "curl/8");
}

#[test]
fn head_stops_at_first_empty_line() {
    let lines = split_head_lines("GET / HTTP/1.1\r\nHost: x\r\n\r\nStray: body\r\n");
    assert_eq!(lines.len(), 2);
    assert_eq!(lines[0], "GET / HTTP/1.1");
    assert_eq!(lines[1], "Host: x");
}

#[test]
fn build_over_lines_matches_raw_parsing() {
    let lines = vec!["GET /p HTTP/1.1".to_string(), "Host: h".to_string()];
    let req = Request::build(&lines, "10.0.0.1").unwrap();
    assert_eq!(req.path, "/p");
    assert_eq!(req.host, "h");
    assert_eq!(req.ip, "10.0.0.1");
}
