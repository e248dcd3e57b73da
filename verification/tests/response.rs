use stress::errors::HttpError;
use stress::import_mime_map;
use stress::import_status_messages;
use stress::response::Response;

fn fresh(status: u16) -> Response {
    Response::new(status, import_status_messages(), import_mime_map())
}

fn head_of(res: &Response) -> &str {
    res.sent_head.as_ref().unwrap().as_str()
}

#[test]
fn defaults_of_a_fresh_response() {
    let res = fresh(200);
    assert_eq!(res.status(), 200);
    assert_eq!(res.status_message, "OK");
    assert_eq!(res.get_header("content-type").unwrap(), "text/plain");
    assert!(!res.headers_sent);
    assert!(!res.body_sent);
    assert!(res.sent_head.is_none());
    assert!(res.sent_body.is_none());
}

#[test]
fn header_mutation_succeeds_while_fresh() {
    let mut res = fresh(200);
    assert!(res.set_header("x-a", "1").is_ok());
    assert!(res.set_status(404).is_ok());
    assert_eq!(res.status(), 404);
    assert_eq!(res.status_message, "Not Found");
    assert!(res.set_content_type("application/json").is_ok());
    assert_eq!(res.get_header("content-type").unwrap(), "application/json");
    assert_eq!(res.get_header("x-a").unwrap(), "1");
}

#[test]
fn header_mutation_after_send_fails() {
    let mut res = fresh(200);
    res.send("body").unwrap();
    assert_eq!(res.set_header("x-a", "1").unwrap_err(), HttpError::AlreadySent);
    assert_eq!(res.set_status(500).unwrap_err(), HttpError::AlreadySent);
    assert_eq!(res.set_content_type("text/html").unwrap_err(), HttpError::AlreadySent);
}

#[test]
fn header_mutation_after_send_file_fails() {
    let mut res = fresh(200);
    res.send_file("a.html", &b"<p>hi</p>".to_vec()).unwrap();
    assert_eq!(res.set_header("x-a", "1").unwrap_err(), HttpError::AlreadySent);
}

#[test]
fn header_mutation_after_stream_fails() {
    let mut res = fresh(200);
    res.stream(&b"chunked".to_vec()).unwrap();
    assert_eq!(res.set_status(404).unwrap_err(), HttpError::AlreadySent);
}

#[test]
fn header_mutation_after_end_fails() {
    let mut res = fresh(200);
    res.end().unwrap();
    assert_eq!(res.set_header("x-a", "1").unwrap_err(), HttpError::AlreadySent);
}

#[test]
fn second_body_fails_and_first_sticks() {
    let mut res = fresh(200);
    res.send("one").unwrap();
    assert_eq!(res.send("two").unwrap_err(), HttpError::AlreadySent);
    assert_eq!(res.stream(&b"three".to_vec()).unwrap_err(), HttpError::AlreadySent);
    assert_eq!(res.send_file("f.txt", &b"four".to_vec()).unwrap_err(), HttpError::AlreadySent);
    // exactly one header block and one body were recorded
    assert_eq!(res.sent_body.as_ref().unwrap(), b"one");
    assert_eq!(
        head_of(&res),
        "HTTP/1.1 200 OK\r\ncontent-type: text/plain\r\n\r\n"
    );
}

#[test]
fn send_flushes_one_exact_header_block() {
    let mut res = fresh(200);
    res.set_status(404).unwrap();
    res.send("missing").unwrap();
    assert_eq!(
        head_of(&res),
        "HTTP/1.1 404 Not Found\r\ncontent-type: text/plain\r\n\r\n"
    );
    assert_eq!(res.sent_body.as_ref().unwrap(), b"missing");
    assert!(res.headers_sent && res.body_sent);
}

#[test]
fn unknown_status_renders_empty_phrase() {
    let mut res = fresh(200);
    res.set_status(999).unwrap();
    assert_eq!(res.status_message, "");
    res.send("x").unwrap();
    assert!(head_of(&res).starts_with("HTTP/1.1 999 \r\n"));
}

#[test]
fn send_file_sets_length_and_type_from_path() {
    let mut res = fresh(200);
    res.send_file("./site/page.html", &b"<html></html>".to_vec()).unwrap();
    assert_eq!(res.get_header("content-length").unwrap(), "13");
    assert_eq!(res.get_header("content-type").unwrap(), "text/html");
    let head = head_of(&res);
    assert!(head.starts_with("HTTP/1.1 200 OK\r\n"));
    assert!(head.contains("content-length: 13\r\n"));
    assert!(head.contains("content-type: text/html\r\n"));
    assert!(head.ends_with("\r\n\r\n"));
    assert_eq!(res.sent_body.as_ref().unwrap(), b"<html></html>");
}

#[test]
fn send_file_unknown_extension_falls_back_to_text_plain() {
    let mut res = fresh(200);
    res.send_file("data.weird", &b"??".to_vec()).unwrap();
    assert_eq!(res.get_header("content-type").unwrap(), "text/plain");
}

#[test]
fn stream_keeps_headers_untouched() {
    let mut res = fresh(200);
    res.stream(&b"raw bytes".to_vec()).unwrap();
    assert!(res.get_header("content-length").is_none());
    assert_eq!(res.sent_body.as_ref().unwrap(), b"raw bytes");
}

#[test]
fn end_flushes_headers_once_and_allows_no_more_writes() {
    let mut res = fresh(200);
    res.end().unwrap();
    assert!(res.ended);
    assert!(res.sent_body.is_none());
    let head = head_of(&res).to_string();
    // a later end still succeeds but the header block is not re-rendered
    res.end().unwrap();
    assert_eq!(head_of(&res), head);
    assert_eq!(res.send("late").unwrap_err(), HttpError::AlreadySent);
}

#[test]
fn end_after_send_keeps_the_body() {
    let mut res = fresh(200);
    res.send("done").unwrap();
    res.end().unwrap();
    assert_eq!(res.sent_body.as_ref().unwrap(), b"done");
}

#[test]
fn set_header_overwrites_in_place() {
    let mut res = fresh(200);
    res.set_header("x-k", "1").unwrap();
    res.set_header("x-k", "2").unwrap();
    assert_eq!(res.get_header("x-k").unwrap(), "2");
    res.send("b").unwrap();
    // the overwritten header appears exactly once in the flushed block
    let head = head_of(&res);
    assert_eq!(head.matches("x-k:").count(), 1);
    assert!(head.contains("x-k: 2\r\n"));
}
