use std::cell::RefCell;
use std::rc::Rc;

use stress::controller::handle_requests;
use stress::errors::HttpError;
use stress::import_mime_map;
use stress::import_status_messages;
use stress::request::parse_request;
use stress::request::Request;
use stress::response::Response;
use stress::router::Handler;
use stress::router::RouteTable;

enum Act {
    Pass,
    Handle,
    Fail(HttpError),
    SendHi,
    NoteError,
}

struct TestHandler {
    name: &'static str,
    act: Act,
    log: Rc<RefCell<Vec<String>>>,
}

impl Handler for TestHandler {
    fn handle(&self, req: &mut Request, res: &mut Response) -> Result<bool, HttpError> {
        self.log.borrow_mut().push(self.name.to_string());
        match &self.act {
            Act::Pass => Ok(false),
            Act::Handle => Ok(true),
            Act::Fail(e) => Err(e.clone()),
            Act::SendHi => {
                res.set_status(200)?;
                res.send("hi")?;
                Ok(true)
            }
            Act::NoteError => {
                if let Some(HttpError::App(m)) = &req.error {
                    self.log.borrow_mut().push(format!("saw:{}", m));
                }
                Ok(true)
            }
        }
    }
}

fn logger() -> Rc<RefCell<Vec<String>>> {
    Rc::new(RefCell::new(Vec::new()))
}

fn th(name: &'static str, act: Act, log: &Rc<RefCell<Vec<String>>>) -> TestHandler {
    TestHandler {
        name,
        act,
        log: Rc::clone(log),
    }
}

fn request_for(raw: &str) -> Request {
    parse_request(raw, "127.0.0.1").unwrap()
}

fn response() -> Response {
    Response::new(200, import_status_messages(), import_mime_map())
}

#[test]
fn global_phase_wins_over_method_and_final() {
    let log = logger();
    let mut t: RouteTable<TestHandler> = RouteTable::new();
    t.middleware("/x", th("global", Act::Handle, &log));
    t.get("/x", th("method", Act::Handle, &log));
    t.last("/x", th("final", Act::Handle, &log));
    let mut req = request_for("GET /x HTTP/1.1\r\n\r\n");
    let mut res = response();
    let esc = handle_requests(&t, &mut req, &mut res);
    assert!(esc.is_none());
    assert_eq!(*log.borrow(), vec!["global"]);
}

#[test]
fn phases_fall_through_in_order_on_pass() {
    let log = logger();
    let mut t: RouteTable<TestHandler> = RouteTable::new();
    t.middleware("*", th("global", Act::Pass, &log));
    t.get("/x", th("method-pass", Act::Pass, &log));
    t.get("/x", th("method-handle", Act::Handle, &log));
    t.get("/x", th("method-late", Act::Handle, &log));
    t.last("*", th("final", Act::Handle, &log));
    let mut req = request_for("GET /x HTTP/1.1\r\n\r\n");
    let mut res = response();
    let esc = handle_requests(&t, &mut req, &mut res);
    assert!(esc.is_none());
    assert_eq!(*log.borrow(), vec!["global", "method-pass", "method-handle"]);
}

#[test]
fn method_phase_has_no_wildcard_path() {
    let log = logger();
    let mut t: RouteTable<TestHandler> = RouteTable::new();
    t.get("*", th("method-star", Act::Handle, &log));
    t.last("*", th("final", Act::Handle, &log));
    let mut req = request_for("GET /y HTTP/1.1\r\n\r\n");
    let mut res = response();
    handle_requests(&t, &mut req, &mut res);
    // the `*` path is no wildcard in the method phase, so the final route runs
    assert_eq!(*log.borrow(), vec!["final"]);
}

#[test]
fn registration_upper_cases_the_method_key() {
    let log = logger();
    let mut t: RouteTable<TestHandler> = RouteTable::new();
    t.register("get", "/x", th("lower", Act::Handle, &log));
    t.register("GET", "/x", th("upper", Act::Handle, &log));
    let mut req = request_for("GET /x HTTP/1.1\r\n\r\n");
    let mut res = response();
    handle_requests(&t, &mut req, &mut res);
    // both registrations land in the same list, in registration order
    assert_eq!(*log.borrow(), vec!["lower"]);
}

#[test]
fn error_goes_to_error_phase_with_request_error_set() {
    let log = logger();
    let mut t: RouteTable<TestHandler> = RouteTable::new();
    t.middleware("*", th("global", Act::Fail(HttpError::App("boom".to_string())), &log));
    t.get("/x", th("method", Act::Handle, &log));
    t.last("*", th("final", Act::Handle, &log));
    t.error_ware("*", "*", th("error", Act::NoteError, &log));
    let mut req = request_for("GET /x HTTP/1.1\r\n\r\n");
    let mut res = response();
    let esc = handle_requests(&t, &mut req, &mut res);
    assert!(esc.is_none());
    // no method- or final-phase handler ran; the error handler saw the error
    assert_eq!(*log.borrow(), vec!["global", "error", "saw:boom"]);
    assert_eq!(req.error, Some(HttpError::App("boom".to_string())));
}

#[test]
fn error_phase_filters_on_method_and_path() {
    let log = logger();
    let mut t: RouteTable<TestHandler> = RouteTable::new();
    t.middleware("*", th("global", Act::Fail(HttpError::App("e".to_string())), &log));
    t.error_ware("POST", "*", th("wrong-method", Act::Handle, &log));
    t.error_ware("*", "/other", th("wrong-path", Act::Handle, &log));
    t.error_ware("GET", "/x", th("exact", Act::Handle, &log));
    let mut req = request_for("GET /x HTTP/1.1\r\n\r\n");
    let mut res = response();
    let esc = handle_requests(&t, &mut req, &mut res);
    assert!(esc.is_none());
    assert_eq!(*log.borrow(), vec!["global", "exact"]);
}

#[test]
fn error_inside_error_phase_escalates() {
    let log = logger();
    let mut t: RouteTable<TestHandler> = RouteTable::new();
    t.middleware("*", th("global", Act::Fail(HttpError::App("first".to_string())), &log));
    t.error_ware("*", "*", th("error", Act::Fail(HttpError::App("second".to_string())), &log));
    t.error_ware("*", "*", th("unreached", Act::Handle, &log));
    let mut req = request_for("GET /x HTTP/1.1\r\n\r\n");
    let mut res = response();
    let esc = handle_requests(&t, &mut req, &mut res);
    assert_eq!(esc, Some(HttpError::App("second".to_string())));
    assert_eq!(*log.borrow(), vec!["global", "error"]);
}

#[test]
fn served_request_gets_status_line_and_body() {
    let log = logger();
    let mut t: RouteTable<TestHandler> = RouteTable::new();
    t.get("/hello", th("hello", Act::SendHi, &log));
    let mut req = request_for("GET /hello HTTP/1.1\r\nHost: x\r\n\r\n");
    let mut res = response();
    let esc = handle_requests(&t, &mut req, &mut res);
    assert!(esc.is_none());
    let head = res.sent_head.as_ref().unwrap();
    assert!(head.starts_with("HTTP/1.1 200 OK\r\n"));
    assert_eq!(res.sent_body.as_ref().unwrap(), b"hi");
}

#[test]
fn unmatched_request_writes_nothing() {
    let log = logger();
    let mut t: RouteTable<TestHandler> = RouteTable::new();
    t.get("/hello", th("hello", Act::SendHi, &log));
    let mut req = request_for("GET /missing HTTP/1.1\r\n\r\n");
    let mut res = response();
    let esc = handle_requests(&t, &mut req, &mut res);
    assert!(esc.is_none());
    // the connection would close with zero bytes written
    assert!(log.borrow().is_empty());
    assert!(res.sent_head.is_none());
    assert!(res.sent_body.is_none());
    assert!(!res.headers_sent);
    assert!(!res.body_sent);
    assert!(req.error.is_none());
}

#[test]
fn empty_table_dispatches_nothing() {
    let t: RouteTable<TestHandler> = RouteTable::new();
    let mut req = request_for("DELETE /x HTTP/1.1\r\n\r\n");
    let mut res = response();
    let esc = handle_requests(&t, &mut req, &mut res);
    assert!(esc.is_none());
    assert!(res.sent_head.is_none());
}

#[test]
fn unknown_method_skips_the_method_phase() {
    let log = logger();
    let mut t: RouteTable<TestHandler> = RouteTable::new();
    t.get("/x", th("get", Act::Handle, &log));
    t.last("/x", th("final", Act::Handle, &log));
    let mut req = request_for("BREW /x HTTP/1.1\r\n\r\n");
    let mut res = response();
    handle_requests(&t, &mut req, &mut res);
    assert_eq!(*log.borrow(), vec!["final"]);
}
