//! A minimal HTTP/1.1 server core: request-head parsing, a phased route
//! dispatcher, and a response header/body state machine, all with verified
//! contracts. Listening sockets, worker threads and file reads live outside
//! this crate and hand plain values in and out.

use vstd::prelude::*;

pub mod controller;
pub mod errors;
pub mod mime_types;
pub mod request;
pub mod response;
pub mod router;
pub mod static_serve;
pub mod status_codes;
pub mod strutil;

verus! {

use crate::errors::HttpError;
use crate::mime_types::MimeTable;
use crate::status_codes::{lemma_lookup_code_at, StatusTable};
use crate::strutil::{lemma_split_on_absent, lemma_split_on_last, split_on};

/// Turns `Some(v)` into `Ok(v)` and `None` into an application error.
pub fn extract_option<T>(op: Option<T>) -> (r: Result<T, HttpError>)
    ensures
        match op {
            Some(v) => r == Ok::<T, HttpError>(v),
            None => r is Err && r->Err_0 is App,
        },
{
    if let Some(data) = op {
        Ok(data)
    } else {
        Err(HttpError::App(String::from_str("empty option")))
    }
}

/// The extension of `path`: everything after the last `.`, or the whole
/// path when it holds no `.` at all.
pub fn extract_ext<'a>(path: &'a str) -> (r: &'a str)
    ensures
        r@ == split_on(path@, '.').last(),
{
    let n = path.unicode_len();
    let mut i: usize = 0;
    let mut cut: usize = 0;
    let mut found = false;
    while i < n
        invariant
            0 <= i <= n,
            n == path@.len(),
            found ==> 1 <= cut <= i && path@[cut - 1] == '.' && (forall|j: int|
                cut <= j < i ==> path@[j] != '.'),
            !found ==> cut == 0 && (forall|j: int| 0 <= j < i ==> path@[j] != '.'),
        decreases n - i,
    {
        if path.get_char(i) == '.' {
            cut = i + 1;
            found = true;
        }
        i = i + 1;
    }
    proof {
        if found {
            lemma_split_on_last(path@, '.', cut - 1);
        } else {
            lemma_split_on_absent(path@, '.');
        }
        assert(path@.skip(cut as int) =~= path@.subrange(cut as int, n as int));
    }
    path.substring_char(cut, n)
}

/// Builds the status table, code by reason phrase. The codes this crate's
/// own behaviour is stated over come first.
pub fn import_status_messages() -> (r: StatusTable)
    ensures
        r.entries@.len() == 48,
        r.spec_message(200) == "OK"@,
        r.spec_message(404) == "Not Found"@,
        r.spec_message(500) == "Internal Server Error"@,
{
    let mut t = StatusTable::new();
    t.insert(200, "OK");
    t.insert(404, "Not Found");
    t.insert(500, "Internal Server Error");
    t.insert(100, "Continue");
    t.insert(101, "Switching Protocols");
    t.insert(201, "Created");
    t.insert(202, "Accepted");
    t.insert(203, "Non-Authoritative Information");
    t.insert(204, "No Content");
    t.insert(205, "Reset Content");
    t.insert(206, "Partial Content");
    t.insert(300, "Multiple Choices");
    t.insert(301, "Moved Permanently");
    t.insert(302, "Found");
    t.insert(303, "See Other");
    t.insert(304, "Not Modified");
    t.insert(307, "Temporary Redirect");
    t.insert(308, "Permanent Redirect");
    t.insert(400, "Bad Request");
    t.insert(401, "Unauthorized");
    t.insert(402, "Payment Required");
    t.insert(403, "Forbidden");
    t.insert(405, "Method Not Allowed");
    t.insert(406, "Not Acceptable");
    t.insert(407, "Proxy Authentication Required");
    t.insert(408, "Request Timeout");
    t.insert(409, "Conflict");
    t.insert(410, "Gone");
    t.insert(411, "Length Required");
    t.insert(412, "Precondition Failed");
    t.insert(413, "Payload Too Large");
    t.insert(414, "URI Too Long");
    t.insert(415, "Unsupported Media Type");
    t.insert(416, "Range Not Satisfiable");
    t.insert(417, "Expectation Failed");
    t.insert(418, "I'm a teapot");
    t.insert(421, "Misdirected Request");
    t.insert(425, "Too Early");
    t.insert(426, "Upgrade Required");
    t.insert(428, "Precondition Required");
    t.insert(429, "Too Many Requests");
    t.insert(431, "Request Header Fields Too Large");
    t.insert(451, "Unavailable For Legal Reasons");
    t.insert(501, "Not Implemented");
    t.insert(502, "Bad Gateway");
    t.insert(503, "Service Unavailable");
    t.insert(504, "Gateway Timeout");
    t.insert(505, "HTTP Version Not Supported");
    proof {
        let v = t.view_pairs();
        lemma_lookup_code_at(v, 200, 0);
        lemma_lookup_code_at(v, 404, 1);
        lemma_lookup_code_at(v, 500, 2);
    }
    t
}

/// Builds the mime table, extension by content type.
pub fn import_mime_map() -> (r: MimeTable)
    ensures
        r.entries@.len() == 23,
        r.spec_content_type("html"@) == "text/html"@,
{
    let mut t = MimeTable::new();
    t.insert("html", "text/html");
    t.insert("htm", "text/html");
    t.insert("css", "text/css");
    t.insert("js", "text/javascript");
    t.insert("json", "application/json");
    t.insert("xml", "application/xml");
    t.insert("txt", "text/plain");
    t.insert("md", "text/markdown");
    t.insert("csv", "text/csv");
    t.insert("png", "image/png");
    t.insert("jpg", "image/jpeg");
    t.insert("jpeg", "image/jpeg");
    t.insert("gif", "image/gif");
    t.insert("svg", "image/svg+xml");
    t.insert("ico", "image/x-icon");
    t.insert("webp", "image/webp");
    t.insert("pdf", "application/pdf");
    t.insert("zip", "application/zip");
    t.insert("wasm", "application/wasm");
    t.insert("mp3", "audio/mpeg");
    t.insert("mp4", "video/mp4");
    t.insert("woff", "font/woff");
    t.insert("woff2", "font/woff2");
    t
}

} // verus!
