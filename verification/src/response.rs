//! The response writer: per-connection status and header state with a
//! one-shot header flush and a one-shot body, modelled as a state machine.
//! The header block and body bytes accumulate in `sent_head` / `sent_body`;
//! the surrounding runtime writes them to the connection socket.
//!
//! Invariant: headers may be mutated only before the header flush, and a
//! body may be recorded exactly once; any later write is rejected with
//! `AlreadySent`.

use vstd::prelude::*;
use vstd::string::StringSliceAdditionalSpecFns;

verus! {

use crate::errors::HttpError;
use crate::extract_ext;
use crate::mime_types::MimeTable;
use crate::status_codes::StatusTable;
use crate::strutil::{dec_digits, find_pair, insert_pair, lemma_first_key_index, lemma_lookup_at,
    lookup_pairs, pairs_view, split_on, u64_to_string, unique_keys};

/// The two characters ending every line of the header block.
pub open spec fn crlf() -> Seq<char> {
    seq!['\r', '\n']
}

/// One rendered line per header, in storage order: `name: value` and a
/// line ending.
pub open spec fn render_header_lines(hs: Seq<(Seq<char>, Seq<char>)>) -> Seq<char>
    decreases hs.len(),
{
    if hs.len() == 0 {
        Seq::<char>::empty()
    } else {
        render_header_lines(hs.drop_last()) + hs.last().0 + seq![':', ' '] + hs.last().1 + crlf()
    }
}

/// The whole header block: status line, header lines, blank line.
pub open spec fn render_head(
    version: Seq<char>,
    status: u16,
    message: Seq<char>,
    hs: Seq<(Seq<char>, Seq<char>)>,
) -> Seq<char> {
    version + seq![' '] + dec_digits(status as nat) + seq![' '] + message + crlf()
        + render_header_lines(hs) + crlf()
}

/// Per-connection response state. Fields are public so contracts and the
/// surrounding runtime can read them; mutate only through the methods.
pub struct Response {
    pub status: u16,
    pub status_message: String,
    pub headers: Vec<(String, String)>,
    pub http_version: String,
    pub status_map: StatusTable,
    pub mime_map: MimeTable,
    pub headers_sent: bool,
    pub body_sent: bool,
    pub ended: bool,
    /// The header block flushed so far: written at most once.
    pub sent_head: Option<String>,
    /// The body recorded so far: written at most once.
    pub sent_body: Option<Vec<u8>>,
}

impl Response {
    /// The headers as character sequences, in storage order.
    pub open spec fn headers_view(&self) -> Seq<(Seq<char>, Seq<char>)> {
        pairs_view(self.headers@)
    }

    pub open spec fn sent_head_view(&self) -> Option<Seq<char>> {
        match self.sent_head {
            Some(s) => Some(s@),
            None => None,
        }
    }

    pub open spec fn sent_body_view(&self) -> Option<Seq<u8>> {
        match self.sent_body {
            Some(b) => Some(b@),
            None => None,
        }
    }

    /// The header block this response would flush in its current state.
    pub open spec fn spec_head(&self) -> Seq<char> {
        render_head(self.http_version@, self.status, self.status_message@, self.headers_view())
    }

    /// Well-formedness: the flush flags mirror the recorded output, the
    /// stored reason phrase matches the status table, and no two headers
    /// share a name. Every body-sending operation flushes the header block
    /// in the same call, so the two flags rise together.
    pub open spec fn wf(&self) -> bool {
        &&& self.headers_sent <==> self.sent_head is Some
        &&& self.body_sent == self.headers_sent
        &&& self.sent_body is Some ==> self.body_sent
        &&& self.status_message@ == self.status_map.spec_message(self.status)
        &&& unique_keys(self.headers_view())
    }

    /// The fields no operation after construction ever changes.
    pub open spec fn fixed_eq(&self, other: &Response) -> bool {
        &&& self.http_version == other.http_version
        &&& self.status_map == other.status_map
        &&& self.mime_map == other.mime_map
    }

    /// A fresh response around the given tables: the default status, the
    /// resolved reason phrase, a lone `content-type: text/plain` header,
    /// and nothing sent yet.
    pub fn new(status: u16, status_map: StatusTable, mime_map: MimeTable) -> (r: Response)
        ensures
            r.wf(),
            r.status == status,
            r.status_message@ == status_map.spec_message(status),
            r.headers_view() =~= seq![("content-type"@, "text/plain"@)],
            r.http_version@ == "HTTP/1.1"@,
            !r.headers_sent,
            !r.body_sent,
            !r.ended,
            r.sent_head is None,
            r.sent_body is None,
            r.status_map == status_map,
            r.mime_map == mime_map,
    {
        let status_message = status_map.lookup(status);
        let mut headers: Vec<(String, String)> = Vec::new();
        headers.push((String::from_str("content-type"), String::from_str("text/plain")));
        Response {
            status,
            status_message,
            headers,
            http_version: String::from_str("HTTP/1.1"),
            status_map,
            mime_map,
            headers_sent: false,
            body_sent: false,
            ended: false,
            sent_head: None,
            sent_body: None,
        }
    }

    /// Sets (or overwrites) a header. Fails with `AlreadySent` exactly when
    /// the header block has already been flushed; succeeds otherwise.
    pub fn set_header(&mut self, header: &str, value: &str) -> (r: Result<(), HttpError>)
        requires
            old(self).wf(),
        ensures
            final(self).wf(),
            old(self).headers_sent ==> r == Err::<(), HttpError>(HttpError::AlreadySent)
                && *final(self) == *old(self),
            !old(self).headers_sent ==> r == Ok::<(), HttpError>(()) && final(self).headers_view()
                == insert_pair(old(self).headers_view(), header@, value@) && final(self).status
                == old(self).status && final(self).status_message == old(self).status_message
                && final(self).headers_sent == old(self).headers_sent && final(self).body_sent
                == old(self).body_sent && final(self).ended == old(self).ended && final(self).sent_head == old(self).sent_head && final(self).sent_body == old(self).sent_body
                && final(self).fixed_eq(old(self)),
    {
        if self.headers_sent {
            return Err(HttpError::AlreadySent);
        }
        crate::strutil::insert_pair_vec(&mut self.headers, header, value);
        Ok(())
    }

    /// The stored value of a header, if one with that name is set.
    pub fn get_header(&self, header: &str) -> (r: Option<&String>)
        ensures
            match r {
                Some(v) => lookup_pairs(self.headers_view(), header@) == Some(v@),
                None => lookup_pairs(self.headers_view(), header@) is None,
            },
    {
        let i = find_pair(&self.headers, header);
        proof {
            lemma_first_key_index(self.headers_view(), header@);
            lemma_lookup_at(self.headers_view(), header@);
        }
        if i < self.headers.len() {
            Some(&self.headers[i].1)
        } else {
            None
        }
    }

    /// Sets the status code and resolves its reason phrase from the status
    /// table. Fails with `AlreadySent` exactly when the header block has
    /// already been flushed.
    pub fn set_status(&mut self, status: u16) -> (r: Result<(), HttpError>)
        requires
            old(self).wf(),
        ensures
            final(self).wf(),
            old(self).headers_sent ==> r == Err::<(), HttpError>(HttpError::AlreadySent)
                && *final(self) == *old(self),
            !old(self).headers_sent ==> r == Ok::<(), HttpError>(()) && final(self).status
                == status && final(self).status_message@ == old(self).status_map.spec_message(
                status,
            ) && final(self).headers == old(self).headers && final(self).headers_sent == old(self).headers_sent && final(self).body_sent == old(self).body_sent && final(self).ended
                == old(self).ended && final(self).sent_head == old(self).sent_head && final(self).sent_body == old(self).sent_body && final(self).fixed_eq(old(self)),
    {
        if self.headers_sent {
            return Err(HttpError::AlreadySent);
        }
        self.status = status;
        let message = self.status_map.lookup(status);
        self.status_message = message;
        Ok(())
    }

    /// The current status code.
    pub fn status(&self) -> (r: u16)
        ensures
            r == self.status,
    {
        self.status
    }

    /// Sets the `content-type` header; one-shot like `set_header`.
    pub fn set_content_type(&mut self, c_type: &str) -> (r: Result<(), HttpError>)
        requires
            old(self).wf(),
        ensures
            final(self).wf(),
            old(self).headers_sent ==> r == Err::<(), HttpError>(HttpError::AlreadySent)
                && *final(self) == *old(self),
            !old(self).headers_sent ==> r == Ok::<(), HttpError>(()) && final(self).headers_view()
                == insert_pair(old(self).headers_view(), "content-type"@, c_type@) && final(self).status == old(self).status && final(self).headers_sent == old(self).headers_sent
                && final(self).body_sent == old(self).body_sent && final(self).sent_head == old(self).sent_head && final(self).sent_body == old(self).sent_body,
    {
        self.set_header("content-type", c_type)
    }

    /// Renders the header block for the current state.
    fn create_response(&self) -> (r: String)
        ensures
            r@ == self.spec_head(),
    {
        let mut out = self.http_version.clone();
        out.append(" ");
        let num = u64_to_string(self.status as u64);
        out.append(num.as_str());
        out.append(" ");
        out.append(self.status_message.as_str());
        out.append("\r\n");
        proof {
            reveal_strlit(" ");
            reveal_strlit("\r\n");
            assert(" "@ =~= seq![' ']);
            assert("\r\n"@ =~= crlf());
        }
        let ghost prefix: Seq<char> = self.http_version@ + seq![' '] + dec_digits(
            self.status as nat,
        ) + seq![' '] + self.status_message@ + crlf();
        proof {
            assert(out@ =~= prefix);
        }
        let n = self.headers.len();
        let mut i: usize = 0;
        while i < n
            invariant
                0 <= i <= n,
                n == self.headers@.len(),
                out@ =~= prefix + render_header_lines(self.headers_view().take(i as int)),
            decreases n - i,
        {
            out.append(self.headers[i].0.as_str());
            out.append(": ");
            out.append(self.headers[i].1.as_str());
            out.append("\r\n");
            proof {
                reveal_strlit(": ");
                reveal_strlit("\r\n");
                let hv = self.headers_view();
                assert(hv.take(i as int + 1).drop_last() =~= hv.take(i as int));
                assert(hv.take(i as int + 1).last() == hv[i as int]);
                assert(": "@ =~= seq![':', ' ']);
                assert("\r\n"@ =~= crlf());
                assert(out@ =~= prefix + render_header_lines(hv.take(i as int + 1)));
            }
            i = i + 1;
        }
        out.append("\r\n");
        proof {
            reveal_strlit("\r\n");
            assert("\r\n"@ =~= crlf());
            assert(self.headers_view().take(n as int) =~= self.headers_view());
            assert(out@ =~= self.spec_head());
        }
        out
    }

    /// Flushes the header block if it has not been flushed yet; otherwise
    /// changes nothing. The flush happens at most once per response.
    fn check_headers(&mut self)
        requires
            old(self).headers_sent <==> old(self).sent_head is Some,
        ensures
            final(self).headers_sent,
            old(self).headers_sent ==> *final(self) == *old(self),
            !old(self).headers_sent ==> final(self).sent_head_view() == Some(old(self).spec_head()),
            final(self).sent_head is Some,
            final(self).status == old(self).status,
            final(self).status_message == old(self).status_message,
            final(self).headers == old(self).headers,
            final(self).body_sent == old(self).body_sent,
            final(self).ended == old(self).ended,
            final(self).sent_body == old(self).sent_body,
            final(self).fixed_eq(old(self)),
    {
        if !self.headers_sent {
            let head = self.create_response();
            self.sent_head = Some(head);
            self.headers_sent = true;
        }
    }

    /// Writes `data` as the response body. Fails with `AlreadySent` exactly
    /// when a body was already sent (or the response was ended); otherwise
    /// flushes the header block — once, before any body bytes — and records
    /// the body.
    pub fn send(&mut self, data: &str) -> (r: Result<(), HttpError>)
        requires
            old(self).wf(),
        ensures
            final(self).wf(),
            old(self).body_sent ==> r == Err::<(), HttpError>(HttpError::AlreadySent) && *final(self) == *old(self),
            !old(self).body_sent ==> r == Ok::<(), HttpError>(()) && final(self).headers_sent
                && final(self).body_sent && final(self).sent_head_view() == Some(
                old(self).spec_head(),
            ) && final(self).sent_body_view() == Some(data.spec_bytes()) && final(self).headers
                == old(self).headers && final(self).status == old(self).status && final(self).ended == old(self).ended && final(self).fixed_eq(old(self)),
    {
        if self.body_sent {
            return Err(HttpError::AlreadySent);
        }
        self.check_headers();
        self.body_sent = true;
        self.sent_body = Some(data.as_bytes_vec());
        Ok(())
    }

    /// Sends the contents of the file at `path` as the body: sets
    /// `content-length` from the contents and `content-type` from the path's
    /// extension via the mime table, then flushes the header block — once —
    /// and records the body. Fails with `AlreadySent` exactly when a body
    /// was already sent. The caller reads the file and hands its bytes in.
    pub fn send_file(&mut self, path: &str, contents: &Vec<u8>) -> (r: Result<(), HttpError>)
        requires
            old(self).wf(),
        ensures
            final(self).wf(),
            old(self).body_sent ==> r == Err::<(), HttpError>(HttpError::AlreadySent) && *final(self) == *old(self),
            !old(self).body_sent ==> ({
                let with_len = insert_pair(
                    old(self).headers_view(),
                    "content-length"@,
                    dec_digits(contents@.len()),
                );
                let with_type = insert_pair(
                    with_len,
                    "content-type"@,
                    old(self).mime_map.spec_content_type(split_on(path@, '.').last()),
                );
                r == Ok::<(), HttpError>(()) && final(self).headers_sent && final(self).body_sent
                    && final(self).headers_view() == with_type && final(self).sent_head_view()
                    == Some(
                    render_head(
                        old(self).http_version@,
                        old(self).status,
                        old(self).status_message@,
                        with_type,
                    ),
                ) && final(self).sent_body_view() == Some(contents@) && final(self).status == old(self).status && final(self).ended == old(self).ended && final(self).fixed_eq(old(self))
            }),
    {
        if self.body_sent {
            return Err(HttpError::AlreadySent);
        }
        let len_str = u64_to_string(contents.len() as u64);
        match self.set_header("content-length", len_str.as_str()) {
            Ok(_) => {},
            Err(e) => {
                return Err(e);
            },
        }
        let ext = extract_ext(path);
        let ctype = self.mime_map.lookup(ext);
        match self.set_header("content-type", ctype.as_str()) {
            Ok(_) => {},
            Err(e) => {
                return Err(e);
            },
        }
        self.check_headers();
        self.body_sent = true;
        self.sent_body = Some(vstd::slice::slice_to_vec(contents.as_slice()));
        Ok(())
    }

    /// Writes already-read bytes from an arbitrary source as the body; the
    /// same one-shot semantics as `send`, without touching any header.
    pub fn stream(&mut self, contents: &Vec<u8>) -> (r: Result<(), HttpError>)
        requires
            old(self).wf(),
        ensures
            final(self).wf(),
            old(self).body_sent ==> r == Err::<(), HttpError>(HttpError::AlreadySent) && *final(self) == *old(self),
            !old(self).body_sent ==> r == Ok::<(), HttpError>(()) && final(self).headers_sent
                && final(self).body_sent && final(self).sent_head_view() == Some(
                old(self).spec_head(),
            ) && final(self).sent_body_view() == Some(contents@) && final(self).headers == old(self).headers && final(self).status == old(self).status && final(self).ended == old(self).ended && final(self).fixed_eq(old(self)),
    {
        if self.body_sent {
            return Err(HttpError::AlreadySent);
        }
        self.check_headers();
        self.body_sent = true;
        self.sent_body = Some(vstd::slice::slice_to_vec(contents.as_slice()));
        Ok(())
    }

    /// Ends the response: flushes the header block if it was never flushed
    /// (never twice), marks the body as sent so every later write is
    /// rejected, and asks the runtime to close the connection. Always
    /// succeeds, even after a body was sent.
    pub fn end(&mut self) -> (r: Result<(), HttpError>)
        requires
            old(self).wf(),
        ensures
            final(self).wf(),
            r == Ok::<(), HttpError>(()),
            final(self).headers_sent,
            final(self).body_sent,
            final(self).ended,
            final(self).sent_head_view() == (if old(self).headers_sent {
                old(self).sent_head_view()
            } else {
                Some(old(self).spec_head())
            }),
            final(self).sent_body == old(self).sent_body,
            final(self).headers == old(self).headers,
            final(self).status == old(self).status,
            final(self).fixed_eq(old(self)),
    {
        self.check_headers();
        self.body_sent = true;
        self.ended = true;
        Ok(())
    }
}

/// Law: a body-sending operation locks the headers. A well-formed
/// response whose body has been sent has its header block flushed, so
/// `set_header` and `set_status` reject every later mutation with
/// `AlreadySent`, exactly as their contracts state; before any
/// body-sending operation they always succeed.
pub proof fn lemma_sent_locks_headers(r: &Response)
    requires
        r.wf(),
        r.body_sent,
    ensures
        r.headers_sent,
{
}

/// Law: one header block, then one body. A well-formed response that has
/// recorded body bytes has flushed its header block exactly once, and
/// `send`, `send_file` and `stream` reject a second body with
/// `AlreadySent`, exactly as their contracts state.
pub proof fn lemma_one_head_one_body(r: &Response)
    requires
        r.wf(),
        r.sent_body is Some,
    ensures
        r.body_sent,
        r.headers_sent,
        r.sent_head is Some,
{
}

} // verus!
