//! The request parser: turns the head of one connection's byte stream into
//! a structured request, or fails with a parse error. The surrounding
//! runtime reads the stream; this module works on its text.
//!
//! A head is read line by line up to the first empty line. The first line
//! must split on single spaces into at least method, path and version; the
//! version must be exactly `HTTP/1.1`; every later line must split on its
//! first `:` into a name and a value, the value trimmed of surrounding
//! whitespace. On duplicate header names the last occurrence wins. A parse
//! error aborts construction: a malformed request is never dispatched.

use vstd::prelude::*;

verus! {

use crate::errors::{HttpError, ParseError};
use crate::strutil::{find_char, find_pair, first_index_of, insert_pair, lemma_first_key_index,
    lemma_lookup_at, lookup_pairs, pairs_view, split_on, split_str, str_eq, strs_view, trim_str,
    trimmed, unique_keys};

// ---------------------------------------------------------------------------
// The lines of a request head
// ---------------------------------------------------------------------------

/// A line with one trailing carriage return stripped.
pub open spec fn strip_cr(l: Seq<char>) -> Seq<char> {
    if l.len() > 0 && l.last() == '\r' {
        l.drop_last()
    } else {
        l
    }
}

/// Everything before the first empty line.
pub open spec fn cut_at_empty(ls: Seq<Seq<char>>) -> Seq<Seq<char>>
    decreases ls.len(),
{
    if ls.len() == 0 {
        ls
    } else if ls[0].len() == 0 {
        Seq::<Seq<char>>::empty()
    } else {
        seq![ls[0]] + cut_at_empty(ls.drop_first())
    }
}

/// The lines of the raw head: split at line feeds, each line with a
/// trailing carriage return stripped.
pub open spec fn raw_lines(raw: Seq<char>) -> Seq<Seq<char>> {
    split_on(raw, '\n').map_values(|l: Seq<char>| strip_cr(l))
}

/// The head lines of a raw request: its raw lines up to the first empty one.
pub open spec fn head_lines(raw: Seq<char>) -> Seq<Seq<char>> {
    cut_at_empty(raw_lines(raw))
}

proof fn lemma_cut_at_empty_take(ls: Seq<Seq<char>>, k: int)
    requires
        0 <= k <= ls.len(),
        forall|j: int| 0 <= j < k ==> ls[j].len() > 0,
        k == ls.len() || ls[k].len() == 0,
    ensures
        cut_at_empty(ls) == ls.take(k),
    decreases ls.len(),
{
    if ls.len() == 0 {
        assert(ls.take(0) =~= ls);
    } else if k == 0 {
        assert(ls.take(0) =~= Seq::<Seq<char>>::empty());
    } else {
        let rest = ls.drop_first();
        assert forall|j: int| 0 <= j < k - 1 implies rest[j].len() > 0 by {
            assert(rest[j] == ls[j + 1]);
        }
        lemma_cut_at_empty_take(rest, k - 1);
        assert(seq![ls[0]] + rest.take(k - 1) =~= ls.take(k));
    }
}

fn strip_cr_line<'a>(line: &'a str) -> (r: &'a str)
    ensures
        r@ == strip_cr(line@),
{
    let n = line.unicode_len();
    if n > 0 && line.get_char(n - 1) == '\r' {
        proof {
            assert(line@.subrange(0, n - 1) =~= line@.drop_last());
        }
        line.substring_char(0, n - 1)
    } else {
        line
    }
}

/// Splits a raw request head into its lines, up to the first empty line.
#[verifier::loop_isolation(false)]
pub fn split_head_lines(raw: &str) -> (r: Vec<String>)
    ensures
        r@.len() == head_lines(raw@).len(),
        forall|k: int| 0 <= k < r@.len() ==> #[trigger] r@[k]@ == head_lines(raw@)[k],
{
    let parts = split_str(raw, '\n');
    let ghost ml = raw_lines(raw@);
    let n = parts.len();
    let mut out: Vec<String> = Vec::new();
    let mut i: usize = 0;
    while i < n
        invariant
            0 <= i <= n,
            n == parts@.len(),
            ml.len() == n,
            forall|j: int| 0 <= j < n ==> #[trigger] ml[j] == strip_cr(parts@[j]@),
            out@.len() == i,
            forall|k: int| 0 <= k < i ==> #[trigger] out@[k]@ == ml[k],
            forall|j: int| 0 <= j < i ==> #[trigger] ml[j].len() > 0,
        decreases n - i,
    {
        let stripped = strip_cr_line(parts[i].as_str());
        if stripped.unicode_len() == 0 {
            proof {
                lemma_cut_at_empty_take(ml, i as int);
            }
            return out;
        }
        out.push(String::from_str(stripped));
        i = i + 1;
    }
    proof {
        lemma_cut_at_empty_take(ml, n as int);
        assert(ml.take(n as int) =~= ml);
    }
    out
}

// ---------------------------------------------------------------------------
// The request line and the header lines
// ---------------------------------------------------------------------------

/// The space-split tokens of the request line.
pub open spec fn req_tokens(line: Seq<char>) -> Seq<Seq<char>> {
    split_on(line, ' ')
}

/// Whether the request line yields at least method, path and version.
pub open spec fn req_line_ok(line: Seq<char>) -> bool {
    req_tokens(line).len() >= 3
}

/// Whether a header line holds a `:` separator.
pub open spec fn header_line_ok(l: Seq<char>) -> bool {
    first_index_of(l, ':') < l.len()
}

/// The name of a header line: everything before the first `:`.
pub open spec fn header_key(l: Seq<char>) -> Seq<char> {
    l.take(first_index_of(l, ':'))
}

/// The value of a header line: everything after the first `:`, trimmed.
pub open spec fn header_val(l: Seq<char>) -> Seq<char> {
    trimmed(l.skip(first_index_of(l, ':') + 1))
}

/// Whether every line after the request line is a well-formed header.
pub open spec fn headers_ok(lines: Seq<Seq<char>>) -> bool {
    forall|i: int| 1 <= i < lines.len() ==> header_line_ok(#[trigger] lines[i])
}

/// The header pairs after processing `lines` in order, last write winning.
pub open spec fn fold_headers(
    acc: Seq<(Seq<char>, Seq<char>)>,
    lines: Seq<Seq<char>>,
) -> Seq<(Seq<char>, Seq<char>)>
    decreases lines.len(),
{
    if lines.len() == 0 {
        acc
    } else {
        fold_headers(insert_pair(acc, header_key(lines[0]), header_val(lines[0])), lines.drop_first())
    }
}

/// The header mapping of a parsed head: its lines after the first, folded.
pub open spec fn spec_headers(lines: Seq<Seq<char>>) -> Seq<(Seq<char>, Seq<char>)> {
    fold_headers(Seq::<(Seq<char>, Seq<char>)>::empty(), lines.skip(1))
}

/// Law (last occurrence wins): processing one more header line overwrites.
/// After folding `lines` and then the line `l`, looking up `l`'s name
/// yields `l`'s value, and every other name reads as after `lines` alone.
pub proof fn lemma_fold_headers_last_wins(
    acc: Seq<(Seq<char>, Seq<char>)>,
    lines: Seq<Seq<char>>,
    l: Seq<char>,
)
    ensures
        lookup_pairs(fold_headers(acc, lines.push(l)), header_key(l)) == Some(header_val(l)),
        forall|k2: Seq<char>| k2 != header_key(l) ==> lookup_pairs(
            fold_headers(acc, lines.push(l)),
            k2,
        ) == lookup_pairs(fold_headers(acc, lines), k2),
    decreases lines.len(),
{
    if lines.len() == 0 {
        assert(lines.push(l)[0] == l);
        assert(lines.push(l).drop_first() =~= Seq::<Seq<char>>::empty());
        let ins = insert_pair(acc, header_key(l), header_val(l));
        assert(fold_headers(acc, lines.push(l)) == fold_headers(
            ins,
            lines.push(l).drop_first(),
        ));
        assert(fold_headers(ins, Seq::<Seq<char>>::empty()) == ins);
        assert(fold_headers(acc, lines) == acc);
        crate::strutil::lemma_insert_pair(acc, header_key(l), header_val(l));
    } else {
        assert(lines.push(l)[0] == lines[0]);
        assert(lines.push(l).drop_first() =~= lines.drop_first().push(l));
        let ins = insert_pair(acc, header_key(lines[0]), header_val(lines[0]));
        assert(fold_headers(acc, lines.push(l)) == fold_headers(
            ins,
            lines.drop_first().push(l),
        ));
        assert(fold_headers(acc, lines) == fold_headers(ins, lines.drop_first()));
        lemma_fold_headers_last_wins(ins, lines.drop_first(), l);
    }
}

/// Whether a head parses: a request line with at least three tokens, the
/// version token exactly `HTTP/1.1`, and every header line well formed.
pub open spec fn parse_ok(lines: Seq<Seq<char>>) -> bool {
    &&& lines.len() > 0
    &&& req_line_ok(lines[0])
    &&& req_tokens(lines[0])[2] == "HTTP/1.1"@
    &&& headers_ok(lines)
}

/// The promoted value of header `name`, defaulting to the empty string.
pub open spec fn promoted(hs: Seq<(Seq<char>, Seq<char>)>, name: Seq<char>) -> Seq<char> {
    match lookup_pairs(hs, name) {
        Some(v) => v,
        None => Seq::<char>::empty(),
    }
}

// ---------------------------------------------------------------------------
// The request itself
// ---------------------------------------------------------------------------

/// One parsed request, owned by the worker processing its connection.
#[derive(Debug)]
pub struct Request {
    pub method: String,
    pub path: String,
    pub host: String,
    pub http_version: String,
    pub headers: Vec<(String, String)>,
    pub ip: String,
    pub user_agent: String,
    /// Carries a dispatch failure into the error-handling phase.
    pub error: Option<HttpError>,
}

impl Request {
    /// The headers as character sequences, in storage order.
    pub open spec fn headers_view(&self) -> Seq<(Seq<char>, Seq<char>)> {
        pairs_view(self.headers@)
    }

    /// Equal in every field but the error slot.
    pub open spec fn same_but_error(&self, other: &Request) -> bool {
        &&& self.method == other.method
        &&& self.path == other.path
        &&& self.host == other.host
        &&& self.http_version == other.http_version
        &&& self.headers == other.headers
        &&& self.ip == other.ip
        &&& self.user_agent == other.user_agent
    }

    /// Builds a request from the head lines of a connection, and the peer
    /// address the runtime saw. Succeeds exactly on heads that parse; each
    /// error names the first rule the head breaks, checked in this order:
    /// the request line, the version, the header lines.
    #[verifier::loop_isolation(false)]
    pub fn build(lines: &Vec<String>, ip: &str) -> (r: Result<Request, ParseError>)
        ensures
            r is Ok <==> parse_ok(strs_view(lines@)),
            (r == Err::<Request, ParseError>(ParseError::MalformedRequestLine)) <==> (
            lines@.len() == 0 || !req_line_ok(strs_view(lines@)[0])),
            (r == Err::<Request, ParseError>(ParseError::UnsupportedVersion)) <==> (lines@.len()
                > 0 && req_line_ok(strs_view(lines@)[0]) && req_tokens(strs_view(lines@)[0])[2]
                != "HTTP/1.1"@),
            (r == Err::<Request, ParseError>(ParseError::MalformedHeader)) <==> (lines@.len() > 0
                && req_line_ok(strs_view(lines@)[0]) && req_tokens(strs_view(lines@)[0])[2]
                == "HTTP/1.1"@ && !headers_ok(strs_view(lines@))),
            r is Ok ==> ({
                let lv = strs_view(lines@);
                let req = r->Ok_0;
                &&& req.method@ == req_tokens(lv[0])[0]
                &&& req.path@ == req_tokens(lv[0])[1]
                &&& req.http_version@ == req_tokens(lv[0])[2]
                &&& req.headers_view() == spec_headers(lv)
                &&& unique_keys(req.headers_view())
                &&& req.host@ == promoted(spec_headers(lv), "Host"@)
                &&& req.user_agent@ == promoted(spec_headers(lv), "User-Agent"@)
                &&& req.ip@ == ip@
                &&& req.error is None
            }),
    {
        let ghost lv = strs_view(lines@);
        if lines.len() == 0 {
            return Err(ParseError::MalformedRequestLine);
        }
        let toks = split_str(lines[0].as_str(), ' ');
        proof {
            assert(lv[0] == lines@[0]@);
        }
        if toks.len() < 3 {
            return Err(ParseError::MalformedRequestLine);
        }
        let method = toks[0].clone();
        let path = toks[1].clone();
        let http_version = toks[2].clone();
        if !str_eq(http_version.as_str(), "HTTP/1.1") {
            return Err(ParseError::UnsupportedVersion);
        }
        let n = lines.len();
        let mut headers: Vec<(String, String)> = Vec::new();
        proof {
            assert(pairs_view(headers@) =~= Seq::<(Seq<char>, Seq<char>)>::empty());
        }
        let mut i: usize = 1;
        while i < n
            invariant
                1 <= i <= n,
                n == lines@.len(),
                lv == strs_view(lines@),
                lv.len() == n,
                forall|j: int| 0 <= j < n ==> #[trigger] lv[j] == lines@[j]@,
                unique_keys(pairs_view(headers@)),
                forall|j: int| 1 <= j < i ==> header_line_ok(#[trigger] lv[j]),
                fold_headers(pairs_view(headers@), lv.skip(i as int)) == spec_headers(lv),
            decreases n - i,
        {
            let line = lines[i].as_str();
            let ln = line.unicode_len();
            let ci = find_char(line, ':');
            proof {
                crate::strutil::lemma_first_index_of(line@, ':');
            }
            if ci == ln {
                return Err(ParseError::MalformedHeader);
            }
            let key = line.substring_char(0, ci);
            let val = trim_str(line.substring_char(ci + 1, ln));
            proof {
                assert(key@ =~= header_key(lv[i as int]));
                assert(line@.subrange(ci + 1, ln as int) =~= lv[i as int].skip(ci + 1));
                assert(val@ =~= header_val(lv[i as int]));
                assert(lv.skip(i as int).drop_first() =~= lv.skip(i as int + 1));
                assert(lv.skip(i as int)[0] == lv[i as int]);
            }
            crate::strutil::insert_pair_vec(&mut headers, key, val);
            i = i + 1;
        }
        proof {
            assert(lv.skip(n as int) =~= Seq::<Seq<char>>::empty());
        }
        let hi = find_pair(&headers, "Host");
        proof {
            lemma_first_key_index(pairs_view(headers@), "Host"@);
            lemma_lookup_at(pairs_view(headers@), "Host"@);
        }
        let host = if hi < headers.len() {
            headers[hi].1.clone()
        } else {
            String::new()
        };
        let ui = find_pair(&headers, "User-Agent");
        proof {
            lemma_first_key_index(pairs_view(headers@), "User-Agent"@);
            lemma_lookup_at(pairs_view(headers@), "User-Agent"@);
        }
        let user_agent = if ui < headers.len() {
            headers[ui].1.clone()
        } else {
            String::new()
        };
        Ok(Request {
            method,
            path,
            host,
            http_version,
            headers,
            ip: String::from_str(ip),
            user_agent,
            error: None,
        })
    }

    /// The stored value of a header, if one with that name was received.
    pub fn get_header(&self, val: &str) -> (r: Option<&String>)
        ensures
            match r {
                Some(v) => lookup_pairs(self.headers_view(), val@) == Some(v@),
                None => lookup_pairs(self.headers_view(), val@) is None,
            },
    {
        let i = find_pair(&self.headers, val);
        proof {
            lemma_first_key_index(self.headers_view(), val@);
            lemma_lookup_at(self.headers_view(), val@);
        }
        if i < self.headers.len() {
            Some(&self.headers[i].1)
        } else {
            None
        }
    }
}

/// Parses a whole raw request head: its lines up to the first blank line,
/// then the request line and headers, as `build` does.
pub fn parse_request(raw: &str, ip: &str) -> (r: Result<Request, ParseError>)
    ensures
        r is Ok <==> parse_ok(head_lines(raw@)),
        (r == Err::<Request, ParseError>(ParseError::MalformedRequestLine)) <==> (head_lines(
            raw@,
        ).len() == 0 || !req_line_ok(head_lines(raw@)[0])),
        (r == Err::<Request, ParseError>(ParseError::UnsupportedVersion)) <==> (head_lines(
            raw@,
        ).len() > 0 && req_line_ok(head_lines(raw@)[0]) && req_tokens(head_lines(raw@)[0])[2]
            != "HTTP/1.1"@),
        (r == Err::<Request, ParseError>(ParseError::MalformedHeader)) <==> (head_lines(
            raw@,
        ).len() > 0 && req_line_ok(head_lines(raw@)[0]) && req_tokens(head_lines(raw@)[0])[2]
            == "HTTP/1.1"@ && !headers_ok(head_lines(raw@))),
        r is Ok ==> ({
            let lv = head_lines(raw@);
            let req = r->Ok_0;
            &&& req.method@ == req_tokens(lv[0])[0]
            &&& req.path@ == req_tokens(lv[0])[1]
            &&& req.http_version@ == req_tokens(lv[0])[2]
            &&& req.headers_view() == spec_headers(lv)
            &&& req.host@ == promoted(spec_headers(lv), "Host"@)
            &&& req.user_agent@ == promoted(spec_headers(lv), "User-Agent"@)
            &&& req.ip@ == ip@
            &&& req.error is None
        }),
{
    let lines = split_head_lines(raw);
    proof {
        assert(strs_view(lines@) =~= head_lines(raw@));
    }
    Request::build(&lines, ip)
}

} // verus!
