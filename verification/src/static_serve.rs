//! Path resolution for the static-file middleware: joins a request path
//! onto a root directory, serves `index.html` for the root path, and
//! rejects any request that could climb out of the root. The middleware
//! itself — opening and reading the resolved file — lives with the
//! runtime; this module decides, and its decision is verified.

use vstd::prelude::*;

verus! {

use crate::strutil::{split_on, split_str, str_eq};

/// The request path without its leading slash.
pub open spec fn strip_slash(p: Seq<char>) -> Seq<char> {
    if p.len() > 0 && p[0] == '/' {
        p.drop_first()
    } else {
        p
    }
}

/// The path relative to the root: the stripped request path, or
/// `index.html` when the request is for the root itself.
pub open spec fn rel_of(p: Seq<char>) -> Seq<char> {
    if strip_slash(p).len() == 0 {
        "index.html"@
    } else {
        strip_slash(p)
    }
}

/// Whether any slash-separated component of `p` is `..`.
pub open spec fn has_dotdot(p: Seq<char>) -> bool {
    exists|k: int| 0 <= k < split_on(p, '/').len() && split_on(p, '/')[k] == ".."@
}

/// Where a request path resolves under `root`: the root, a slash and the
/// relative path — or nothing when the relative path holds a `..`
/// component and could escape the root.
pub open spec fn resolved_static(root: Seq<char>, p: Seq<char>) -> Option<Seq<char>> {
    if has_dotdot(rel_of(p)) {
        None
    } else {
        Some(root + seq!['/'] + rel_of(p))
    }
}

/// Resolves a request path against a root directory. Returns the file
/// path to serve, or nothing — to be answered with a not-found response —
/// when the path could escape the root.
pub fn resolve_static(root: &str, path: &str) -> (r: Option<String>)
    ensures
        match r {
            Some(s) => resolved_static(root@, path@) == Some(s@),
            None => resolved_static(root@, path@) is None,
        },
        r is None <==> has_dotdot(rel_of(path@)),
        r is Some ==> r->0@ == root@ + seq!['/'] + rel_of(path@),
{
    let n = path.unicode_len();
    let stripped: &str = if n > 0 && path.get_char(0) == '/' {
        let s = path.substring_char(1, n);
        proof {
            assert(s@ =~= path@.drop_first());
        }
        s
    } else {
        path
    };
    let rel: &str = if stripped.unicode_len() == 0 {
        "index.html"
    } else {
        stripped
    };
    let parts = split_str(rel, '/');
    let np = parts.len();
    let mut k: usize = 0;
    while k < np
        invariant
            0 <= k <= np,
            np == parts@.len(),
            parts@.len() == split_on(rel@, '/').len(),
            forall|j: int| 0 <= j < np ==> #[trigger] parts@[j]@ == split_on(rel@, '/')[j],
            forall|j: int| 0 <= j < k ==> split_on(rel@, '/')[j] != ".."@,
            rel@ == rel_of(path@),
        decreases np - k,
    {
        if str_eq(parts[k].as_str(), "..") {
            return None;
        }
        k = k + 1;
    }
    let mut out = String::from_str(root);
    out.append("/");
    out.append(rel);
    proof {
        reveal_strlit("/");
        assert("/"@ =~= seq!['/']);
        assert(out@ =~= root@ + seq!['/'] + rel_of(path@));
    }
    Some(out)
}

} // verus!
