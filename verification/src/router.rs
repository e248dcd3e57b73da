//! Routes and the route table: one ordered list of registrations per
//! dispatch phase, plus one per HTTP method. Insertion order within a list
//! is preserved and is the evaluation order during dispatch.

use vstd::prelude::*;

verus! {

use crate::errors::HttpError;
use crate::request::Request;
use crate::response::Response;
use crate::strutil::{upper, upper_eq};

/// A route handler: application code invoked during a dispatch phase. It
/// may mutate the request and write through the response, and reports
/// whether the request is fully handled (`Ok(true)`), should fall through
/// to later candidates (`Ok(false)`), or failed (`Err`).
pub trait Handler {
    fn handle(&self, req: &mut Request, res: &mut Response) -> Result<bool, HttpError>;
}

/// One registration: a handler with the method and path it was filed under.
/// A `*` path (and, in the errors phase, a `*` method) acts as a wildcard.
pub struct Route<H> {
    pub handler: H,
    pub method: String,
    pub path: String,
}

/// The route table. The method lists are keyed by upper-cased method name;
/// `finals` holds the fallback routes run after the method phase, and
/// `errors` the error-phase routes.
pub struct RouteTable<H> {
    pub global: Vec<Route<H>>,
    pub get: Vec<Route<H>>,
    pub post: Vec<Route<H>>,
    pub put: Vec<Route<H>>,
    pub delete: Vec<Route<H>>,
    pub patch: Vec<Route<H>>,
    pub finals: Vec<Route<H>>,
    pub errors: Vec<Route<H>>,
}

/// The list a request method selects for the method phase; an unknown
/// method selects nothing.
pub open spec fn method_routes<H>(t: &RouteTable<H>, m: Seq<char>) -> Seq<Route<H>> {
    if m == "GET"@ {
        t.get@
    } else if m == "POST"@ {
        t.post@
    } else if m == "PUT"@ {
        t.put@
    } else if m == "DELETE"@ {
        t.delete@
    } else if m == "PATCH"@ {
        t.patch@
    } else {
        Seq::<Route<H>>::empty()
    }
}

/// `after` extends `before` by exactly one route carrying the given
/// method, path and handler.
pub open spec fn appended<H>(
    before: Seq<Route<H>>,
    after: Seq<Route<H>>,
    m: Seq<char>,
    p: Seq<char>,
    h: H,
) -> bool {
    &&& after.len() == before.len() + 1
    &&& (forall|i: int| 0 <= i < before.len() ==> after[i] == before[i])
    &&& after.last().method@ == m
    &&& after.last().path@ == p
    &&& after.last().handler == h
}

/// The methods with a list of their own.
pub open spec fn is_known_method(m: Seq<char>) -> bool {
    ||| upper(m) == "GET"@
    ||| upper(m) == "POST"@
    ||| upper(m) == "PUT"@
    ||| upper(m) == "DELETE"@
    ||| upper(m) == "PATCH"@
}

impl<H> RouteTable<H> {
    /// An empty table: every phase list empty.
    pub fn new() -> (r: Self)
        ensures
            r.global@.len() == 0,
            r.finals@.len() == 0,
            r.errors@.len() == 0,
            forall|m: Seq<char>| method_routes(&r, m).len() == 0,
    {
        RouteTable {
            global: Vec::new(),
            get: Vec::new(),
            post: Vec::new(),
            put: Vec::new(),
            delete: Vec::new(),
            patch: Vec::new(),
            finals: Vec::new(),
            errors: Vec::new(),
        }
    }

    /// Files a route under its upper-cased HTTP method, keeping the
    /// method string as given. Only the selected method list changes.
    pub fn register(&mut self, method: &str, path: &str, handler: H)
        requires
            is_known_method(method@),
        ensures
            appended(
                method_routes(old(self), upper(method@)),
                method_routes(final(self), upper(method@)),
                method@,
                path@,
                handler,
            ),
            forall|m2: Seq<char>| m2 != upper(method@) ==> method_routes(final(self), m2)
                == method_routes(old(self), m2),
            final(self).global == old(self).global,
            final(self).finals == old(self).finals,
            final(self).errors == old(self).errors,
    {
        let route = Route {
            handler,
            method: String::from_str(method),
            path: String::from_str(path),
        };
        if upper_eq(method, "GET") {
            self.get.push(route);
        } else if upper_eq(method, "POST") {
            self.post.push(route);
        } else if upper_eq(method, "PUT") {
            self.put.push(route);
        } else if upper_eq(method, "DELETE") {
            self.delete.push(route);
        } else if upper_eq(method, "PATCH") {
            self.patch.push(route);
        } else {
            proof {
                assert(false);
            }
        }
    }

    /// Registers a global-phase route under the given path, with a
    /// wildcard method. Global routes run before every other phase.
    pub fn middleware(&mut self, path: &str, handler: H)
        ensures
            appended(old(self).global@, final(self).global@, "*"@, path@, handler),
            forall|m2: Seq<char>| method_routes(final(self), m2) == method_routes(old(self), m2),
            final(self).finals == old(self).finals,
            final(self).errors == old(self).errors,
    {
        self.global.push(Route {
            handler,
            method: String::from_str("*"),
            path: String::from_str(path),
        });
    }

    /// Registers a final-phase route: a fallback run only when no earlier
    /// phase handled the request.
    pub fn last(&mut self, path: &str, handler: H)
        ensures
            appended(old(self).finals@, final(self).finals@, "*"@, path@, handler),
            forall|m2: Seq<char>| method_routes(final(self), m2) == method_routes(old(self), m2),
            final(self).global == old(self).global,
            final(self).errors == old(self).errors,
    {
        self.finals.push(Route {
            handler,
            method: String::from_str("*"),
            path: String::from_str(path),
        });
    }

    /// Registers an error-phase route under the given method and path,
    /// either of which may be the wildcard `*`.
    pub fn error_ware(&mut self, method: &str, path: &str, handler: H)
        ensures
            appended(old(self).errors@, final(self).errors@, method@, path@, handler),
            forall|m2: Seq<char>| method_routes(final(self), m2) == method_routes(old(self), m2),
            final(self).global == old(self).global,
            final(self).finals == old(self).finals,
    {
        self.errors.push(Route {
            handler,
            method: String::from_str(method),
            path: String::from_str(path),
        });
    }

    /// Registers a route for the `GET` method.
    pub fn get(&mut self, path: &str, handler: H)
        ensures
            appended(old(self).get@, final(self).get@, "get"@, path@, handler),
            forall|m2: Seq<char>| m2 != "GET"@ ==> method_routes(final(self), m2) == method_routes(
                old(self),
                m2,
            ),
            final(self).global == old(self).global,
            final(self).finals == old(self).finals,
            final(self).errors == old(self).errors,
    {
        proof {
            lemma_upper_methods();
        }
        self.register("get", path, handler);
    }

    /// Registers a route for the `POST` method.
    pub fn post(&mut self, path: &str, handler: H)
        ensures
            appended(old(self).post@, final(self).post@, "post"@, path@, handler),
            forall|m2: Seq<char>| m2 != "POST"@ ==> method_routes(final(self), m2)
                == method_routes(old(self), m2),
            final(self).global == old(self).global,
            final(self).finals == old(self).finals,
            final(self).errors == old(self).errors,
    {
        proof {
            lemma_upper_methods();
        }
        self.register("post", path, handler);
    }

    /// Registers a route for the `PUT` method.
    pub fn put(&mut self, path: &str, handler: H)
        ensures
            appended(old(self).put@, final(self).put@, "put"@, path@, handler),
            forall|m2: Seq<char>| m2 != "PUT"@ ==> method_routes(final(self), m2) == method_routes(
                old(self),
                m2,
            ),
            final(self).global == old(self).global,
            final(self).finals == old(self).finals,
            final(self).errors == old(self).errors,
    {
        proof {
            lemma_upper_methods();
        }
        self.register("put", path, handler);
    }

    /// Registers a route for the `DELETE` method.
    pub fn delete(&mut self, path: &str, handler: H)
        ensures
            appended(old(self).delete@, final(self).delete@, "delete"@, path@, handler),
            forall|m2: Seq<char>| m2 != "DELETE"@ ==> method_routes(final(self), m2)
                == method_routes(old(self), m2),
            final(self).global == old(self).global,
            final(self).finals == old(self).finals,
            final(self).errors == old(self).errors,
    {
        proof {
            lemma_upper_methods();
        }
        self.register("delete", path, handler);
    }

    /// Registers a route for the `PATCH` method.
    pub fn patch(&mut self, path: &str, handler: H)
        ensures
            appended(old(self).patch@, final(self).patch@, "patch"@, path@, handler),
            forall|m2: Seq<char>| m2 != "PATCH"@ ==> method_routes(final(self), m2)
                == method_routes(old(self), m2),
            final(self).global == old(self).global,
            final(self).finals == old(self).finals,
            final(self).errors == old(self).errors,
    {
        proof {
            lemma_upper_methods();
        }
        self.register("patch", path, handler);
    }
}

/// The lower-case method names upper-case to their list keys.
proof fn lemma_upper_methods()
    ensures
        upper("get"@) == "GET"@,
        upper("post"@) == "POST"@,
        upper("put"@) == "PUT"@,
        upper("delete"@) == "DELETE"@,
        upper("patch"@) == "PATCH"@,
        "POST"@ != "GET"@,
        "PUT"@ != "GET"@ && "PUT"@ != "POST"@,
        "DELETE"@ != "GET"@ && "DELETE"@ != "POST"@ && "DELETE"@ != "PUT"@,
        "PATCH"@ != "GET"@ && "PATCH"@ != "POST"@ && "PATCH"@ != "PUT"@ && "PATCH"@ != "DELETE"@,
{
    reveal_strlit("get");
    reveal_strlit("GET");
    reveal_strlit("post");
    reveal_strlit("POST");
    reveal_strlit("put");
    reveal_strlit("PUT");
    reveal_strlit("delete");
    reveal_strlit("DELETE");
    reveal_strlit("patch");
    reveal_strlit("PATCH");
    assert("PUT"@[0] == 'P' && "GET"@[0] == 'G');
    assert(upper("get"@) =~= "GET"@);
    assert(upper("post"@) =~= "POST"@);
    assert(upper("put"@) =~= "PUT"@);
    assert(upper("delete"@) =~= "DELETE"@);
    assert(upper("patch"@) =~= "PATCH"@);
}

} // verus!
