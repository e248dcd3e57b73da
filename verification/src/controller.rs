//! The dispatcher: walks one request through the route phases in a fixed
//! order — global, then the request method's list, then the finals — and,
//! on the first handler failure, through the errors phase. Within a phase
//! the first candidate both matching and reporting the request handled (or
//! failing) wins; everything later is skipped.
//!
//! The phase walk itself is the `Dispatch` step machine, whose contracts
//! pin exactly which route is offered next. `handle_requests` drives it,
//! invoking the handlers through the `Handler` trait.

use vstd::prelude::*;

verus! {

use crate::errors::HttpError;
use crate::request::Request;
use crate::response::Response;
use crate::router::{method_routes, Handler, Route, RouteTable};
use crate::strutil::str_eq;

/// The four buckets of the dispatch order.
#[derive(Clone, Copy, Debug, PartialEq, Eq, Structural)]
pub enum Phase {
    Global,
    Method,
    Final,
    Errors,
}

/// The route list one phase walks, for a request with method `m`.
pub open spec fn phase_routes<H>(t: &RouteTable<H>, m: Seq<char>, ph: Phase) -> Seq<Route<H>> {
    match ph {
        Phase::Global => t.global@,
        Phase::Method => method_routes(t, m),
        Phase::Final => t.finals@,
        Phase::Errors => t.errors@,
    }
}

/// Whether a route is a candidate in phase `ph` for a request with method
/// `m` and path `p`. The global and final phases match on path, exactly or
/// by wildcard; the method phase matches on path only, with no wildcard;
/// the errors phase filters on both path and method, each wildcardable.
pub open spec fn route_matches<H>(r: Route<H>, ph: Phase, m: Seq<char>, p: Seq<char>) -> bool {
    match ph {
        Phase::Global => r.path@ == p || r.path@ == "*"@,
        Phase::Method => r.path@ == p,
        Phase::Final => r.path@ == p || r.path@ == "*"@,
        Phase::Errors => (r.path@ == p || r.path@ == "*"@) && (r.method@ == m || r.method@
            == "*"@),
    }
}

/// The phase walked after `ph` finds no further candidate.
pub open spec fn phase_after(ph: Phase) -> Option<Phase> {
    match ph {
        Phase::Global => Some(Phase::Method),
        Phase::Method => Some(Phase::Final),
        Phase::Final => None,
        Phase::Errors => None,
    }
}

/// How many phases can still follow `ph`.
pub open spec fn phase_rank(ph: Phase) -> nat {
    match ph {
        Phase::Global => 3,
        Phase::Method => 2,
        Phase::Final => 1,
        Phase::Errors => 0,
    }
}

/// The earliest candidate of one phase list at or after `from`.
pub open spec fn next_in_phase<H>(
    rs: Seq<Route<H>>,
    ph: Phase,
    m: Seq<char>,
    p: Seq<char>,
    from: int,
) -> Option<int>
    decreases rs.len() - from,
{
    if from < 0 || from >= rs.len() {
        None
    } else if route_matches(rs[from], ph, m, p) {
        Some(from)
    } else {
        next_in_phase(rs, ph, m, p, from + 1)
    }
}

/// The next candidate of the whole dispatch, starting in phase `ph` at
/// index `from` and falling through the later phases in order.
pub open spec fn next_candidate<H>(
    t: &RouteTable<H>,
    m: Seq<char>,
    p: Seq<char>,
    ph: Phase,
    from: int,
) -> Option<(Phase, int)>
    decreases phase_rank(ph),
{
    match next_in_phase(phase_routes(t, m, ph), ph, m, p, from) {
        Some(i) => Some((ph, i)),
        None => match phase_after(ph) {
            Some(ph2) => next_candidate(t, m, p, ph2, 0),
            None => None,
        },
    }
}

/// What `next_in_phase` finds: the earliest match at or after `from`, and
/// nothing when no route from `from` on matches.
pub proof fn lemma_next_in_phase_props<H>(
    rs: Seq<Route<H>>,
    ph: Phase,
    m: Seq<char>,
    p: Seq<char>,
    from: int,
)
    requires
        from >= 0,
    ensures
        match next_in_phase(rs, ph, m, p, from) {
            Some(i) => from <= i < rs.len() && route_matches(rs[i], ph, m, p) && (forall|j: int|
                from <= j < i ==> !route_matches(rs[j], ph, m, p)),
            None => forall|j: int| from <= j < rs.len() ==> !route_matches(rs[j], ph, m, p),
        },
    decreases rs.len() - from,
{
    if from < rs.len() && !route_matches(rs[from], ph, m, p) {
        lemma_next_in_phase_props(rs, ph, m, p, from + 1);
    }
}

/// What `next_candidate` offers: a matching route of some phase, found in
/// the starting phase at or after `from`, or in a strictly later phase
/// from its beginning. The errors phase only ever offers errors-phase
/// routes.
pub proof fn lemma_next_candidate_props<H>(
    t: &RouteTable<H>,
    m: Seq<char>,
    p: Seq<char>,
    ph: Phase,
    from: int,
)
    requires
        from >= 0,
    ensures
        match next_candidate(t, m, p, ph, from) {
            Some(c) => {
                let (ph2, i) = c;
                &&& 0 <= i < phase_routes(t, m, ph2).len()
                &&& route_matches(phase_routes(t, m, ph2)[i], ph2, m, p)
                &&& (ph2 == ph && i >= from) || phase_rank(ph2) < phase_rank(ph)
                &&& (ph is Errors ==> ph2 is Errors)
            },
            None => true,
        },
    decreases phase_rank(ph),
{
    lemma_next_in_phase_props(phase_routes(t, m, ph), ph, m, p, from);
    match next_in_phase(phase_routes(t, m, ph), ph, m, p, from) {
        Some(i) => {},
        None => {
            match phase_after(ph) {
                Some(ph2) => {
                    lemma_next_candidate_props(t, m, p, ph2, 0);
                },
                None => {},
            }
        },
    }
}

/// The dispatch step machine for one request: the position of the walk
/// through the phases. `next` offers the next matching route; the caller
/// invokes its handler and `report`s the outcome, which moves the walk.
pub struct Dispatch {
    pub phase: Phase,
    pub at: usize,
    /// A candidate has been offered and its outcome not yet reported.
    pub awaiting: bool,
    pub finished: bool,
}

impl Dispatch {
    pub open spec fn inv(&self) -> bool {
        self.awaiting ==> self.at < usize::MAX && !self.finished
    }

    /// A walk at the start of the global phase.
    pub fn new() -> (r: Dispatch)
        ensures
            r.inv(),
            r.phase == Phase::Global,
            r.at == 0,
            !r.awaiting,
            !r.finished,
    {
        Dispatch { phase: Phase::Global, at: 0, awaiting: false, finished: false }
    }

    /// Offers the next candidate route — the earliest match from the
    /// current position, falling through later phases in order — or
    /// reports the walk finished.
    pub fn next<H>(&mut self, table: &RouteTable<H>, req: &Request) -> (r: Option<(Phase, usize)>)
        requires
            old(self).inv(),
            !old(self).awaiting,
        ensures
            final(self).inv(),
            old(self).finished ==> r is None && *final(self) == *old(self),
            !old(self).finished ==> {
                let c = next_candidate(
                    table,
                    req.method@,
                    req.path@,
                    old(self).phase,
                    old(self).at as int,
                );
                match r {
                    Some(pair) => c == Some((pair.0, pair.1 as int)) && final(self).phase == pair.0
                        && final(self).at == pair.1 && final(self).awaiting && !final(self).finished,
                    None => c is None && final(self).finished && !final(self).awaiting,
                }
            },
    {
        if self.finished {
            return None;
        }
        let ghost ph0 = self.phase;
        let ghost at0 = self.at as int;
        let m = req.method.as_str();
        let p = req.path.as_str();
        let mut ph = self.phase;
        let mut idx: usize = self.at;
        if matches!(ph, Phase::Global) {
            let rs = &table.global;
            let found = scan_phase(rs, Phase::Global, m, p, idx);
            proof {
                lemma_next_in_phase_props(rs@, Phase::Global, m@, p@, idx as int);
            }
            if found < rs.len() {
                self.phase = Phase::Global;
                self.at = found;
                self.awaiting = true;
                return Some((Phase::Global, found));
            }
            ph = Phase::Method;
            idx = 0;
            proof {
                assert(next_candidate(table, m@, p@, ph0, at0) == next_candidate(
                    table,
                    m@,
                    p@,
                    Phase::Method,
                    0,
                ));
            }
        }
        if matches!(ph, Phase::Method) {
            match method_list_of(table, m) {
                Some(rs) => {
                    let found = scan_phase(rs, Phase::Method, m, p, idx);
                    proof {
                        lemma_next_in_phase_props(rs@, Phase::Method, m@, p@, idx as int);
                    }
                    if found < rs.len() {
                        self.phase = Phase::Method;
                        self.at = found;
                        self.awaiting = true;
                        return Some((Phase::Method, found));
                    }
                },
                None => {
                    proof {
                        lemma_next_in_phase_props(
                            phase_routes(table, m@, Phase::Method),
                            Phase::Method,
                            m@,
                            p@,
                            idx as int,
                        );
                    }
                },
            }
            ph = Phase::Final;
            idx = 0;
            proof {
                assert(next_candidate(table, m@, p@, ph0, at0) == next_candidate(
                    table,
                    m@,
                    p@,
                    Phase::Final,
                    0,
                ));
            }
        }
        if matches!(ph, Phase::Final) {
            let rs = &table.finals;
            let found = scan_phase(rs, Phase::Final, m, p, idx);
            proof {
                lemma_next_in_phase_props(rs@, Phase::Final, m@, p@, idx as int);
            }
            if found < rs.len() {
                self.phase = Phase::Final;
                self.at = found;
                self.awaiting = true;
                return Some((Phase::Final, found));
            }
            self.finished = true;
            return None;
        }
        let rs = &table.errors;
        let found = scan_phase(rs, Phase::Errors, m, p, idx);
        proof {
            lemma_next_in_phase_props(rs@, Phase::Errors, m@, p@, idx as int);
        }
        if found < rs.len() {
            self.phase = Phase::Errors;
            self.at = found;
            self.awaiting = true;
            return Some((Phase::Errors, found));
        }
        self.finished = true;
        None
    }

    /// Moves the walk by one reported handler outcome: `Ok(true)` finishes
    /// the dispatch; `Ok(false)` steps past the candidate; an error from a
    /// normal phase stores the error on the request and restarts the walk
    /// at the errors phase; an error from the errors phase itself finishes
    /// the dispatch and escalates the error to the caller.
    pub fn report(&mut self, req: &mut Request, outcome: Result<bool, HttpError>) -> (esc: Option<
        HttpError,
    >)
        requires
            old(self).inv(),
            old(self).awaiting,
        ensures
            final(self).inv(),
            !final(self).awaiting,
            match outcome {
                Ok(true) => final(self).finished && *final(req) == *old(req) && esc is None,
                Ok(false) => !final(self).finished && final(self).phase == old(self).phase
                    && final(self).at == old(self).at + 1 && *final(req) == *old(req)
                    && esc is None,
                Err(e) => if !(old(self).phase is Errors) {
                    &&& !final(self).finished
                    &&& final(self).phase == Phase::Errors
                    &&& final(self).at == 0
                    &&& final(req).error == Some(e)
                    &&& final(req).same_but_error(old(req))
                    &&& esc is None
                } else {
                    &&& final(self).finished
                    &&& *final(req) == *old(req)
                    &&& esc == Some(e)
                },
            },
    {
        self.awaiting = false;
        match outcome {
            Ok(true) => {
                self.finished = true;
                None
            },
            Ok(false) => {
                self.at = self.at + 1;
                None
            },
            Err(e) => {
                if !matches!(self.phase, Phase::Errors) {
                    self.phase = Phase::Errors;
                    self.at = 0;
                    req.error = Some(e);
                    None
                } else {
                    self.finished = true;
                    Some(e)
                }
            },
        }
    }
}

/// Scans one phase list for the earliest match at or after `from`,
/// reported as the list length when there is none.
#[verifier::loop_isolation(false)]
fn scan_phase<H>(rs: &Vec<Route<H>>, ph: Phase, m: &str, p: &str, from: usize) -> (r: usize)
    ensures
        match next_in_phase(rs@, ph, m@, p@, from as int) {
            Some(i) => r == i,
            None => r == rs@.len(),
        },
{
    proof {
        lemma_next_in_phase_props(rs@, ph, m@, p@, from as int);
    }
    let n = rs.len();
    let mut i: usize = from;
    if i > n {
        i = n;
    }
    while i < n
        invariant
            from <= n ==> from <= i,
            from > n ==> i == n,
            i <= n,
            n == rs@.len(),
            forall|j: int| from <= j < i ==> !route_matches(rs@[j], ph, m@, p@),
        decreases n - i,
    {
        if matches_route(&rs[i], ph, m, p) {
            proof {
                lemma_next_in_phase_props(rs@, ph, m@, p@, from as int);
            }
            return i;
        }
        i = i + 1;
    }
    n
}

/// Whether one route matches in one phase.
fn matches_route<H>(r: &Route<H>, ph: Phase, m: &str, p: &str) -> (b: bool)
    ensures
        b == route_matches(*r, ph, m@, p@),
{
    match ph {
        Phase::Global => str_eq(r.path.as_str(), p) || str_eq(r.path.as_str(), "*"),
        Phase::Method => str_eq(r.path.as_str(), p),
        Phase::Final => str_eq(r.path.as_str(), p) || str_eq(r.path.as_str(), "*"),
        Phase::Errors => (str_eq(r.path.as_str(), p) || str_eq(r.path.as_str(), "*")) && (str_eq(
            r.method.as_str(),
            m,
        ) || str_eq(r.method.as_str(), "*")),
    }
}

/// The stored list one request method selects for the method phase; an
/// unknown method selects none.
fn method_list_of<'a, H>(t: &'a RouteTable<H>, m: &str) -> (r: Option<&'a Vec<Route<H>>>)
    ensures
        match r {
            Some(v) => v@ == method_routes(t, m@),
            None => method_routes(t, m@) == Seq::<Route<H>>::empty(),
        },
{
    if str_eq(m, "GET") {
        Some(&t.get)
    } else if str_eq(m, "POST") {
        Some(&t.post)
    } else if str_eq(m, "PUT") {
        Some(&t.put)
    } else if str_eq(m, "DELETE") {
        Some(&t.delete)
    } else if str_eq(m, "PATCH") {
        Some(&t.patch)
    } else {
        None
    }
}

/// One phase list's route at a given index.
fn route_at<'a, H>(t: &'a RouteTable<H>, ph: Phase, m: &str, i: usize) -> (r: &'a Route<H>)
    requires
        0 <= i < phase_routes(t, m@, ph).len(),
    ensures
        *r == phase_routes(t, m@, ph)[i as int],
{
    match ph {
        Phase::Global => &t.global[i],
        Phase::Method => match method_list_of(t, m) {
            Some(v) => &v[i],
            None => vstd::pervasive::unreached(),
        },
        Phase::Final => &t.finals[i],
        Phase::Errors => &t.errors[i],
    }
}

/// Walks one request through the phases, invoking each offered handler
/// until one reports the request handled, a failure exhausts the errors
/// phase, or no candidate is left. Returns the error that escaped the
/// errors phase, if any; when no route matches the request at all, the
/// request and the response are left exactly as they were.
#[verifier::loop_isolation(false)]
pub fn handle_requests<H: Handler>(
    table: &RouteTable<H>,
    req: &mut Request,
    res: &mut Response,
) -> (esc: Option<HttpError>)
    ensures
        next_candidate(table, old(req).method@, old(req).path@, Phase::Global, 0) is None ==> *final(req) == *old(req) && *final(res) == *old(res) && esc is None,
{
    let mut d = Dispatch::new();
    let ghost none_at_entry = next_candidate(
        table,
        old(req).method@,
        old(req).path@,
        Phase::Global,
        0,
    ) is None;
    loop
        invariant
            d.inv(),
            !d.awaiting,
            none_at_entry ==> *req == *old(req) && *res == *old(res) && !d.finished
                && d.phase == Phase::Global && d.at == 0,
        decreases (if d.finished {
            0int
        } else {
            1int
        }), phase_rank(d.phase), usize::MAX - d.at,
    {
        let ghost ph_before = d.phase;
        let ghost at_before = d.at;
        let offered = d.next(table, req);
        match offered {
            None => {
                return None;
            },
            Some(pair) => {
                proof {
                    lemma_next_candidate_props(
                        table,
                        req.method@,
                        req.path@,
                        ph_before,
                        at_before as int,
                    );
                }
                let route = route_at(table, pair.0, req.method.as_str(), pair.1);
                let outcome = route.handler.handle(req, res);
                let esc = d.report(req, outcome);
                if let Some(e) = esc {
                    return Some(e);
                }
            },
        }
    }
}

/// Law (dispatch order): when some global route matches the request, the
/// first candidate the dispatch offers is the earliest matching global
/// route — never a method-phase or final-phase route. Once that handler
/// reports the request handled, `Dispatch::report` finishes the walk and
/// `Dispatch::next` offers nothing further, so only the global handler's
/// effects occur.
pub proof fn lemma_global_phase_wins<H>(t: &RouteTable<H>, m: Seq<char>, p: Seq<char>, k: int)
    requires
        0 <= k < t.global@.len(),
        route_matches(t.global@[k], Phase::Global, m, p),
    ensures
        ({
            let c = next_candidate(t, m, p, Phase::Global, 0);
            &&& c is Some
            &&& (c->0).0 is Global
            &&& 0 <= (c->0).1 < t.global@.len()
            &&& route_matches(t.global@[(c->0).1], Phase::Global, m, p)
            &&& (forall|j: int| 0 <= j < (c->0).1 ==> !route_matches(
                t.global@[j],
                Phase::Global,
                m,
                p,
            ))
        }),
{
    lemma_next_in_phase_props(t.global@, Phase::Global, m, p, 0);
}

/// Law (error isolation): every candidate offered from the errors phase is
/// an errors-phase route passing the error filter — its path equal to the
/// request path or `*`, and its method equal to the request method or `*`.
/// Together with `Dispatch::report` — which, on a handler failure, stores
/// the error in the request's error slot and moves the walk to the errors
/// phase — no method-phase or final-phase handler runs after a failure.
pub proof fn lemma_errors_phase_only<H>(t: &RouteTable<H>, m: Seq<char>, p: Seq<char>, from: int)
    requires
        from >= 0,
    ensures
        match next_candidate(t, m, p, Phase::Errors, from) {
            Some(c) => c.0 is Errors && 0 <= c.1 < t.errors@.len() && (t.errors@[c.1].path@ == p
                || t.errors@[c.1].path@ == "*"@) && (t.errors@[c.1].method@ == m
                || t.errors@[c.1].method@ == "*"@),
            None => true,
        },
{
    lemma_next_candidate_props(t, m, p, Phase::Errors, from);
}

} // verus!
