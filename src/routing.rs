//! Routes, the registry that orders them by rank, and the dispatcher that
//! tries them in that order until one answers.
use vstd::prelude::*;
use crate::convert::{
    CustomPath, GoodAge, OneTaskKind, is_good_age, second_segment, spells_u8, task_kind_of,
    u8_param, usize_param,
};
use crate::forms::{
    FormTask, LoginCredentials, StrictTask, UNPROCESSABLE, login_form, strict_task_form, task_form,
};
use crate::handlers::{
    admin_index, admin_text, bad_aged_hello, bad_aged_text, clean_path, echo, good_aged_hello,
    good_aged_text, html_tasks, index, inner, joined, json_tasks, login_page, login_submit,
    login_view, logout, one_task, one_task_view, outer, outer_text, post_lenient_task,
    post_strict_task, post_task, simple_hello, simple_hello_text, token, user_index, user_text,
};
use crate::outcome::Outcome;
use crate::path::{Bindings, SegmentSpec, dynamic_values, fixed_len, match_pattern, views};
use crate::render::{strict_task_debug, task_debug};
use crate::response::{
    Body, BodyView, Format, Method, Request, Response, ResponseView, SessionChange, redirect_view,
    status_response, text_response, text_view,
};
use crate::roles::{Admin, User, admin_outcome, opt_view, user_outcome};
use crate::text::{copy_text, number_value, signed_text, spells_usize};

verus! {

/// The closed set of handlers a route can name.
#[derive(Debug, Clone)]
pub enum Handler {
    HelloWorld,
    SimpleHello,
    GoodAgedHello,
    BadAgedHello,
    Outer,
    Inner,
    Echo,
    PostTask,
    PostLenientTask,
    PostStrictTask,
    HtmlTasks,
    JsonTasks,
    OneTask,
    /// Redirects to the given location.
    Redirect(Vec<char>),
    AdminIndex,
    UserIndex,
    LoginPage,
    LoginSubmit,
    Logout,
    /// Answers with the configured token.
    Token(i64),
}

/// A successful plain-text answer.
pub open spec fn answer(t: Seq<char>) -> Outcome<ResponseView, u16> {
    Outcome::Success(text_view(t))
}

/// What a handler makes of a request and the route's bindings: an answer,
/// a hard failure with a status, or a forward to the next route.
pub open spec fn handler_outcome(
    h: Handler,
    req: Request,
    params: Seq<Seq<char>>,
    rest: Seq<Seq<char>>,
) -> Outcome<ResponseView, u16> {
    match h {
        Handler::HelloWorld => answer("Hello, world!"@),
        Handler::SimpleHello => if params.len() >= 1 {
            answer(simple_hello_text(params[0]))
        } else {
            Outcome::Forward
        },
        Handler::GoodAgedHello => if params.len() >= 2 && is_good_age(params[1]) {
            answer(good_aged_text(params[0], number_value(params[1])))
        } else {
            Outcome::Forward
        },
        Handler::BadAgedHello => if params.len() >= 2 && spells_usize(params[1]) {
            answer(bad_aged_text(params[0], number_value(params[1])))
        } else {
            Outcome::Forward
        },
        Handler::Outer => answer(outer_text(second_segment(rest))),
        Handler::Inner => match second_segment(rest) {
            Ok(s) => answer(s),
            Err(_) => Outcome::Forward,
        },
        Handler::Echo => match clean_path(rest) {
            Some(c) => answer(joined(c)),
            None => Outcome::Forward,
        },
        Handler::PostTask => match task_form(req.body@, true) {
            Ok((n, c)) => answer(task_debug(n, c)),
            Err(_) => Outcome::Failure(UNPROCESSABLE),
        },
        Handler::PostLenientTask => match task_form(req.body@, false) {
            Ok((n, c)) => answer(task_debug(n, c)),
            Err(_) => Outcome::Failure(UNPROCESSABLE),
        },
        Handler::PostStrictTask => match strict_task_form(req.body@) {
            Ok((n, k)) => answer(strict_task_debug(n, k)),
            Err(_) => Outcome::Failure(UNPROCESSABLE),
        },
        Handler::HtmlTasks => Outcome::Success(
            ResponseView {
                status: 200,
                format: Some(Format::Html),
                body: BodyView::Template("tasks"@),
                session: SessionChange::Keep,
            },
        ),
        Handler::JsonTasks => Outcome::Success(
            ResponseView {
                status: 200,
                format: Some(Format::Json),
                body: BodyView::TaskList,
                session: SessionChange::Keep,
            },
        ),
        Handler::OneTask => if params.len() >= 2 && spells_u8(params[0]) && task_kind_of(
            params[1],
        ) is Some {
            Outcome::Success(
                one_task_view(number_value(params[0]) as u8, task_kind_of(params[1]).unwrap()),
            )
        } else {
            Outcome::Forward
        },
        Handler::Redirect(to) => Outcome::Success(redirect_view(to@, SessionChange::Keep)),
        Handler::AdminIndex => match admin_outcome(opt_view(req.cookie)) {
            Outcome::Success(a) => answer(admin_text(a.0.id as nat)),
            _ => Outcome::Forward,
        },
        Handler::UserIndex => match user_outcome(opt_view(req.cookie)) {
            Outcome::Success(u) => answer(user_text(u.id as nat)),
            _ => Outcome::Forward,
        },
        Handler::LoginPage => Outcome::Success(
            ResponseView {
                status: 200,
                format: Some(Format::Html),
                body: BodyView::File("static/login.html"@),
                session: SessionChange::Keep,
            },
        ),
        Handler::LoginSubmit => match login_form(req.body@) {
            Ok((u, p)) => Outcome::Success(login_view(u, p)),
            Err(_) => Outcome::Failure(UNPROCESSABLE),
        },
        Handler::Logout => Outcome::Success(redirect_view("/"@, SessionChange::SignOut)),
        Handler::Token(v) => answer(signed_text(v as int)),
    }
}

/// The view of a handler's outcome.
pub open spec fn outcome_view(o: Outcome<Response, u16>) -> Outcome<ResponseView, u16> {
    match o {
        Outcome::Success(r) => Outcome::Success(r.view()),
        Outcome::Failure(s) => Outcome::Failure(s),
        Outcome::Forward => Outcome::Forward,
    }
}

/// Runs a handler on a request and the bindings of its route, evaluating
/// its guards left to right and stopping at the first that does not
/// succeed.
pub fn run_handler(h: &Handler, req: &Request, b: &Bindings) -> (r: Outcome<Response, u16>)
    ensures
        outcome_view(r) == handler_outcome(*h, *req, views(b.params@), views(b.rest@)),
{
    match h {
        Handler::HelloWorld => Outcome::Success(text_response(index())),
        Handler::SimpleHello => {
            if b.params.len() < 1 {
                return Outcome::Forward;
            }
            Outcome::Success(text_response(simple_hello(&b.params[0])))
        },
        Handler::GoodAgedHello => {
            if b.params.len() < 2 {
                return Outcome::Forward;
            }
            let age = match usize_param(&b.params[1]) {
                Outcome::Success(a) => a,
                _ => return Outcome::Forward,
            };
            let good = match GoodAge::from_segment(&b.params[1]) {
                Outcome::Success(g) => g,
                _ => return Outcome::Forward,
            };
            Outcome::Success(text_response(good_aged_hello(&b.params[0], age, good)))
        },
        Handler::BadAgedHello => {
            if b.params.len() < 2 {
                return Outcome::Forward;
            }
            match usize_param(&b.params[1]) {
                Outcome::Success(age) => Outcome::Success(
                    text_response(bad_aged_hello(&b.params[0], age)),
                ),
                _ => Outcome::Forward,
            }
        },
        Handler::Outer => Outcome::Success(text_response(outer(CustomPath::from_segments(&b.rest)))),
        Handler::Inner => match CustomPath::from_segments(&b.rest) {
            Ok(p) => Outcome::Success(text_response(inner(p))),
            Err(_) => Outcome::Forward,
        },
        Handler::Echo => match echo(&b.rest) {
            Some(t) => Outcome::Success(text_response(t)),
            None => Outcome::Forward,
        },
        Handler::PostTask => match FormTask::from_form(&req.body, true) {
            Ok(t) => Outcome::Success(text_response(post_task(t))),
            Err(_) => Outcome::Failure(UNPROCESSABLE),
        },
        Handler::PostLenientTask => match FormTask::from_form(&req.body, false) {
            Ok(t) => Outcome::Success(text_response(post_lenient_task(t))),
            Err(_) => Outcome::Failure(UNPROCESSABLE),
        },
        Handler::PostStrictTask => match StrictTask::from_form(&req.body) {
            Ok(t) => Outcome::Success(text_response(post_strict_task(t))),
            Err(_) => Outcome::Failure(UNPROCESSABLE),
        },
        Handler::HtmlTasks => Outcome::Success(html_tasks()),
        Handler::JsonTasks => Outcome::Success(json_tasks()),
        Handler::OneTask => {
            if b.params.len() < 2 {
                return Outcome::Forward;
            }
            let id = match u8_param(&b.params[0]) {
                Outcome::Success(i) => i,
                _ => return Outcome::Forward,
            };
            match OneTaskKind::from_param(&b.params[1]) {
                Ok(k) => Outcome::Success(one_task(id, k)),
                Err(_) => Outcome::Forward,
            }
        },
        Handler::Redirect(to) => Outcome::Success(
            Response {
                status: 303,
                format: None,
                body: Body::Redirect(copy_text(to)),
                session: SessionChange::Keep,
            },
        ),
        Handler::AdminIndex => match Admin::from_request(&req.cookie) {
            Outcome::Success(a) => Outcome::Success(text_response(admin_index(a))),
            _ => Outcome::Forward,
        },
        Handler::UserIndex => match User::from_request(&req.cookie) {
            Outcome::Success(u) => Outcome::Success(text_response(user_index(u))),
            _ => Outcome::Forward,
        },
        Handler::LoginPage => Outcome::Success(login_page()),
        Handler::LoginSubmit => match LoginCredentials::from_form(&req.body) {
            Ok(c) => Outcome::Success(login_submit(&c)),
            Err(_) => Outcome::Failure(UNPROCESSABLE),
        },
        Handler::Logout => Outcome::Success(logout()),
        Handler::Token(v) => Outcome::Success(text_response(token(*v))),
    }
}

/// A route: the method and path pattern it answers, the format it
/// declares, its rank (lower is tried first), and its handler.
#[derive(Debug, Clone)]
pub struct Route {
    pub method: Method,
    pub pattern: Vec<SegmentSpec>,
    pub format: Option<Format>,
    pub rank: i64,
    pub handler: Handler,
}

/// The format a request without a preference is taken to accept.
pub const DEFAULT_FORMAT: Format = Format::Html;

/// Whether a route's declared format admits a request. A request that
/// carries a body must carry the declared format. Any other request must
/// prefer the declared format, where a request without a preference
/// prefers the default one.
pub open spec fn format_fits(declared: Option<Format>, m: Method, wanted: Option<Format>) -> bool {
    match declared {
        None => true,
        Some(f) => if crate::response::carries_payload(m) {
            wanted == Some(f)
        } else {
            match wanted {
                Some(w) => w == f,
                None => f == DEFAULT_FORMAT,
            }
        },
    }
}

/// Whether a route is a candidate for a request made with method `m`.
pub open spec fn is_candidate(route: Route, req: Request, m: Method) -> bool {
    &&& route.method == m
    &&& format_fits(route.format, m, req.format)
    &&& crate::path::pattern_matches(route.pattern@, views(req.segments@))
}

/// What trying a route on a request gives.
pub open spec fn attempt(route: Route, req: Request) -> Outcome<ResponseView, u16> {
    let p = route.pattern@;
    let s = views(req.segments@);
    handler_outcome(route.handler, req, dynamic_values(p, s, fixed_len(p)), s.subrange(fixed_len(p), s.len() as int))
}

/// A response carrying only a status.
pub open spec fn status_view(status: u16) -> ResponseView {
    ResponseView { status, format: None, body: BodyView::Empty, session: SessionChange::Keep }
}

/// The status of a request that no route answers.
pub const NOT_FOUND: u16 = 404;

/// Dispatch from the `i`-th route on: the first candidate that does not
/// forward decides, a success with its response and a failure with its
/// status; `None` when every candidate forwards.
pub open spec fn dispatch_from(routes: Seq<Route>, req: Request, m: Method, i: int) -> Option<ResponseView>
    decreases routes.len() - i,
{
    if i < 0 || i >= routes.len() {
        None
    } else if is_candidate(routes[i], req, m) {
        match attempt(routes[i], req) {
            Outcome::Success(r) => Some(r),
            Outcome::Failure(s) => Some(status_view(s)),
            Outcome::Forward => dispatch_from(routes, req, m, i + 1),
        }
    } else {
        dispatch_from(routes, req, m, i + 1)
    }
}

/// The response to a request. Unanswered, it is a 404; a `HEAD` request
/// that no `HEAD` route answers is answered as a `GET`, without the body.
pub open spec fn dispatch_view(routes: Seq<Route>, req: Request) -> ResponseView {
    match dispatch_from(routes, req, req.method, 0) {
        Some(r) => r,
        None => if req.method is Head {
            match dispatch_from(routes, req, Method::Get, 0) {
                Some(r) => ResponseView { body: BodyView::Empty, ..r },
                None => status_view(NOT_FOUND),
            }
        } else {
            status_view(NOT_FOUND)
        },
    }
}

fn format_fits_exec(declared: Option<Format>, m: Method, wanted: Option<Format>) -> (r: bool)
    ensures
        r == format_fits(declared, m, wanted),
{
    match declared {
        None => true,
        Some(f) => {
            let payload = match m {
                Method::Post | Method::Put => true,
                _ => false,
            };
            match wanted {
                None => !payload && f == DEFAULT_FORMAT,
                Some(w) => w == f,
            }
        },
    }
}

/// The routes of an application, kept in order of rank.
pub struct Registry {
    pub routes: Vec<Route>,
}

impl Registry {
    /// Tries the routes in order with method `m`.
    fn dispatch_with(&self, req: &Request, m: Method) -> (r: Option<Response>)
        ensures
            match dispatch_from(self.routes@, *req, m, 0) {
                Some(v) => r is Some && r.unwrap().view() == v,
                None => r is None,
            },
    {
        let mut i: usize = 0;
        while i < self.routes.len()
            invariant
                i <= self.routes@.len(),
                dispatch_from(self.routes@, *req, m, 0) == dispatch_from(self.routes@, *req, m, i as int),
            decreases self.routes@.len() - i,
        {
            let route = &self.routes[i];
            if route.method == m && format_fits_exec(route.format, m, req.format) {
                match match_pattern(&route.pattern, &req.segments) {
                    Some(b) => {
                        match run_handler(&route.handler, req, &b) {
                            Outcome::Success(r) => return Some(r),
                            Outcome::Failure(s) => return Some(status_response(s)),
                            Outcome::Forward => {},
                        }
                    },
                    None => {},
                }
            }
            i = i + 1;
        }
        None
    }

    /// Answers a request: tries the candidate routes in order of rank until
    /// one does not forward.
    pub fn dispatch(&self, req: &Request) -> (r: Response)
        requires
            self.wf(),
        ensures
            r.view() == dispatch_view(self.routes@, *req),
    {
        match self.dispatch_with(req, req.method) {
            Some(r) => r,
            None => {
                if req.method == Method::Head {
                    match self.dispatch_with(req, Method::Get) {
                        Some(r) => Response { body: Body::Empty, ..r },
                        None => status_response(NOT_FOUND),
                    }
                } else {
                    status_response(NOT_FOUND)
                }
            },
        }
    }
}

impl Route {
    /// A route for a pattern text such as `/<name>/<age>`; without a rank,
    /// it takes the pattern's default rank.
    pub fn new(method: Method, path: &str, format: Option<Format>, rank: Option<i64>, handler: Handler) -> (r: Route)
        ensures
            r.method == method,
            r.pattern@.len() == crate::path::path_segments(path@).len(),
            forall|i: int|
                0 <= i < r.pattern@.len() ==> crate::path::declares(
                    crate::path::path_segments(path@)[i],
                    #[trigger] r.pattern@[i],
                ),
            r.format == format,
            r.rank == match rank {
                Some(k) => k,
                None => crate::path::default_rank(r.pattern@),
            },
            r.handler == handler,
    {
        let pattern = crate::path::parse_pattern(path);
        let rank = match rank {
            Some(k) => k,
            None => crate::path::rank_for(&pattern),
        };
        Route { method, pattern, format, rank, handler }
    }
}

impl Route {
    /// A route for a pattern given part by part; without a rank, it takes
    /// the pattern's default rank.
    pub fn from_parts(
        method: Method,
        pattern: Vec<SegmentSpec>,
        format: Option<Format>,
        rank: Option<i64>,
        handler: Handler,
    ) -> (r: Route)
        ensures
            r.method == method,
            r.pattern@ == pattern@,
            r.format == format,
            r.rank == match rank {
                Some(k) => k,
                None => crate::path::default_rank(pattern@),
            },
            r.handler == handler,
    {
        let rank = match rank {
            Some(k) => k,
            None => crate::path::rank_for(&pattern),
        };
        Route { method, pattern, format, rank, handler }
    }
}

/// Whether two routes' formats keep them apart: they take a body and
/// declare different formats, so no request is a candidate for both.
pub open spec fn formats_exclusive(a: Route, b: Route) -> bool {
    &&& crate::response::carries_payload(a.method)
    &&& a.format is Some
    &&& b.format is Some
    &&& a.format != b.format
}

/// Whether two routes could both be tried for one request at one rank,
/// which would leave their order undecided.
pub open spec fn collides(a: Route, b: Route) -> bool {
    &&& a.method == b.method
    &&& crate::path::same_shape(a.pattern@, b.pattern@)
    &&& a.rank == b.rank
    &&& !formats_exclusive(a, b)
}

/// Why a route was not mounted.
#[derive(Debug, Clone, Copy, PartialEq, Eq, Structural)]
pub enum MountError {
    /// A wildcard stands before the end of the pattern.
    BadPattern,
    /// A mounted route has the same method, shape and rank, and a format
    /// that does not keep the two apart.
    Collision,
}

impl Registry {
    /// Routes in order of rank, with well-formed patterns and no two that
    /// collide.
    pub open spec fn wf(&self) -> bool {
        &&& forall|i: int|
            0 <= i < self.routes@.len() ==> crate::path::pattern_wf(
                (#[trigger] self.routes@[i]).pattern@,
            )
        &&& forall|i: int, j: int|
            0 <= i < j < self.routes@.len() ==> (#[trigger] self.routes@[i]).rank
                <= (#[trigger] self.routes@[j]).rank
        &&& forall|i: int, j: int|
            0 <= i < self.routes@.len() && 0 <= j < self.routes@.len() && i != j ==> !collides(
                #[trigger] self.routes@[i],
                #[trigger] self.routes@[j],
            )
    }

    /// An empty registry.
    pub fn new() -> (r: Registry)
        ensures
            r.wf(),
            r.routes@.len() == 0,
    {
        Registry { routes: Vec::new() }
    }

    /// Mounts a route after every route of lower or equal rank, so that
    /// routes of one rank keep the order in which they were mounted.
    /// Returns the position it took.
    pub fn mount(&mut self, route: Route) -> (r: Result<usize, MountError>)
        requires
            old(self).wf(),
        ensures
            final(self).wf(),
            !crate::path::pattern_wf(route.pattern@) ==> r == Err::<usize, MountError>(
                MountError::BadPattern,
            ),
            crate::path::pattern_wf(route.pattern@) && (exists|i: int|
                0 <= i < old(self).routes@.len() && collides(
                    #[trigger] old(self).routes@[i],
                    route,
                )) ==> r == Err::<usize, MountError>(MountError::Collision),
            crate::path::pattern_wf(route.pattern@) && !(exists|i: int|
                0 <= i < old(self).routes@.len() && collides(
                    #[trigger] old(self).routes@[i],
                    route,
                )) ==> r is Ok,
            r is Err ==> final(self).routes@ == old(self).routes@,
            r is Ok ==> {
                let p = r->Ok_0 as int;
                &&& p <= old(self).routes@.len()
                &&& final(self).routes@ == old(self).routes@.insert(p, route)
                &&& forall|i: int| 0 <= i < p ==> (#[trigger] old(self).routes@[i]).rank <= route.rank
                &&& forall|i: int|
                    p <= i < old(self).routes@.len() ==> (#[trigger] old(self).routes@[i]).rank
                        > route.rank
            },
    {
        if !pattern_is_wf(&route.pattern) {
            return Err(MountError::BadPattern);
        }
        let n = self.routes.len();
        let mut i: usize = 0;
        while i < n
            invariant
                n == self.routes@.len(),
                self.routes@ == old(self).routes@,
                self.wf(),
                crate::path::pattern_wf(route.pattern@),
                i <= n,
                forall|j: int| 0 <= j < i ==> !collides(#[trigger] self.routes@[j], route),
            decreases n - i,
        {
            if routes_collide(&self.routes[i], &route) {
                return Err(MountError::Collision);
            }
            i = i + 1;
        }
        let mut p: usize = 0;
        while p < n && self.routes[p].rank <= route.rank
            invariant
                n == self.routes@.len(),
                self.routes@ == old(self).routes@,
                self.wf(),
                p <= n,
                forall|j: int| 0 <= j < p ==> (#[trigger] self.routes@[j]).rank <= route.rank,
            decreases n - p,
        {
            p = p + 1;
        }
        let ghost before = self.routes@;
        proof {
            assert forall|j: int| p <= j < n implies (#[trigger] before[j]).rank > route.rank by {
                if p < n {
                    assert(before[p as int].rank <= before[j].rank || j == p);
                }
            }
            assert forall|j: int| 0 <= j < n implies !collides(route, #[trigger] before[j]) by {
                lemma_collides_symmetric(before[j], route);
            }
        }
        self.routes.insert(p, route);
        proof {
            let after = self.routes@;
            assert forall|a: int, b: int|
                0 <= a < after.len() && 0 <= b < after.len() && a != b implies !collides(
                #[trigger] after[a],
                #[trigger] after[b],
            ) by {
                if a == p {
                    assert(after[a] == route);
                } else if b == p {
                    let ai = if a < p { a } else { a - 1 };
                    assert(after[a] == before[ai]);
                    assert(!collides(before[ai], route));
                } else {
                    let ai = if a < p { a } else { a - 1 };
                    let bi = if b < p { b } else { b - 1 };
                    assert(after[a] == before[ai]);
                    assert(after[b] == before[bi]);
                }
            }
            assert forall|a: int, b: int| 0 <= a < b < after.len() implies (#[trigger] after[a]).rank
                <= (#[trigger] after[b]).rank by {
                let ai = if a < p { a } else { a - 1 };
                let bi = if b < p { b } else { b - 1 };
                if a != p {
                    assert(after[a] == before[ai]);
                }
                if b != p {
                    assert(after[b] == before[bi]);
                }
            }
            assert forall|a: int| 0 <= a < after.len() implies crate::path::pattern_wf(
                (#[trigger] after[a]).pattern@,
            ) by {
                if a != p {
                    let ai = if a < p { a } else { a - 1 };
                    assert(after[a] == before[ai]);
                }
            }
        }
        Ok(p)
    }
}

/// In a well-formed registry, any two candidates for one request are
/// visited in order of rank, and two candidates on the same path pattern
/// in strictly ascending order of rank.
pub proof fn lemma_visits_in_rank_order(reg: &Registry, req: Request, m: Method, i: int, j: int)
    requires
        reg.wf(),
        0 <= i < j < reg.routes@.len(),
        is_candidate(reg.routes@[i], req, m),
        is_candidate(reg.routes@[j], req, m),
    ensures
        reg.routes@[i].rank <= reg.routes@[j].rank,
        crate::path::same_shape(reg.routes@[i].pattern@, reg.routes@[j].pattern@) ==> reg.routes@[i].rank
            < reg.routes@[j].rank,
{
    let a = reg.routes@[i];
    let b = reg.routes@[j];
    assert(a.rank <= b.rank);
    assert(!collides(a, b));
}

/// Dispatch stops at the first candidate, in the registry's order, that
/// does not forward: every earlier candidate forwarded, and its outcome is
/// the answer.
pub proof fn lemma_stops_at_first_decisive(routes: Seq<Route>, req: Request, m: Method, k: int)
    requires
        0 <= k < routes.len(),
        is_candidate(routes[k], req, m),
        !(attempt(routes[k], req) is Forward),
        forall|i: int|
            0 <= i < k && is_candidate(#[trigger] routes[i], req, m) ==> attempt(routes[i], req) is Forward,
    ensures
        dispatch_from(routes, req, m, 0) == Some(
            match attempt(routes[k], req) {
                Outcome::Success(r) => r,
                Outcome::Failure(s) => status_view(s),
                Outcome::Forward => status_view(NOT_FOUND),
            },
        ),
{
    lemma_dispatch_reaches(routes, req, m, k, 0);
}

proof fn lemma_dispatch_reaches(routes: Seq<Route>, req: Request, m: Method, k: int, s: int)
    requires
        0 <= s <= k < routes.len(),
        forall|i: int|
            0 <= i < k && is_candidate(#[trigger] routes[i], req, m) ==> attempt(routes[i], req) is Forward,
    ensures
        dispatch_from(routes, req, m, s) == dispatch_from(routes, req, m, k),
    decreases k - s,
{
    if s < k {
        lemma_dispatch_reaches(routes, req, m, k, s + 1);
    }
}

/// When every candidate forwards, no route answers, and the request gets
/// the not-found status.
pub proof fn lemma_all_forward_not_found(routes: Seq<Route>, req: Request)
    requires
        !(req.method is Head),
        forall|i: int|
            0 <= i < routes.len() && is_candidate(#[trigger] routes[i], req, req.method) ==> attempt(
                routes[i],
                req,
            ) is Forward,
    ensures
        dispatch_view(routes, req) == status_view(NOT_FOUND),
{
    lemma_none_from(routes, req, req.method, 0);
}

proof fn lemma_none_from(routes: Seq<Route>, req: Request, m: Method, s: int)
    requires
        0 <= s,
        forall|i: int|
            0 <= i < routes.len() && is_candidate(#[trigger] routes[i], req, m) ==> attempt(
                routes[i],
                req,
            ) is Forward,
    ensures
        dispatch_from(routes, req, m, s) is None,
    decreases routes.len() - s,
{
    if s < routes.len() {
        lemma_none_from(routes, req, m, s + 1);
    }
}

/// Collision does not depend on the order of the two routes.
pub proof fn lemma_collides_symmetric(a: Route, b: Route)
    ensures
        collides(a, b) == collides(b, a),
{
    if crate::path::same_shape(a.pattern@, b.pattern@) {
        assert forall|i: int| 0 <= i < b.pattern@.len() implies crate::path::part_same(
            #[trigger] b.pattern@[i],
            a.pattern@[i],
        ) by {
            assert(crate::path::part_same(a.pattern@[i], b.pattern@[i]));
        }
    }
    if crate::path::same_shape(b.pattern@, a.pattern@) {
        assert forall|i: int| 0 <= i < a.pattern@.len() implies crate::path::part_same(
            #[trigger] a.pattern@[i],
            b.pattern@[i],
        ) by {
            assert(crate::path::part_same(b.pattern@[i], a.pattern@[i]));
        }
    }
}

fn pattern_is_wf(p: &Vec<SegmentSpec>) -> (r: bool)
    ensures
        r == crate::path::pattern_wf(p@),
{
    if p.len() == 0 {
        return true;
    }
    let mut i: usize = 0;
    while i < p.len() - 1
        invariant
            p@.len() > 0,
            i <= p@.len() - 1,
            forall|j: int| 0 <= j < i ==> !(#[trigger] p@[j] is Wildcard),
        decreases p@.len() - i,
    {
        match &p[i] {
            SegmentSpec::Wildcard(_) => return false,
            _ => {},
        }
        i = i + 1;
    }
    true
}

fn parts_same(x: &SegmentSpec, y: &SegmentSpec) -> (r: bool)
    ensures
        r == crate::path::part_same(*x, *y),
{
    match (x, y) {
        (SegmentSpec::Literal(t), SegmentSpec::Literal(u)) => crate::path::same_text(t, u),
        (SegmentSpec::Dynamic(_), SegmentSpec::Dynamic(_)) => true,
        (SegmentSpec::Wildcard(_), SegmentSpec::Wildcard(_)) => true,
        _ => false,
    }
}

fn shapes_same(a: &Vec<SegmentSpec>, b: &Vec<SegmentSpec>) -> (r: bool)
    ensures
        r == crate::path::same_shape(a@, b@),
{
    if a.len() != b.len() {
        return false;
    }
    let mut i: usize = 0;
    while i < a.len()
        invariant
            a@.len() == b@.len(),
            i <= a@.len(),
            forall|j: int| 0 <= j < i ==> crate::path::part_same(#[trigger] a@[j], b@[j]),
        decreases a@.len() - i,
    {
        if !parts_same(&a[i], &b[i]) {
            return false;
        }
        i = i + 1;
    }
    true
}

fn routes_collide(a: &Route, b: &Route) -> (r: bool)
    ensures
        r == collides(*a, *b),
{
    let payload = match a.method {
        Method::Post | Method::Put => true,
        _ => false,
    };
    let exclusive = payload && match (a.format, b.format) {
        (Some(x), Some(y)) => x != y,
        _ => false,
    };
    a.method == b.method && a.rank == b.rank && !exclusive && shapes_same(&a.pattern, &b.pattern)
}

} // verus!
