//! The route sets of the example applications.
use vstd::prelude::*;
use crate::path::{PartView, dynamic, lit, param_count, pattern_view, wildcard};
use crate::response::{Format, Method};
use crate::routing::{Handler, Registry, Route};
use crate::text::chars_of;

verus! {

/// Whether a route has this method, pattern, format and rank.
pub open spec fn route_is(r: Route, m: Method, pattern: Seq<PartView>, f: Option<Format>, rank: int) -> bool {
    &&& r.method == m
    &&& pattern_view(r.pattern@) == pattern
    &&& r.format == f
    &&& r.rank == rank
}

/// The greeting application: `GET /` answers `Hello, world!`.
pub fn rocket() -> (r: Registry)
    ensures
        r.wf(),
        r.routes@.len() == 1,
        route_is(r.routes@[0], Method::Get, seq![], None, -64),
        r.routes@[0].handler == Handler::HelloWorld,
{
    let mut reg = Registry::new();
    let hello = Route::from_parts(Method::Get, Vec::new(), None, None, Handler::HelloWorld);
    assert(pattern_view(hello.pattern@) =~= seq![]);
    let _ = reg.mount(hello);
    reg
}

/// Greetings by name, and by name and age: a plausible age is greeted by
/// the first age route, any other number falls through to the second.
pub fn hello_person() -> (r: Registry)
    ensures
        r.wf(),
        r.routes@.len() == 3,
        route_is(r.routes@[0], Method::Get, seq![PartView::Param], None, -63),
        r.routes@[0].handler == Handler::SimpleHello,
        route_is(r.routes@[1], Method::Get, seq![PartView::Param, PartView::Param], None, -62),
        r.routes@[1].handler == Handler::GoodAgedHello,
        route_is(r.routes@[2], Method::Get, seq![PartView::Param, PartView::Param], None, 2),
        r.routes@[2].handler == Handler::BadAgedHello,
{
    proof {
        reveal_with_fuel(param_count, 3);
    }
    let mut reg = Registry::new();
    let simple = Route::from_parts(Method::Get, vec![dynamic("name")], None, None, Handler::SimpleHello);
    assert(pattern_view(simple.pattern@) =~= seq![PartView::Param]);
    let _ = reg.mount(simple);
    let good = Route::from_parts(
        Method::Get,
        vec![dynamic("name"), dynamic("age")],
        None,
        None,
        Handler::GoodAgedHello,
    );
    assert(pattern_view(good.pattern@) =~= seq![PartView::Param, PartView::Param]);
    assert(good.pattern@.drop_last() =~= seq![good.pattern@[0]]);
    let _ = reg.mount(good);
    let bad = Route::from_parts(
        Method::Get,
        vec![dynamic("name"), dynamic("age")],
        None,
        Some(2),
        Handler::BadAgedHello,
    );
    assert(pattern_view(bad.pattern@) =~= seq![PartView::Param, PartView::Param]);
    let _ = reg.mount(bad);
    reg
}

/// Wildcard routes: `/outer` always answers, `/inner` only with two or
/// more segments, and every other path is echoed.
pub fn segments() -> (r: Registry)
    ensures
        r.wf(),
        r.routes@.len() == 3,
        route_is(r.routes@[0], Method::Get, seq![PartView::Lit("inner"@), PartView::Rest], None, -63),
        r.routes@[0].handler == Handler::Inner,
        route_is(r.routes@[1], Method::Get, seq![PartView::Lit("outer"@), PartView::Rest], None, -63),
        r.routes@[1].handler == Handler::Outer,
        route_is(r.routes@[2], Method::Get, seq![PartView::Rest], None, 2),
        r.routes@[2].handler == Handler::Echo,
{
    proof {
        reveal_strlit("inner");
        reveal_strlit("outer");
        reveal_with_fuel(param_count, 3);
    }
    let mut reg = Registry::new();
    let inner = Route::from_parts(Method::Get, vec![lit("inner"), wildcard("path")], None, None, Handler::Inner);
    assert(pattern_view(inner.pattern@) =~= seq![PartView::Lit("inner"@), PartView::Rest]);
    assert(inner.pattern@.drop_last() =~= seq![inner.pattern@[0]]);
    let _ = reg.mount(inner);
    let outer = Route::from_parts(Method::Get, vec![lit("outer"), wildcard("path")], None, None, Handler::Outer);
    assert(pattern_view(outer.pattern@) =~= seq![PartView::Lit("outer"@), PartView::Rest]);
    assert(outer.pattern@.drop_last() =~= seq![outer.pattern@[0]]);
    assert(!crate::path::same_shape(reg.routes@[0].pattern@, outer.pattern@)) by {
        assert("inner"@[0] != "outer"@[0]);
        assert(!crate::path::part_same(reg.routes@[0].pattern@[0], outer.pattern@[0]));
    }
    let _ = reg.mount(outer);
    let echo = Route::from_parts(Method::Get, vec![wildcard("path")], None, Some(2), Handler::Echo);
    assert(pattern_view(echo.pattern@) =~= seq![PartView::Rest]);
    let _ = reg.mount(echo);
    reg
}

/// Form routes: a strict and a lenient task form, and a validated one.
pub fn forms() -> (r: Registry)
    ensures
        r.wf(),
        r.routes@.len() == 3,
        route_is(r.routes@[0], Method::Post, seq![PartView::Lit("task"@)], Some(Format::Form), -64),
        r.routes@[0].handler == Handler::PostTask,
        route_is(r.routes@[1], Method::Post, seq![PartView::Lit("lenient_task"@)], Some(Format::Form), -64),
        r.routes@[1].handler == Handler::PostLenientTask,
        route_is(r.routes@[2], Method::Post, seq![PartView::Lit("strict_task"@)], Some(Format::Form), -64),
        r.routes@[2].handler == Handler::PostStrictTask,
{
    proof {
        reveal_strlit("task");
        reveal_strlit("lenient_task");
        reveal_strlit("strict_task");
        reveal_with_fuel(param_count, 2);
    }
    let mut reg = Registry::new();
    let form = Some(Format::Form);
    let task = Route::from_parts(Method::Post, vec![lit("task")], form, None, Handler::PostTask);
    assert(pattern_view(task.pattern@) =~= seq![PartView::Lit("task"@)]);
    let _ = reg.mount(task);
    let lenient = Route::from_parts(Method::Post, vec![lit("lenient_task")], form, None, Handler::PostLenientTask);
    assert(pattern_view(lenient.pattern@) =~= seq![PartView::Lit("lenient_task"@)]);
    assert("task"@.len() != "lenient_task"@.len());
    assert(!crate::path::part_same(reg.routes@[0].pattern@[0], lenient.pattern@[0]));
    let _ = reg.mount(lenient);
    let strict = Route::from_parts(Method::Post, vec![lit("strict_task")], form, None, Handler::PostStrictTask);
    assert(pattern_view(strict.pattern@) =~= seq![PartView::Lit("strict_task"@)]);
    assert("task"@.len() != "strict_task"@.len());
    assert("lenient_task"@.len() != "strict_task"@.len());
    assert(!crate::path::part_same(reg.routes@[0].pattern@[0], strict.pattern@[0]));
    assert(!crate::path::part_same(reg.routes@[1].pattern@[0], strict.pattern@[0]));
    let _ = reg.mount(strict);
    reg
}

/// Responder routes: the task list as HTML by default or as JSON on
/// request, single tasks, and a redirect from the root to the list.
pub fn responders() -> (r: Registry)
    ensures
        r.wf(),
        r.routes@.len() == 4,
        route_is(r.routes@[0], Method::Get, seq![], None, -64),
        r.routes@[0].handler is Redirect && r.routes@[0].handler->Redirect_0@ == "/tasks"@,
        route_is(r.routes@[1], Method::Get, seq![PartView::Lit("tasks"@)], Some(Format::Html), -64),
        r.routes@[1].handler == Handler::HtmlTasks,
        route_is(
            r.routes@[2],
            Method::Get,
            seq![PartView::Lit("tasks"@), PartView::Param, PartView::Param],
            None,
            -62,
        ),
        r.routes@[2].handler == Handler::OneTask,
        route_is(r.routes@[3], Method::Get, seq![PartView::Lit("tasks"@)], Some(Format::Json), 2),
        r.routes@[3].handler == Handler::JsonTasks,
{
    proof {
        reveal_with_fuel(param_count, 4);
    }
    let mut reg = Registry::new();
    let home = Route::from_parts(Method::Get, Vec::new(), None, None, Handler::Redirect(chars_of("/tasks")));
    assert(pattern_view(home.pattern@) =~= seq![]);
    let _ = reg.mount(home);
    let html = Route::from_parts(Method::Get, vec![lit("tasks")], Some(Format::Html), None, Handler::HtmlTasks);
    assert(pattern_view(html.pattern@) =~= seq![PartView::Lit("tasks"@)]);
    let _ = reg.mount(html);
    let json = Route::from_parts(Method::Get, vec![lit("tasks")], Some(Format::Json), Some(2), Handler::JsonTasks);
    assert(pattern_view(json.pattern@) =~= seq![PartView::Lit("tasks"@)]);
    let _ = reg.mount(json);
    let one = Route::from_parts(
        Method::Get,
        vec![lit("tasks"), dynamic("id"), dynamic("kind")],
        None,
        None,
        Handler::OneTask,
    );
    assert(pattern_view(one.pattern@) =~= seq![PartView::Lit("tasks"@), PartView::Param, PartView::Param]);
    assert(one.pattern@.drop_last() =~= seq![one.pattern@[0], one.pattern@[1]]);
    assert(one.pattern@.drop_last().drop_last() =~= seq![one.pattern@[0]]);
    let _ = reg.mount(one);
    reg
}

/// Request-guard routes: the root greets an administrator, else a user,
/// else redirects to the login page; login and logout set the session.
pub fn request_guards() -> (r: Registry)
    ensures
        r.wf(),
        r.routes@.len() == 6,
        route_is(r.routes@[0], Method::Get, seq![], None, -64),
        r.routes@[0].handler == Handler::AdminIndex,
        route_is(r.routes@[1], Method::Get, seq![PartView::Lit("login"@)], None, -64),
        r.routes@[1].handler == Handler::LoginPage,
        route_is(r.routes@[2], Method::Post, seq![PartView::Lit("login"@)], None, -64),
        r.routes@[2].handler == Handler::LoginSubmit,
        route_is(r.routes@[3], Method::Get, seq![PartView::Lit("logout"@)], None, -64),
        r.routes@[3].handler == Handler::Logout,
        route_is(r.routes@[4], Method::Get, seq![], None, 2),
        r.routes@[4].handler == Handler::UserIndex,
        route_is(r.routes@[5], Method::Get, seq![], None, 3),
        r.routes@[5].handler is Redirect && r.routes@[5].handler->Redirect_0@ == "/login"@,
{
    proof {
        reveal_strlit("login");
        reveal_strlit("logout");
        reveal_with_fuel(param_count, 2);
    }
    let mut reg = Registry::new();
    let admin = Route::from_parts(Method::Get, Vec::new(), None, None, Handler::AdminIndex);
    let ghost ga = admin;
    assert(pattern_view(ga.pattern@) =~= seq![]);
    let _ = reg.mount(admin);
    assert(reg.routes@ =~= seq![ga]);
    let user = Route::from_parts(Method::Get, Vec::new(), None, Some(2), Handler::UserIndex);
    let ghost gu = user;
    assert(pattern_view(gu.pattern@) =~= seq![]);
    assert(reg.routes@[0].rank == -64);
    let _ = reg.mount(user);
    assert(reg.routes@ =~= seq![ga, gu]);
    let home = Route::from_parts(
        Method::Get,
        Vec::new(),
        None,
        Some(3),
        Handler::Redirect(chars_of("/login")),
    );
    let ghost gh = home;
    assert(pattern_view(gh.pattern@) =~= seq![]);
    assert(reg.routes@[0].rank == -64 && reg.routes@[1].rank == 2);
    let _ = reg.mount(home);
    assert(reg.routes@ =~= seq![ga, gu, gh]);
    let page = Route::from_parts(Method::Get, vec![lit("login")], None, None, Handler::LoginPage);
    let ghost gp = page;
    assert(pattern_view(gp.pattern@) =~= seq![PartView::Lit("login"@)]);
    assert(gp.rank == -64);
    assert(reg.routes@[0].rank == -64 && reg.routes@[1].rank == 2 && reg.routes@[2].rank == 3);
    let _ = reg.mount(page);
    assert(reg.routes@ =~= seq![ga, gp, gu, gh]);
    let submit = Route::from_parts(Method::Post, vec![lit("login")], None, None, Handler::LoginSubmit);
    let ghost gs = submit;
    assert(pattern_view(gs.pattern@) =~= seq![PartView::Lit("login"@)]);
    assert(gs.rank == -64);
    assert(reg.routes@[0].rank == -64 && reg.routes@[1].rank == -64 && reg.routes@[2].rank == 2
        && reg.routes@[3].rank == 3);
    let _ = reg.mount(submit);
    assert(reg.routes@ =~= seq![ga, gp, gs, gu, gh]);
    let logout = Route::from_parts(Method::Get, vec![lit("logout")], None, None, Handler::Logout);
    let ghost gl = logout;
    assert(pattern_view(gl.pattern@) =~= seq![PartView::Lit("logout"@)]);
    assert(gl.rank == -64);
    assert("login"@.len() != "logout"@.len());
    assert(!crate::path::part_same(gp.pattern@[0], gl.pattern@[0]));
    assert(!crate::path::same_shape(gp.pattern@, gl.pattern@));
    assert(reg.routes@[0].rank == -64 && reg.routes@[1].rank == -64 && reg.routes@[2].rank == -64
        && reg.routes@[3].rank == 2 && reg.routes@[4].rank == 3);
    let _ = reg.mount(logout);
    assert(reg.routes@ =~= seq![ga, gp, gs, gl, gu, gh]);
    reg
}

/// A row of the task table that the database application lists.
#[derive(Debug, Clone)]
pub struct Task {
    pub id: i32,
    pub description: Vec<char>,
    pub completed: bool,
}

/// Why an application could not start.
#[derive(Debug, Clone, Copy, PartialEq, Eq, Structural)]
pub enum LaunchError {
    /// The token setting was absent or not an `i64`.
    MissingToken,
}

/// The state application: `GET /token` answers the configured token. It
/// does not start without one.
pub fn state(token: Option<i64>) -> (r: Result<Registry, LaunchError>)
    ensures
        token is None <==> r is Err,
        r is Ok ==> {
            let reg = r->Ok_0;
            &&& reg.wf()
            &&& reg.routes@.len() == 1
            &&& route_is(reg.routes@[0], Method::Get, seq![PartView::Lit("token"@)], None, -64)
            &&& reg.routes@[0].handler == Handler::Token(token.unwrap())
        },
{
    proof {
        reveal_with_fuel(param_count, 2);
    }
    match token {
        None => Err(LaunchError::MissingToken),
        Some(t) => {
            let mut reg = Registry::new();
            let route = Route::from_parts(Method::Get, vec![lit("token")], None, None, Handler::Token(t));
            assert(pattern_view(route.pattern@) =~= seq![PartView::Lit("token"@)]);
            let _ = reg.mount(route);
            Ok(reg)
        },
    }
}

} // verus!
