//! The route handlers, and the closed set of them that routes refer to.
use vstd::prelude::*;
use crate::convert::{CustomPath, GoodAge, OneTaskKind};
use crate::forms::{FormTask, LoginCredentials, StrictTask};
use crate::render::{debug_strict_task, debug_task, strict_task_debug, task_debug};
use crate::response::{
    Body, BodyView, Format, Response, ResponseView, SessionChange, redirect_response, redirect_view,
};
use crate::roles::{Admin, User};
use crate::text::{
    chars_of, copy_text, decimal_text, push_all, push_str, render_i64, render_u64, signed_text,
};

verus! {

/// The number of tasks in the task list.
pub const TASK_COUNT: u8 = 4;

/// The greeting of the hello-world application.
pub fn index() -> (r: Vec<char>)
    ensures
        r@ == "Hello, world!"@,
{
    chars_of("Hello, world!")
}

pub open spec fn simple_hello_text(name: Seq<char>) -> Seq<char> {
    "Hello, "@ + name + "!"@
}

/// Greets a person by name.
pub fn simple_hello(name: &Vec<char>) -> (r: Vec<char>)
    ensures
        r@ == simple_hello_text(name@),
{
    let mut r = chars_of("Hello, ");
    push_all(&mut r, name);
    push_str(&mut r, "!");
    r
}

pub open spec fn good_aged_text(name: Seq<char>, age: nat) -> Seq<char> {
    "Hello, "@ + decimal_text(age) + " year old "@ + name + "."@
}

/// Greets a person of a plausible age.
pub fn good_aged_hello(name: &Vec<char>, age: usize, _good_age: GoodAge) -> (r: Vec<char>)
    ensures
        r@ == good_aged_text(name@, age as nat),
{
    let mut r = chars_of("Hello, ");
    push_all(&mut r, &render_u64(age as u64));
    push_str(&mut r, " year old ");
    push_all(&mut r, name);
    push_str(&mut r, ".");
    r
}

pub open spec fn bad_aged_text(name: Seq<char>, age: nat) -> Seq<char> {
    "'"@ + decimal_text(age) + "' is a funky age, "@ + name + "."@
}

/// Answers a person whose age is out of the plausible range.
pub fn bad_aged_hello(name: &Vec<char>, age: usize) -> (r: Vec<char>)
    ensures
        r@ == bad_aged_text(name@, age as nat),
{
    let mut r = chars_of("'");
    push_all(&mut r, &render_u64(age as u64));
    push_str(&mut r, "' is a funky age, ");
    push_all(&mut r, name);
    push_str(&mut r, ".");
    r
}

pub open spec fn outer_text(path: Result<Seq<char>, nat>) -> Seq<char> {
    match path {
        Ok(p) => p,
        Err(n) => "Expected >= 2 segments, found "@ + decimal_text(n) + "."@,
    }
}

/// The second segment, or how many segments there were instead.
pub fn outer(path: Result<CustomPath, usize>) -> (r: Vec<char>)
    ensures
        r@ == outer_text(
            match path {
                Ok(p) => Ok(p.0@),
                Err(n) => Err(n as nat),
            },
        ),
{
    match path {
        Ok(p) => p.0,
        Err(n) => {
            let mut r = chars_of("Expected >= 2 segments, found ");
            push_all(&mut r, &render_u64(n as u64));
            push_str(&mut r, ".");
            r
        },
    }
}

/// The second segment.
pub fn inner(path: CustomPath) -> (r: Vec<char>)
    ensures
        r@ == path.0@,
{
    path.0
}

/// Whether a segment may not stand in a file path.
pub open spec fn unsafe_segment(s: Seq<char>) -> bool {
    s.len() > 0 && (s[0] == '.' || s[0] == '*' || s.last() == ':' || s.last() == '>' || s.last()
        == '<')
}

/// The segments of a file path after `..` steps back, or `None` when a
/// segment may not stand in one.
pub open spec fn clean_path(segs: Seq<Seq<char>>) -> Option<Seq<Seq<char>>>
    decreases segs.len(),
{
    if segs.len() == 0 {
        Some(seq![])
    } else {
        match clean_path(segs.drop_last()) {
            None => None,
            Some(acc) => if segs.last() == ".."@ {
                Some(if acc.len() > 0 { acc.drop_last() } else { acc })
            } else if unsafe_segment(segs.last()) {
                None
            } else {
                Some(acc.push(segs.last()))
            },
        }
    }
}

/// Segments joined by slashes.
pub open spec fn joined(segs: Seq<Seq<char>>) -> Seq<char>
    decreases segs.len(),
{
    if segs.len() == 0 {
        seq![]
    } else if segs.len() == 1 {
        segs[0]
    } else {
        joined(segs.drop_last()) + "/"@ + segs.last()
    }
}

fn is_unsafe_segment(s: &Vec<char>) -> (r: bool)
    ensures
        r == unsafe_segment(s@),
{
    if s.len() == 0 {
        return false;
    }
    let first = s[0];
    let last = s[s.len() - 1];
    first == '.' || first == '*' || last == ':' || last == '>' || last == '<'
}

fn join_segments(segs: &Vec<Vec<char>>) -> (r: Vec<char>)
    ensures
        r@ == joined(crate::path::views(segs@)),
{
    let ghost v = crate::path::views(segs@);
    let mut r: Vec<char> = Vec::new();
    let mut i: usize = 0;
    while i < segs.len()
        invariant
            v == crate::path::views(segs@),
            i <= segs@.len(),
            r@ == joined(v.subrange(0, i as int)),
        decreases segs@.len() - i,
    {
        assert(v.subrange(0, i + 1).drop_last() =~= v.subrange(0, i as int));
        if i > 0 {
            push_str(&mut r, "/");
        }
        push_all(&mut r, &segs[i]);
        i = i + 1;
    }
    assert(v.subrange(0, i as int) =~= v);
    r
}

/// The wildcard's segments as a relative file path, or `None` when one of
/// them may not stand in it.
pub fn echo(segs: &Vec<Vec<char>>) -> (r: Option<Vec<char>>)
    ensures
        match clean_path(crate::path::views(segs@)) {
            Some(c) => r is Some && r.unwrap()@ == joined(c),
            None => r is None,
        },
{
    let ghost v = crate::path::views(segs@);
    let mut acc: Vec<Vec<char>> = Vec::new();
    let mut i: usize = 0;
    while i < segs.len()
        invariant
            v == crate::path::views(segs@),
            i <= segs@.len(),
            clean_path(v.subrange(0, i as int)) == Some(crate::path::views(acc@)),
        decreases segs@.len() - i,
    {
        assert(v.subrange(0, i + 1).drop_last() =~= v.subrange(0, i as int));
        let dots = chars_of("..");
        if crate::path::same_text(&segs[i], &dots) {
            if acc.len() > 0 {
                let ghost before = acc@;
                acc.pop();
                assert(crate::path::views(acc@) =~= crate::path::views(before).drop_last());
            }
        } else if is_unsafe_segment(&segs[i]) {
            assert(clean_path(v.subrange(0, i + 1)) is None);
            proof {
                lemma_clean_path_stays_none(v, i + 1);
            }
            return None;
        } else {
            let ghost before = acc@;
            acc.push(copy_text(&segs[i]));
            assert(crate::path::views(acc@) =~= crate::path::views(before).push(v[i as int]));
        }
        i = i + 1;
    }
    assert(v.subrange(0, i as int) =~= v);
    Some(join_segments(&acc))
}

proof fn lemma_clean_path_stays_none(v: Seq<Seq<char>>, k: int)
    requires
        0 <= k <= v.len(),
        clean_path(v.subrange(0, k)) is None,
    ensures
        clean_path(v) is None,
    decreases v.len() - k,
{
    if k == v.len() {
        assert(v.subrange(0, k) =~= v);
    } else {
        assert(v.subrange(0, k + 1).drop_last() =~= v.subrange(0, k));
        lemma_clean_path_stays_none(v, k + 1);
    }
}

/// The answer to a task form: its debug text.
pub fn post_task(task: FormTask) -> (r: Vec<char>)
    ensures
        r@ == task_debug(task.name@, task.category@),
{
    debug_task(&task)
}

/// The answer to a lenient task form: its debug text.
pub fn post_lenient_task(task: FormTask) -> (r: Vec<char>)
    ensures
        r@ == task_debug(task.name@, task.category@),
{
    debug_task(&task)
}

/// The answer to a strict task form: its debug text.
pub fn post_strict_task(strict_task: StrictTask) -> (r: Vec<char>)
    ensures
        r@ == strict_task_debug(strict_task.name.0@, strict_task.kind),
{
    debug_strict_task(&strict_task)
}

/// The task list as an HTML page.
pub fn html_tasks() -> (r: Response)
    ensures
        r.view() == (ResponseView {
            status: 200,
            format: Some(Format::Html),
            body: BodyView::Template("tasks"@),
            session: SessionChange::Keep,
        }),
{
    Response {
        status: 200,
        format: Some(Format::Html),
        body: Body::Template(chars_of("tasks")),
        session: SessionChange::Keep,
    }
}

/// The task list as JSON.
pub fn json_tasks() -> (r: Response)
    ensures
        r.view() == (ResponseView {
            status: 200,
            format: Some(Format::Json),
            body: BodyView::TaskList,
            session: SessionChange::Keep,
        }),
{
    Response {
        status: 200,
        format: Some(Format::Json),
        body: Body::TaskList,
        session: SessionChange::Keep,
    }
}

/// What showing task `id` gives: the task in the asked format, or a 404
/// naming the unknown id.
pub open spec fn one_task_view(id: u8, kind: OneTaskKind) -> ResponseView {
    if id < TASK_COUNT {
        ResponseView {
            status: 200,
            format: Some(if kind is Html { Format::Html } else { Format::Json }),
            body: BodyView::TaskRecord(id),
            session: SessionChange::Keep,
        }
    } else {
        ResponseView {
            status: 404,
            format: None,
            body: BodyView::Text("Unknown task: "@ + decimal_text(id as nat)),
            session: SessionChange::Keep,
        }
    }
}

/// Shows one task as HTML or JSON.
pub fn one_task(id: u8, kind: OneTaskKind) -> (r: Response)
    ensures
        r.view() == one_task_view(id, kind),
{
    if id >= TASK_COUNT {
        let mut t = chars_of("Unknown task: ");
        push_all(&mut t, &render_u64(id as u64));
        return Response {
            status: 404,
            format: None,
            body: Body::Text(t),
            session: SessionChange::Keep,
        };
    }
    let format = match kind {
        OneTaskKind::Html => Format::Html,
        OneTaskKind::Json => Format::Json,
    };
    Response { status: 200, format: Some(format), body: Body::TaskRecord(id), session: SessionChange::Keep }
}

pub open spec fn admin_text(id: nat) -> Seq<char> {
    "Hello, admin "@ + decimal_text(id) + "!"@
}

/// Greets an administrator.
pub fn admin_index(admin: Admin) -> (r: Vec<char>)
    ensures
        r@ == admin_text(admin.0.id as nat),
{
    let mut r = chars_of("Hello, admin ");
    push_all(&mut r, &render_u64(admin.0.id as u64));
    push_str(&mut r, "!");
    r
}

pub open spec fn user_text(id: nat) -> Seq<char> {
    "Hello, user "@ + decimal_text(id) + "!"@
}

/// Greets a signed-in user.
pub fn user_index(user: User) -> (r: Vec<char>)
    ensures
        r@ == user_text(user.id as nat),
{
    let mut r = chars_of("Hello, user ");
    push_all(&mut r, &render_u64(user.id as u64));
    push_str(&mut r, "!");
    r
}

/// The login page: a static file.
pub fn login_page() -> (r: Response)
    ensures
        r.view() == (ResponseView {
            status: 200,
            format: Some(Format::Html),
            body: BodyView::File("static/login.html"@),
            session: SessionChange::Keep,
        }),
{
    Response {
        status: 200,
        format: Some(Format::Html),
        body: Body::File(chars_of("static/login.html")),
        session: SessionChange::Keep,
    }
}

/// The user id that a pair of credentials signs in, if any.
pub open spec fn known_login(username: Seq<char>, password: Seq<char>) -> Option<usize> {
    if username == "admin"@ && password == "password"@ {
        Some(0)
    } else if username == "bob"@ && password == "123456"@ {
        Some(1)
    } else {
        None
    }
}

/// What a login gives: a signed-in session and a redirect home, or a
/// redirect back to the login page.
pub open spec fn login_view(username: Seq<char>, password: Seq<char>) -> ResponseView {
    match known_login(username, password) {
        Some(id) => redirect_view("/"@, SessionChange::SignIn(id)),
        None => redirect_view("/login"@, SessionChange::Keep),
    }
}

/// Signs a known user in.
pub fn login_submit(credentials: &LoginCredentials) -> (r: Response)
    ensures
        r.view() == login_view(credentials.username@, credentials.password@),
{
    let u = &credentials.username;
    let p = &credentials.password;
    if crate::path::same_text(u, &chars_of("admin")) && crate::path::same_text(
        p,
        &chars_of("password"),
    ) {
        redirect_response("/", SessionChange::SignIn(0))
    } else if crate::path::same_text(u, &chars_of("bob")) && crate::path::same_text(
        p,
        &chars_of("123456"),
    ) {
        redirect_response("/", SessionChange::SignIn(1))
    } else {
        redirect_response("/login", SessionChange::Keep)
    }
}

/// Signs the current user out and goes home.
pub fn logout() -> (r: Response)
    ensures
        r.view() == redirect_view("/"@, SessionChange::SignOut),
{
    redirect_response("/", SessionChange::SignOut)
}

/// The configured token, in decimal.
pub fn token(value: i64) -> (r: Vec<char>)
    ensures
        r@ == signed_text(value as int),
{
    render_i64(value)
}

} // verus!
