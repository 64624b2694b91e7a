use guarded_routes::convert::CustomPath;
use guarded_routes::apps::{forms, hello_person, request_guards, responders, rocket, segments, state};
use guarded_routes::response::{Body, Format, Method, Request, Response, SessionChange};
use guarded_routes::routing::{Handler, MountError, Registry, Route};

#[derive(Debug)]
struct Task {
    name: String,
    category: String,
}

fn text(s: &str) -> Vec<char> {
    s.chars().collect()
}

fn body(r: &Response) -> String {
    r.body_string().expect("a text body")
}

fn redirect_target(r: &Response) -> String {
    match &r.body {
        Body::Redirect(to) => to.iter().collect(),
        _ => panic!("not a redirect"),
    }
}

#[test]
fn hello_world() {
    let rocket = rocket();
    let response = rocket.dispatch(&Request::new(Method::Get, "/"));
    assert_eq!(response.status(), 200);
    assert_eq!(response.body_string(), Some("Hello, world!".into()));
}

#[test]
fn head_test() {
    let rocket = rocket();
    let response = rocket.dispatch(&Request::new(Method::Head, "/"));
    assert_eq!(response.status(), 200);
    assert!(response.body_string().unwrap().is_empty());
}

#[test]
fn unknown_path_is_not_found() {
    let response = rocket().dispatch(&Request::new(Method::Get, "/missing"));
    assert_eq!(response.status(), 404);
    let response = rocket().dispatch(&Request::new(Method::Post, "/"));
    assert_eq!(response.status(), 404);
}

#[test]
fn simple_hello_by_name() {
    let r = hello_person().dispatch(&Request::new(Method::Get, "/bob"));
    assert_eq!(body(&r), "Hello, bob!");
}

#[test]
fn age_in_range_is_greeted() {
    let r = hello_person().dispatch(&Request::new(Method::Get, "/bob/50"));
    assert_eq!(r.status(), 200);
    assert_eq!(body(&r), "Hello, 50 year old bob.");
    let r = hello_person().dispatch(&Request::new(Method::Get, "/bob/1"));
    assert_eq!(body(&r), "Hello, 1 year old bob.");
    let r = hello_person().dispatch(&Request::new(Method::Get, "/bob/122"));
    assert_eq!(body(&r), "Hello, 122 year old bob.");
    let r = hello_person().dispatch(&Request::new(Method::Get, "/bob/+50"));
    assert_eq!(body(&r), "Hello, 50 year old bob.");
}

#[test]
fn age_out_of_range_falls_through() {
    let r = hello_person().dispatch(&Request::new(Method::Get, "/bob/0"));
    assert_eq!(body(&r), "'0' is a funky age, bob.");
    let r = hello_person().dispatch(&Request::new(Method::Get, "/bob/123"));
    assert_eq!(body(&r), "'123' is a funky age, bob.");
    let r = hello_person().dispatch(&Request::new(Method::Get, "/bob/99999"));
    assert_eq!(body(&r), "'99999' is a funky age, bob.");
}

#[test]
fn age_that_is_no_number_is_not_found() {
    let r = hello_person().dispatch(&Request::new(Method::Get, "/bob/old"));
    assert_eq!(r.status(), 404);
    let r = hello_person().dispatch(&Request::new(Method::Get, "/bob/99999999999999999999999"));
    assert_eq!(r.status(), 404);
}

#[test]
fn second_segment_converter() {
    let one = vec![text("a")];
    assert_eq!(CustomPath::from_segments(&one).err(), Some(1));
    let two = vec![text("a"), text("b")];
    assert_eq!(CustomPath::from_segments(&two).ok().map(|p| p.0), Some(text("b")));
    let three = vec![text("a"), text("b"), text("c")];
    assert_eq!(CustomPath::from_segments(&three).ok().map(|p| p.0), Some(text("b")));
    let none: Vec<Vec<char>> = Vec::new();
    assert_eq!(CustomPath::from_segments(&none).err(), Some(0));
}

#[test]
fn outer_reports_segment_count() {
    let r = segments().dispatch(&Request::new(Method::Get, "/outer/a"));
    assert_eq!(body(&r), "Expected >= 2 segments, found 1.");
    let r = segments().dispatch(&Request::new(Method::Get, "/outer"));
    assert_eq!(body(&r), "Expected >= 2 segments, found 0.");
    let r = segments().dispatch(&Request::new(Method::Get, "/outer/a/b/c"));
    assert_eq!(body(&r), "b");
}

#[test]
fn inner_forwards_to_echo() {
    let r = segments().dispatch(&Request::new(Method::Get, "/inner/a/b"));
    assert_eq!(body(&r), "b");
    let r = segments().dispatch(&Request::new(Method::Get, "/inner/a"));
    assert_eq!(body(&r), "inner/a");
    let r = segments().dispatch(&Request::new(Method::Get, "/x/y/z"));
    assert_eq!(body(&r), "x/y/z");
    let r = segments().dispatch(&Request::new(Method::Get, "/x/../y"));
    assert_eq!(body(&r), "y");
    let r = segments().dispatch(&Request::new(Method::Get, "/x/.hidden"));
    assert_eq!(r.status(), 404);
}

fn form_post(path: &str, form: &str) -> Request {
    Request::new(Method::Post, path).with_format(Format::Form).with_body(form)
}

#[test]
fn strict_form_exact_fields() {
    let r = forms().dispatch(&form_post("/task", "name=write&category=work"));
    assert_eq!(r.status(), 200);
    assert_eq!(body(&r), "Task { name: \"write\", category: \"work\" }");
}

#[test]
fn strict_form_rejects_extra_field() {
    let r = forms().dispatch(&form_post("/task", "name=write&category=work&extra=1"));
    assert_eq!(r.status(), 422);
}

#[test]
fn lenient_form_drops_extra_field() {
    let r = forms().dispatch(&form_post("/lenient_task", "name=write&category=work&extra=1"));
    assert_eq!(r.status(), 200);
    assert_eq!(body(&r), "Task { name: \"write\", category: \"work\" }");
}

#[test]
fn missing_field_fails_on_both_forms() {
    let r = forms().dispatch(&form_post("/task", "name=write"));
    assert_eq!(r.status(), 422);
    let r = forms().dispatch(&form_post("/lenient_task", "name=write"));
    assert_eq!(r.status(), 422);
}

#[test]
fn form_values_are_url_decoded() {
    let r = forms().dispatch(&form_post("/task", "name=a+b%21&category=%22q%22"));
    assert_eq!(body(&r), "Task { name: \"a b!\", category: \"\\\"q\\\"\" }");
    let r = forms().dispatch(&form_post("/task", "name=%ff&category=x"));
    assert_eq!(r.status(), 422);
    let r = forms().dispatch(&form_post("/task", "name=%zz+%C3%A9&category=x"));
    assert_eq!(body(&r), "Task { name: \"%zz é\", category: \"x\" }");
    let r = forms().dispatch(&form_post("/task", "name=a%00b%1B&category=%7F"));
    let expected = Task { name: "a\0b\u{1b}".to_string(), category: "\u{7f}".to_string() };
    assert_eq!(body(&r), format!("{:?}", expected));
}

#[test]
fn form_without_form_type_is_not_found() {
    let r = forms().dispatch(&Request::new(Method::Post, "/task").with_body("name=a&category=b"));
    assert_eq!(r.status(), 404);
}

#[test]
fn strict_task_validates_values() {
    let r = forms().dispatch(&form_post("/strict_task", "name=plan&type=Business"));
    assert_eq!(body(&r), "StrictTask { name: Name(\"plan\"), kind: Business }");
    let r = forms().dispatch(&form_post("/strict_task", "name=plan&type=urgent"));
    assert_eq!(r.status(), 422);
    let r = forms().dispatch(&form_post("/strict_task", "name=&type=leisure"));
    assert_eq!(r.status(), 422);
    let long = format!("name={}&type=critical", "a".repeat(129));
    let r = forms().dispatch(&form_post("/strict_task", &long));
    assert_eq!(r.status(), 422);
    let exact = format!("name={}&type=critical", "a".repeat(128));
    let r = forms().dispatch(&form_post("/strict_task", &exact));
    assert_eq!(r.status(), 200);
}

#[test]
fn auth_chain_without_cookie_redirects_to_login() {
    let r = request_guards().dispatch(&Request::new(Method::Get, "/"));
    assert_eq!(r.status(), 303);
    assert_eq!(redirect_target(&r), "/login");
}

#[test]
fn auth_chain_admin_cookie() {
    let r = request_guards().dispatch(&Request::new(Method::Get, "/").with_cookie("0"));
    assert_eq!(body(&r), "Hello, admin 0!");
}

#[test]
fn auth_chain_user_cookie() {
    let r = request_guards().dispatch(&Request::new(Method::Get, "/").with_cookie("1"));
    assert_eq!(body(&r), "Hello, user 1!");
    let r = request_guards().dispatch(&Request::new(Method::Get, "/").with_cookie("+1"));
    assert_eq!(body(&r), "Hello, user 1!");
    let r = request_guards().dispatch(&Request::new(Method::Get, "/").with_cookie("junk"));
    assert_eq!(redirect_target(&r), "/login");
}

#[test]
fn login_and_logout_change_the_session() {
    let reg = request_guards();
    let r = reg.dispatch(&form_post("/login", "username=admin&password=password"));
    assert_eq!(r.session, SessionChange::SignIn(0));
    assert_eq!(redirect_target(&r), "/");
    let r = reg.dispatch(&form_post("/login", "username=bob&password=123456"));
    assert_eq!(r.session, SessionChange::SignIn(1));
    let r = reg.dispatch(&form_post("/login", "username=bob&password=nope"));
    assert_eq!(r.session, SessionChange::Keep);
    assert_eq!(redirect_target(&r), "/login");
    let r = reg.dispatch(&Request::new(Method::Get, "/logout"));
    assert_eq!(r.session, SessionChange::SignOut);
    let r = reg.dispatch(&form_post("/login", "username=bob"));
    assert_eq!(r.status(), 422);
}

#[test]
fn negotiation_json_preference() {
    let r = responders().dispatch(&Request::new(Method::Get, "/tasks").with_format(Format::Json));
    assert_eq!(r.format, Some(Format::Json));
    assert!(matches!(r.body, Body::TaskList));
}

#[test]
fn negotiation_default_is_html() {
    let r = responders().dispatch(&Request::new(Method::Get, "/tasks"));
    assert_eq!(r.format, Some(Format::Html));
    assert!(matches!(&r.body, Body::Template(name) if name.iter().collect::<String>() == "tasks"));
    let r = responders().dispatch(&Request::new(Method::Get, "/"));
    assert_eq!(redirect_target(&r), "/tasks");
}

#[test]
fn one_task_kinds_and_unknown_ids() {
    let r = responders().dispatch(&Request::new(Method::Get, "/tasks/2/json"));
    assert_eq!(r.format, Some(Format::Json));
    assert!(matches!(r.body, Body::TaskRecord(2)));
    let r = responders().dispatch(&Request::new(Method::Get, "/tasks/7/html"));
    assert_eq!(r.status(), 404);
    assert_eq!(body(&r), "Unknown task: 7");
    let r = responders().dispatch(&Request::new(Method::Get, "/tasks/1/xml"));
    assert_eq!(r.status(), 404);
    let r = responders().dispatch(&Request::new(Method::Get, "/tasks/256/json"));
    assert_eq!(r.status(), 404);
}

#[test]
fn token_is_served_and_required() {
    let reg = state(Some(-42)).ok().expect("starts");
    let r = reg.dispatch(&Request::new(Method::Get, "/token"));
    assert_eq!(body(&r), "-42");
    assert!(state(None).is_err());
    let reg = state(Some(i64::MIN)).ok().expect("starts");
    let r = reg.dispatch(&Request::new(Method::Get, "/token"));
    assert_eq!(body(&r), "-9223372036854775808");
}

#[test]
fn ranks_order_same_path_routes() {
    let mut reg = Registry::new();
    assert_eq!(reg.mount(Route::new(Method::Get, "/", None, Some(3), Handler::HelloWorld)), Ok(0));
    assert_eq!(reg.mount(Route::new(Method::Get, "/", None, Some(1), Handler::AdminIndex)), Ok(0));
    assert_eq!(reg.mount(Route::new(Method::Get, "/", None, Some(2), Handler::UserIndex)), Ok(1));
    let ranks: Vec<i64> = reg.routes.iter().map(|r| r.rank).collect();
    assert_eq!(ranks, vec![1, 2, 3]);
    let r = reg.dispatch(&Request::new(Method::Get, "/").with_cookie("5"));
    assert_eq!(body(&r), "Hello, user 5!");
    let r = reg.dispatch(&Request::new(Method::Get, "/"));
    assert_eq!(body(&r), "Hello, world!");
}

#[test]
fn mount_refuses_collisions_and_bad_patterns() {
    let mut reg = Registry::new();
    assert_eq!(reg.mount(Route::new(Method::Get, "/<a>", None, None, Handler::SimpleHello)), Ok(0));
    assert_eq!(
        reg.mount(Route::new(Method::Get, "/<b>", None, None, Handler::SimpleHello)),
        Err(MountError::Collision)
    );
    assert_eq!(
        reg.mount(Route::new(Method::Get, "/<p..>/x", None, None, Handler::Echo)),
        Err(MountError::BadPattern)
    );
    assert_eq!(reg.routes.len(), 1);
}

#[test]
fn default_ranks_follow_specificity() {
    assert_eq!(Route::new(Method::Get, "/a/b", None, None, Handler::HelloWorld).rank, -64);
    assert_eq!(Route::new(Method::Get, "/a/<b>", None, None, Handler::HelloWorld).rank, -63);
    assert_eq!(Route::new(Method::Get, "/a/<b..>", None, None, Handler::HelloWorld).rank, -63);
    assert_eq!(Route::new(Method::Get, "/<x>/<y>", None, None, Handler::HelloWorld).rank, -62);
    assert_eq!(Route::new(Method::Get, "/a/b/<p..>", None, None, Handler::HelloWorld).rank, -63);
}

#[test]
fn failure_stops_dispatch() {
    let mut reg = Registry::new();
    assert!(reg.mount(Route::new(Method::Post, "/task", None, Some(1), Handler::PostTask)).is_ok());
    assert!(reg.mount(Route::new(Method::Post, "/task", None, Some(2), Handler::PostLenientTask)).is_ok());
    let r = reg.dispatch(&Request::new(Method::Post, "/task").with_body("name=a&category=b&x=1"));
    assert_eq!(r.status(), 422);
}

#[test]
fn format_route_needs_preference_or_default() {
    let mut reg = Registry::new();
    assert!(reg
        .mount(Route::new(Method::Get, "/tasks", Some(Format::Json), None, Handler::JsonTasks))
        .is_ok());
    let r = reg.dispatch(&Request::new(Method::Get, "/tasks"));
    assert_eq!(r.status(), 404);
    let r = reg.dispatch(&Request::new(Method::Get, "/tasks").with_format(Format::Json));
    assert_eq!(r.status(), 200);
    let r = responders().dispatch(&Request::new(Method::Get, "/tasks").with_format(Format::MsgPack));
    assert_eq!(r.status(), 404);
}
