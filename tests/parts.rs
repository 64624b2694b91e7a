use guarded_routes::convert::{GoodAge, OneTaskKind};
use guarded_routes::forms::{url_decode, FormError, FormTask, Kind, LoginCredentials, StrictTask};
use guarded_routes::outcome::Outcome;
use guarded_routes::path::{match_pattern, parse_pattern, split_path, SegmentSpec};
use guarded_routes::roles::{Admin, User};
use guarded_routes::text::{chars_of, parse_usize, render_i64, render_u64, string_of};

fn t(s: &str) -> Vec<char> {
    s.chars().collect()
}

#[test]
fn parse_usize_bounds() {
    assert_eq!(parse_usize(&t("0")), Some(0));
    assert_eq!(parse_usize(&t("007")), Some(7));
    assert_eq!(parse_usize(&t(&usize::MAX.to_string())), Some(usize::MAX));
    assert_eq!(parse_usize(&t("18446744073709551616")), None);
    assert_eq!(parse_usize(&t("")), None);
    assert_eq!(parse_usize(&t("-1")), None);
    assert_eq!(parse_usize(&t("1a")), None);
    assert_eq!(parse_usize(&t("+7")), Some(7));
    assert_eq!(parse_usize(&t("+")), None);
    assert_eq!(parse_usize(&t("++1")), None);
    assert_eq!(parse_usize(&t("1+")), None);
}

#[test]
fn render_numbers() {
    assert_eq!(string_of(&render_u64(0)), "0");
    assert_eq!(string_of(&render_u64(1234567890)), "1234567890");
    assert_eq!(string_of(&render_u64(u64::MAX)), u64::MAX.to_string());
    assert_eq!(string_of(&render_i64(-7)), "-7");
    assert_eq!(string_of(&render_i64(i64::MAX)), i64::MAX.to_string());
}

#[test]
fn chars_round_trip() {
    assert_eq!(chars_of("héllo"), t("héllo"));
    assert_eq!(string_of(&t("héllo")), "héllo");
}

#[test]
fn split_drops_empty_segments() {
    assert_eq!(split_path(&t("//a///b/")), vec![t("a"), t("b")]);
    assert_eq!(split_path(&t("/")), Vec::<Vec<char>>::new());
}

#[test]
fn patterns_parse_and_match() {
    let p = parse_pattern("/tasks/<id>/<rest..>");
    assert_eq!(p.len(), 3);
    assert!(matches!(&p[0], SegmentSpec::Literal(x) if *x == t("tasks")));
    assert!(matches!(&p[1], SegmentSpec::Dynamic(x) if *x == t("id")));
    assert!(matches!(&p[2], SegmentSpec::Wildcard(x) if *x == t("rest")));
    let b = match_pattern(&p, &vec![t("tasks"), t("4"), t("a"), t("b")]).expect("matches");
    assert_eq!(b.params, vec![t("4")]);
    assert_eq!(b.rest, vec![t("a"), t("b")]);
    let b = match_pattern(&p, &vec![t("tasks"), t("4")]).expect("matches with nothing left");
    assert!(b.rest.is_empty());
    assert!(match_pattern(&p, &vec![t("task"), t("4")]).is_none());
    assert!(match_pattern(&p, &vec![t("tasks")]).is_none());
}

#[test]
fn good_age_guard() {
    assert!(GoodAge::from_segment(&t("0")).is_forward());
    assert!(GoodAge::from_segment(&t("123")).is_forward());
    assert!(GoodAge::from_segment(&t("50")).is_success());
    assert!(GoodAge::from_segment(&t("x")).is_forward());
    assert!(GoodAge::from_segment(&t("+50")).is_success());
}

#[test]
fn user_and_admin_guards() {
    assert_eq!(User::from_request(&None), Outcome::Forward);
    assert_eq!(Admin::from_request(&None), Outcome::Forward);
    assert_eq!(User::from_request(&Some(t("0"))), Outcome::Success(User { id: 0 }));
    assert_eq!(Admin::from_request(&Some(t("0"))), Outcome::Success(Admin(User { id: 0 })));
    assert_eq!(User::from_request(&Some(t("1"))), Outcome::Success(User { id: 1 }));
    assert_eq!(Admin::from_request(&Some(t("1"))), Outcome::Forward);
    assert_eq!(User::from_request(&Some(t("one"))), Outcome::Forward);
    assert_eq!(User::from_request(&Some(t("+1"))), Outcome::Success(User { id: 1 }));
}

#[test]
fn task_kind_param() {
    assert_eq!(OneTaskKind::from_param(&t("html")), Ok(OneTaskKind::Html));
    assert_eq!(OneTaskKind::from_param(&t("json")), Ok(OneTaskKind::Json));
    assert_eq!(OneTaskKind::from_param(&t("JSON")), Err(t("JSON")));
}

#[test]
fn url_decoding() {
    assert_eq!(url_decode(&t("a+b%20c%2F")), Some(t("a b c/")));
    assert_eq!(url_decode(&t("%C3%A9t%C3%A9")), Some(t("été")));
    assert_eq!(url_decode(&t("d%C3%A9j%C3%A0+vu")), Some(t("déjà vu")));
    assert_eq!(url_decode(&t("100%")), Some(t("100%")));
    assert_eq!(url_decode(&t("%4")), Some(t("%4")));
    assert_eq!(url_decode(&t("%zz")), Some(t("%zz")));
    assert_eq!(url_decode(&t("%2B")), Some(t("+")));
    assert_eq!(url_decode(&t("%ff")), None);
    assert_eq!(url_decode(&t("%C3x")), None);
}

#[test]
fn form_error_variants() {
    assert_eq!(FormTask::from_form(&t("name=a&category=b&x=y"), true).err(), Some(FormError::UnknownField));
    assert_eq!(FormTask::from_form(&t("category=b"), false).err(), Some(FormError::MissingField));
    assert_eq!(FormTask::from_form(&t("name=%ff&category=b"), false).err(), Some(FormError::BadValue));
    let ok = FormTask::from_form(&t("name=a&name=c&category=b"), true).ok().expect("decodes");
    assert_eq!(ok.name, t("c"));
}

#[test]
fn strict_task_and_login_forms() {
    let s = StrictTask::from_form(&t("type=CRITICAL&name=x")).ok().expect("decodes");
    assert_eq!(s.kind, Kind::Critical);
    assert_eq!(s.name.0, t("x"));
    let s = StrictTask::from_form(&t("type=leisure&name=%C3%A9")).ok().expect("decodes");
    assert_eq!(s.name.0, t("é"));
    assert_eq!(StrictTask::from_form(&t("name=x")).err(), Some(FormError::MissingField));
    assert_eq!(StrictTask::from_form(&t("name=x&type=leisure&z=1")).err(), Some(FormError::UnknownField));
    let c = LoginCredentials::from_form(&t("username=bob&password=123456")).ok().expect("decodes");
    assert_eq!(c.username, t("bob"));
    assert_eq!(c.password, t("123456"));
}
