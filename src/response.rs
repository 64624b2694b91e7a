//! Requests as the dispatcher sees them, and the responses handlers give.
use vstd::prelude::*;
use crate::path::split_path;
use crate::text::{chars_of, string_of};

verus! {

/// A request method.
#[derive(Debug, Clone, Copy, PartialEq, Eq, Structural)]
pub enum Method {
    Get,
    Head,
    Post,
    Put,
    Delete,
}

/// Whether requests of a method carry a body, whose type then decides the
/// format rather than the accepted one.
pub open spec fn carries_payload(m: Method) -> bool {
    m is Post || m is Put
}

/// A media type that routes declare and requests prefer or carry.
#[derive(Debug, Clone, Copy, PartialEq, Eq, Structural)]
pub enum Format {
    Html,
    Json,
    MsgPack,
    Form,
}

/// An incoming request, already split into path segments.
#[derive(Debug, Clone)]
pub struct Request {
    pub method: Method,
    pub segments: Vec<Vec<char>>,
    /// The accepted format for requests without a body, the body's format
    /// for the others.
    pub format: Option<Format>,
    /// The value of the session cookie, as the cookie collaborator gave it.
    pub cookie: Option<Vec<char>>,
    pub body: Vec<char>,
}

impl Request {
    /// A request for `path` with no preference, no cookie and no body.
    pub fn new(method: Method, path: &str) -> (r: Request)
        ensures
            r.method == method,
            crate::path::views(r.segments@) == crate::path::path_segments(path@),
            r.format is None,
            r.cookie is None,
            r.body@.len() == 0,
    {
        let p = chars_of(path);
        Request { method, segments: split_path(&p), format: None, cookie: None, body: Vec::new() }
    }

    /// The same request with a preferred or declared format.
    pub fn with_format(self, f: Format) -> (r: Request)
        ensures
            r.method == self.method,
            r.segments == self.segments,
            r.format == Some(f),
            r.cookie == self.cookie,
            r.body == self.body,
    {
        Request { format: Some(f), ..self }
    }

    /// The same request with a session cookie.
    pub fn with_cookie(self, value: &str) -> (r: Request)
        ensures
            r.method == self.method,
            r.segments == self.segments,
            r.format == self.format,
            r.cookie is Some && r.cookie.unwrap()@ == value@,
            r.body == self.body,
    {
        Request { cookie: Some(chars_of(value)), ..self }
    }

    /// The same request with a body.
    pub fn with_body(self, body: &str) -> (r: Request)
        ensures
            r.method == self.method,
            r.segments == self.segments,
            r.format == self.format,
            r.cookie == self.cookie,
            r.body@ == body@,
    {
        Request { body: chars_of(body), ..self }
    }
}

/// What a response asks of the session cookie.
#[derive(Debug, Clone, Copy, PartialEq, Eq, Structural)]
pub enum SessionChange {
    Keep,
    SignIn(usize),
    SignOut,
}

/// The body of a response, before the templating and serialising
/// collaborators render it.
#[derive(Debug, Clone)]
pub enum Body {
    Empty,
    Text(Vec<char>),
    /// A page rendered from the named template.
    Template(Vec<char>),
    /// A redirect to this location.
    Redirect(Vec<char>),
    /// The whole task list.
    TaskList,
    /// One task of the list.
    TaskRecord(u8),
    /// The contents of a static file.
    File(Vec<char>),
}

/// A response body as plain values.
pub enum BodyView {
    Empty,
    Text(Seq<char>),
    Template(Seq<char>),
    Redirect(Seq<char>),
    TaskList,
    TaskRecord(u8),
    File(Seq<char>),
}

impl Body {
    pub open spec fn view(&self) -> BodyView {
        match self {
            Body::Empty => BodyView::Empty,
            Body::Text(t) => BodyView::Text(t@),
            Body::Template(t) => BodyView::Template(t@),
            Body::Redirect(t) => BodyView::Redirect(t@),
            Body::TaskList => BodyView::TaskList,
            Body::TaskRecord(i) => BodyView::TaskRecord(*i),
            Body::File(t) => BodyView::File(t@),
        }
    }
}

/// A response: status, format, body, and what becomes of the session.
#[derive(Debug, Clone)]
pub struct Response {
    pub status: u16,
    pub format: Option<Format>,
    pub body: Body,
    pub session: SessionChange,
}

/// A response as plain values.
pub struct ResponseView {
    pub status: u16,
    pub format: Option<Format>,
    pub body: BodyView,
    pub session: SessionChange,
}

impl Response {
    pub open spec fn view(&self) -> ResponseView {
        ResponseView {
            status: self.status,
            format: self.format,
            body: self.body.view(),
            session: self.session,
        }
    }

    /// The status code.
    pub fn status(&self) -> (r: u16)
        ensures
            r == self.status,
    {
        self.status
    }

    /// The text of a text body; the empty text for an empty body.
    pub fn body_string(&self) -> (r: Option<String>)
        ensures
            match self.body.view() {
                BodyView::Text(t) => r is Some && r.unwrap()@ == t,
                BodyView::Empty => r is Some && r.unwrap()@.len() == 0,
                _ => r is None,
            },
    {
        match &self.body {
            Body::Text(t) => Some(string_of(t)),
            Body::Empty => {
                let e: Vec<char> = Vec::new();
                Some(string_of(&e))
            },
            _ => None,
        }
    }
}

/// A plain-text response with status 200.
pub open spec fn text_view(t: Seq<char>) -> ResponseView {
    ResponseView {
        status: 200,
        format: None,
        body: BodyView::Text(t),
        session: SessionChange::Keep,
    }
}

/// A redirect to `to`, with a change to the session.
pub open spec fn redirect_view(to: Seq<char>, session: SessionChange) -> ResponseView {
    ResponseView { status: 303, format: None, body: BodyView::Redirect(to), session }
}

/// A plain-text response with status 200.
pub fn text_response(t: Vec<char>) -> (r: Response)
    ensures
        r.view() == text_view(t@),
{
    Response { status: 200, format: None, body: Body::Text(t), session: SessionChange::Keep }
}

/// A redirect to `to`.
pub fn redirect_response(to: &str, session: SessionChange) -> (r: Response)
    ensures
        r.view() == redirect_view(to@, session),
{
    Response { status: 303, format: None, body: Body::Redirect(chars_of(to)), session }
}

/// A response with only a status, as for errors.
pub fn status_response(status: u16) -> (r: Response)
    ensures
        r.view() == (ResponseView {
            status,
            format: None,
            body: BodyView::Empty,
            session: SessionChange::Keep,
        }),
{
    Response { status, format: None, body: Body::Empty, session: SessionChange::Keep }
}

} // verus!
