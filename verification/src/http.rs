use vstd::prelude::*;

verus! {

use crate::task::{Task, TaskModel};

/// The request methods the service tells apart; everything else falls under
/// [`Method::Other`] and matches no route.
#[derive(Clone, Copy, PartialEq, Eq, Structural, Debug)]
pub enum Method {
    Get,
    Post,
    Delete,
    Options,
    Other,
}

/// The content types the service puts on its responses: JSON for the
/// handlers, plain text for a short-circuited preflight, bare markup for
/// the framework's error pages.
#[derive(Clone, Copy, PartialEq, Eq, Structural, Debug)]
pub enum ContentKind {
    Json,
    PlainText,
    Html,
}

/// What a response carries, kept structured: the transport serializes
/// [`ResponseBody::OkTrue`] as the fixed `{"ok": true}` envelope and
/// [`ResponseBody::TaskBody`] as the task's JSON object.
pub enum ResponseBody {
    Empty,
    OkTrue,
    TaskBody(Task),
}

/// Mathematical model of a [`ResponseBody`].
pub enum BodyModel {
    Empty,
    OkTrue,
    TaskBody(TaskModel),
}

impl View for ResponseBody {
    type V = BodyModel;

    open spec fn view(&self) -> BodyModel {
        match self {
            ResponseBody::Empty => BodyModel::Empty,
            ResponseBody::OkTrue => BodyModel::OkTrue,
            ResponseBody::TaskBody(t) => BodyModel::TaskBody(t@),
        }
    }
}

/// One response header, as a name and a value.
pub struct HeaderPair {
    pub name: String,
    pub value: String,
}

impl View for HeaderPair {
    type V = (Seq<char>, Seq<char>);

    open spec fn view(&self) -> (Seq<char>, Seq<char>) {
        (self.name@, self.value@)
    }
}

impl DeepView for HeaderPair {
    type V = (Seq<char>, Seq<char>);

    open spec fn deep_view(&self) -> (Seq<char>, Seq<char>) {
        self@
    }
}

/// An outgoing response, before the transport writes it out.
pub struct Response {
    pub status: u16,
    pub content: ContentKind,
    pub body: ResponseBody,
    pub headers: Vec<HeaderPair>,
}

/// Mathematical model of a [`Response`].
#[verifier::ext_equal]
pub struct ResponseModel {
    pub status: u16,
    pub content: ContentKind,
    pub body: BodyModel,
    pub headers: Seq<(Seq<char>, Seq<char>)>,
}

impl View for Response {
    type V = ResponseModel;

    open spec fn view(&self) -> ResponseModel {
        ResponseModel {
            status: self.status,
            content: self.content,
            body: self.body@,
            headers: self.headers.deep_view(),
        }
    }
}

/// The four cross-origin headers the envelope policy adds, in order: any
/// origin, the four supported methods, the accepted request headers, and
/// credentials allowed.
pub open spec fn cors_header_models() -> Seq<(Seq<char>, Seq<char>)> {
    seq![
        ("Access-Control-Allow-Origin"@, "*"@),
        ("Access-Control-Allow-Methods"@, "POST, GET, OPTIONS, DELETE"@),
        ("Access-Control-Allow-Headers"@, "Content-Type, Accept, X-API-Key"@),
        ("Access-Control-Allow-Credentials"@, "true"@),
    ]
}

/// The four cross-origin headers, built for a response.
pub fn cors_headers() -> (r: Vec<HeaderPair>)
    ensures
        r.deep_view() == cors_header_models(),
{
    let mut r: Vec<HeaderPair> = Vec::new();
    r.push(HeaderPair { name: "Access-Control-Allow-Origin".to_owned(), value: "*".to_owned() });
    r.push(
        HeaderPair {
            name: "Access-Control-Allow-Methods".to_owned(),
            value: "POST, GET, OPTIONS, DELETE".to_owned(),
        },
    );
    r.push(
        HeaderPair {
            name: "Access-Control-Allow-Headers".to_owned(),
            value: "Content-Type, Accept, X-API-Key".to_owned(),
        },
    );
    r.push(
        HeaderPair {
            name: "Access-Control-Allow-Credentials".to_owned(),
            value: "true".to_owned(),
        },
    );
    assert(r.deep_view() =~= cors_header_models());
    r
}

/// Whether the envelope policy adds the cross-origin headers: on every
/// preflight answer and on every JSON response.
pub open spec fn cors_applies(method: Method, r: ResponseModel) -> bool {
    method is Options || r.content is Json
}

/// What the envelope policy makes of an outgoing response: the cross-origin
/// headers are appended where they apply, and a preflight answer is forced
/// to an empty plain-text 200, whatever stood there before.
pub open spec fn finalize_model(method: Method, r: ResponseModel) -> ResponseModel {
    let headers = if cors_applies(method, r) {
        r.headers + cors_header_models()
    } else {
        r.headers
    };
    if method is Options {
        ResponseModel {
            status: 200,
            content: ContentKind::PlainText,
            body: BodyModel::Empty,
            headers,
        }
    } else {
        ResponseModel { status: r.status, content: r.content, body: r.body, headers }
    }
}

/// Post-process an outgoing response as the envelope policy dictates.
pub fn finalize_response(method: Method, resp: Response) -> (r: Response)
    ensures
        r@ == finalize_model(method, resp@),
{
    let ghost r0 = resp@;
    let mut resp = resp;
    let is_options = match method {
        Method::Options => true,
        _ => false,
    };
    let is_json = match resp.content {
        ContentKind::Json => true,
        _ => false,
    };
    if is_options || is_json {
        let mut cs = cors_headers();
        resp.headers.append(&mut cs);
        assert(resp.headers.deep_view() =~= r0.headers + cors_header_models());
    }
    if is_options {
        resp.status = 200;
        resp.content = ContentKind::PlainText;
        resp.body = ResponseBody::Empty;
    }
    assert(resp@ =~= finalize_model(method, r0));
    resp
}

/// A fresh success response: 200, JSON, no headers yet.
pub open spec fn ok_json_model(body: BodyModel) -> ResponseModel {
    ResponseModel {
        status: 200,
        content: ContentKind::Json,
        body,
        headers: Seq::empty(),
    }
}

pub fn ok_json(body: ResponseBody) -> (r: Response)
    ensures
        r@ == ok_json_model(body@),
{
    let r = Response { status: 200, content: ContentKind::Json, body, headers: Vec::new() };
    assert(r@ =~= ok_json_model(r.body@));
    r
}

/// The framework's bare not-found page: what an unmatched path, or a
/// forwarded guard with no route left, is answered with.
pub open spec fn not_found_model() -> ResponseModel {
    ResponseModel {
        status: 404,
        content: ContentKind::Html,
        body: BodyModel::Empty,
        headers: Seq::empty(),
    }
}

pub fn not_found() -> (r: Response)
    ensures
        r@ == not_found_model(),
{
    let r = Response {
        status: 404,
        content: ContentKind::Html,
        body: ResponseBody::Empty,
        headers: Vec::new(),
    };
    assert(r@ =~= not_found_model());
    r
}

/// The client-error page: a rejected guard, or an unreadable set body.
pub open spec fn bad_request_model() -> ResponseModel {
    ResponseModel {
        status: 400,
        content: ContentKind::Html,
        body: BodyModel::Empty,
        headers: Seq::empty(),
    }
}

pub fn bad_request() -> (r: Response)
    ensures
        r@ == bad_request_model(),
{
    let r = Response {
        status: 400,
        content: ContentKind::Html,
        body: ResponseBody::Empty,
        headers: Vec::new(),
    };
    assert(r@ =~= bad_request_model());
    r
}

/// Every store failure is answered alike: a bare server error with no
/// structured body.  A missing id thus surfaces as 500, not 404 — the
/// literal behaviour of the service, kept rather than silently mended.
pub open spec fn store_failure_model() -> ResponseModel {
    ResponseModel {
        status: 500,
        content: ContentKind::Html,
        body: BodyModel::Empty,
        headers: Seq::empty(),
    }
}

pub fn store_failure_response() -> (r: Response)
    ensures
        r@ == store_failure_model(),
{
    let r = Response {
        status: 500,
        content: ContentKind::Html,
        body: ResponseBody::Empty,
        headers: Vec::new(),
    };
    assert(r@ =~= store_failure_model());
    r
}

} // verus!
