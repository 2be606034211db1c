use vstd::prelude::*;

verus! {

use crate::auth::{auth_model, authorize, AuthDecision};
use crate::http::{
    bad_request, bad_request_model, finalize_model, finalize_response, not_found, not_found_model,
    ok_json, ok_json_model, store_failure_model, store_failure_response, BodyModel, Method,
    Response, ResponseBody, ResponseModel,
};
use crate::service::{delete_task, get_model, get_task, set_accepts, set_model, set_task};
use crate::store::{del_model, Store, StoreModel};
use crate::task::{str_eq, Task, TaskModel};
use vstd::string::StrSliceExecFns;

/// One inbound request, as the transport hands it over: the method, the
/// raw path, every value collected under the `X-API-Key` header (the name
/// matched case-insensitively), and the body already decoded into a task
/// where the request carried a well-formed one.
pub struct Request {
    pub method: Method,
    pub path: String,
    pub api_key_values: Vec<String>,
    pub body: Option<Task>,
}

/// Mathematical model of a [`Request`].
pub struct RequestModel {
    pub method: Method,
    pub path: Seq<char>,
    pub api_key_values: Seq<Seq<char>>,
    pub body: Option<TaskModel>,
}

impl View for Request {
    type V = RequestModel;

    open spec fn view(&self) -> RequestModel {
        RequestModel {
            method: self.method,
            path: self.path@,
            api_key_values: self.api_key_values.deep_view(),
            body: match &self.body {
                Some(t) => Some(t@),
                None => None,
            },
        }
    }
}

/// The one path segment of a `/<id>` route: the path must be a slash
/// followed by a non-empty remainder with no further slash in it.
pub open spec fn path_segment_model(path: Seq<char>) -> Option<Seq<char>> {
    if path.len() >= 2 && path[0] == '/' && (forall|i: int|
        1 <= i < path.len() ==> path[i] != '/') {
        Some(path.skip(1))
    } else {
        None
    }
}

pub fn path_segment(path: &str) -> (r: Option<String>)
    ensures
        match r {
            Some(id) => path_segment_model(path@) == Some(id@),
            None => path_segment_model(path@) is None,
        },
{
    let n = path.unicode_len();
    if n < 2 {
        return None;
    }
    if path.get_char(0) != '/' {
        return None;
    }
    for i in 1..n
        invariant
            n == path@.len(),
            2 <= n,
            path@[0] == '/',
            forall|j: int| 1 <= j < i ==> path@[j] != '/',
    {
        if path.get_char(i) == '/' {
            return None;
        }
    }
    let rest = path.substring_char(1, n);
    assert(rest@ =~= path@.skip(1));
    Some(rest.to_owned())
}

/// What the router decides before any store work: which operation runs, or
/// which terminal answer the request already earned.
pub enum RouteDecision {
    /// No route matched the method and path — or the guard forwarded a
    /// request whose key did not match, and no route was left to take it.
    NotFound,
    /// The guard rejected the request, or the set route got no readable body.
    BadRequest,
    RunSet(Task),
    RunGet(String),
    RunDel(String),
}

/// Mathematical model of a [`RouteDecision`].
pub enum RouteModel {
    NotFound,
    BadRequest,
    RunSet(TaskModel),
    RunGet(Seq<char>),
    RunDel(Seq<char>),
}

impl View for RouteDecision {
    type V = RouteModel;

    open spec fn view(&self) -> RouteModel {
        match self {
            RouteDecision::NotFound => RouteModel::NotFound,
            RouteDecision::BadRequest => RouteModel::BadRequest,
            RouteDecision::RunSet(t) => RouteModel::RunSet(t@),
            RouteDecision::RunGet(id) => RouteModel::RunGet(id@),
            RouteDecision::RunDel(id) => RouteModel::RunDel(id@),
        }
    }
}

/// The routing rule: method and path pick the route, then the guard runs,
/// and only an accepted set request needs its body.
pub open spec fn route_model(req: RequestModel, secret: Seq<char>) -> RouteModel {
    match req.method {
        Method::Post => if req.path == "/set"@ {
            match auth_model(req.api_key_values, secret) {
                AuthDecision::Reject => RouteModel::BadRequest,
                AuthDecision::Forward => RouteModel::NotFound,
                AuthDecision::Accept => match req.body {
                    Some(t) => RouteModel::RunSet(t),
                    None => RouteModel::BadRequest,
                },
            }
        } else {
            RouteModel::NotFound
        },
        Method::Get => match path_segment_model(req.path) {
            Some(id) => match auth_model(req.api_key_values, secret) {
                AuthDecision::Reject => RouteModel::BadRequest,
                AuthDecision::Forward => RouteModel::NotFound,
                AuthDecision::Accept => RouteModel::RunGet(id),
            },
            None => RouteModel::NotFound,
        },
        Method::Delete => match path_segment_model(req.path) {
            Some(id) => match auth_model(req.api_key_values, secret) {
                AuthDecision::Reject => RouteModel::BadRequest,
                AuthDecision::Forward => RouteModel::NotFound,
                AuthDecision::Accept => RouteModel::RunDel(id),
            },
            None => RouteModel::NotFound,
        },
        Method::Options => RouteModel::NotFound,
        Method::Other => RouteModel::NotFound,
    }
}

/// Whether a request matches one of the three guarded routes.
pub open spec fn protected_route(req: RequestModel) -> bool {
    ||| (req.method is Post && req.path == "/set"@)
    ||| (req.method is Get && path_segment_model(req.path) is Some)
    ||| (req.method is Delete && path_segment_model(req.path) is Some)
}

/// Decide a request: route, guard, body — no store work yet.  A process
/// around the library can run the decision against any backend; the
/// in-memory pipeline below runs it against the model store.
pub fn route_request(req: &Request, secret: &str) -> (r: RouteDecision)
    ensures
        r@ == route_model(req@, secret@),
{
    match req.method {
        Method::Post => {
            if str_eq(req.path.as_str(), "/set") {
                match authorize(&req.api_key_values, secret) {
                    AuthDecision::Reject => RouteDecision::BadRequest,
                    AuthDecision::Forward => RouteDecision::NotFound,
                    AuthDecision::Accept => match &req.body {
                        Some(t) => RouteDecision::RunSet(t.duplicate()),
                        None => RouteDecision::BadRequest,
                    },
                }
            } else {
                RouteDecision::NotFound
            }
        },
        Method::Get => match path_segment(req.path.as_str()) {
            Some(id) => match authorize(&req.api_key_values, secret) {
                AuthDecision::Reject => RouteDecision::BadRequest,
                AuthDecision::Forward => RouteDecision::NotFound,
                AuthDecision::Accept => RouteDecision::RunGet(id),
            },
            None => RouteDecision::NotFound,
        },
        Method::Delete => match path_segment(req.path.as_str()) {
            Some(id) => match authorize(&req.api_key_values, secret) {
                AuthDecision::Reject => RouteDecision::BadRequest,
                AuthDecision::Forward => RouteDecision::NotFound,
                AuthDecision::Accept => RouteDecision::RunDel(id),
            },
            None => RouteDecision::NotFound,
        },
        Method::Options => RouteDecision::NotFound,
        Method::Other => RouteDecision::NotFound,
    }
}

/// What each decision does to the store and answers, before the envelope
/// policy runs.
pub open spec fn dispatch_model(m: StoreModel, d: RouteModel) -> (StoreModel, ResponseModel) {
    match d {
        RouteModel::NotFound => (m, not_found_model()),
        RouteModel::BadRequest => (m, bad_request_model()),
        RouteModel::RunSet(t) => if set_accepts(m, t.id) {
            (set_model(m, t), ok_json_model(BodyModel::OkTrue))
        } else {
            (m, store_failure_model())
        },
        RouteModel::RunGet(id) => (
            m,
            match get_model(m, id) {
                Ok(t) => ok_json_model(BodyModel::TaskBody(t)),
                Err(_) => store_failure_model(),
            },
        ),
        RouteModel::RunDel(id) => (del_model(m, id), ok_json_model(BodyModel::OkTrue)),
    }
}

/// The whole request pipeline over the store model: route, guard, handler,
/// then the envelope policy.
pub open spec fn handle_model(m: StoreModel, req: RequestModel, secret: Seq<char>) -> (
    StoreModel,
    ResponseModel,
) {
    let dm = dispatch_model(m, route_model(req, secret));
    (dm.0, finalize_model(req.method, dm.1))
}

/// Serve one request against the model store: exactly the pipeline of
/// [`handle_model`].
pub fn handle_request(store: &mut Store, req: &Request, secret: &str) -> (r: Response)
    requires
        old(store).wf(),
    ensures
        final(store).wf(),
        final(store).model() == handle_model(old(store).model(), req@, secret@).0,
        r@ == handle_model(old(store).model(), req@, secret@).1,
{
    let d = route_request(req, secret);
    let resp = match d {
        RouteDecision::NotFound => not_found(),
        RouteDecision::BadRequest => bad_request(),
        RouteDecision::RunSet(t) => match set_task(store, &t) {
            Ok(_) => ok_json(ResponseBody::OkTrue),
            Err(_) => store_failure_response(),
        },
        RouteDecision::RunGet(id) => match get_task(store, id.as_str()) {
            Ok(t) => ok_json(ResponseBody::TaskBody(t)),
            Err(_) => store_failure_response(),
        },
        RouteDecision::RunDel(id) => {
            delete_task(store, id.as_str());
            ok_json(ResponseBody::OkTrue)
        },
    };
    finalize_response(req.method, resp)
}

} // verus!
