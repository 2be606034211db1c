use vstd::prelude::*;

verus! {

use crate::auth::auth_model;
use crate::http::{cors_header_models, BodyModel, ContentKind, ResponseModel};
use crate::router::{
    dispatch_model, handle_model, path_segment_model, protected_route, route_model, RequestModel,
    RouteModel,
};
use crate::service::{children_key_model, get_model, set_accepts, set_model};
use crate::store::{del_model, hget_model, lrange_model, FieldName, StoreError, StoreModel,
    ValueModel};
use crate::task::{encoded_bool, lemma_bool_round_trip, TaskModel};

/// A task's own key and its children-list key never collide: the suffix
/// makes the latter strictly longer.
proof fn lemma_children_key_ne(id: Seq<char>)
    ensures
        children_key_model(id) != id,
{
    reveal_strlit("_children");
    assert(children_key_model(id).len() == id.len() + 9);
}

/// Round-trip: after a successful set, a get on the same id returns
/// exactly the record that was written — same id, text and flag, and the
/// children in the order they were given (the store keeps them reversed;
/// the read reverses them back).
pub proof fn lemma_set_get_round_trip(m: StoreModel, t: TaskModel)
    requires
        set_accepts(m, t.id),
    ensures
        get_model(set_model(m, t), t.id) == Ok::<TaskModel, StoreError>(t),
{
    lemma_children_key_ne(t.id);
    let ck = children_key_model(t.id);
    let m2 = set_model(m, t);
    assert(m2.contains_key(t.id));
    assert(m2[t.id] == ValueModel::Hash {
        text: Some(t.text),
        checked: Some(encoded_bool(t.checked)),
    });
    assert(hget_model(m2, t.id, FieldName::Checked) == Ok::<Seq<char>, StoreError>(
        encoded_bool(t.checked),
    ));
    assert(hget_model(m2, t.id, FieldName::Text) == Ok::<Seq<char>, StoreError>(t.text));
    lemma_bool_round_trip(t.checked);
    if t.children.len() == 0 {
        assert(!m2.contains_key(ck));
        assert(lrange_model(m2, ck) == Ok::<Seq<Seq<char>>, StoreError>(Seq::empty()));
        assert(Seq::<Seq<char>>::empty().reverse() =~= t.children);
    } else {
        assert(m2.contains_key(ck));
        assert(m2[ck] == ValueModel::List(t.children.reverse()));
        assert(t.children.reverse().reverse() =~= t.children);
    }
    assert(get_model(m2, t.id) == Ok::<TaskModel, StoreError>(t));
}

/// Overwrite: a second set on the same id replaces the record wholesale —
/// a get then yields the second task, its children only, never a merge
/// with the first.
pub proof fn lemma_set_overwrite(m: StoreModel, t1: TaskModel, t2: TaskModel)
    requires
        set_accepts(m, t1.id),
        t2.id == t1.id,
    ensures
        set_accepts(set_model(m, t1), t2.id),
        get_model(set_model(set_model(m, t1), t2), t2.id) == Ok::<TaskModel, StoreError>(t2),
{
    lemma_children_key_ne(t1.id);
    let m1 = set_model(m, t1);
    assert(m1.contains_key(t1.id) && m1[t1.id] is Hash);
    lemma_set_get_round_trip(m1, t2);
}

/// Idempotent delete: deleting an id that is not in the store still
/// answers `{"ok": true}`, and the store stands as before.
pub proof fn lemma_delete_idempotent(m: StoreModel, req: RequestModel, secret: Seq<char>)
    requires
        req.method is Delete,
        path_segment_model(req.path) is Some,
        auth_model(req.api_key_values, secret) is Accept,
        !m.contains_key(path_segment_model(req.path)->0),
    ensures
        handle_model(m, req, secret).1.status == 200,
        handle_model(m, req, secret).1.body is OkTrue,
        handle_model(m, req, secret).0 == m,
{
    let id = path_segment_model(req.path)->0;
    assert(del_model(m, id) =~= m);
}

/// Authorization, observed at the boundary: on any guarded route, a
/// request with no key header or several is answered 400; exactly one key
/// with the wrong value falls through to 404; the expected key lets the
/// matched operation run.
pub proof fn lemma_auth_gate(m: StoreModel, req: RequestModel, secret: Seq<char>)
    requires
        protected_route(req),
    ensures
        req.api_key_values.len() != 1 ==> handle_model(m, req, secret).1.status == 400,
        req.api_key_values.len() == 1 && req.api_key_values[0] != secret ==> handle_model(
            m,
            req,
            secret,
        ).1.status == 404,
        auth_model(req.api_key_values, secret) is Accept && req.method is Get ==> route_model(
            req,
            secret,
        ) == RouteModel::RunGet(path_segment_model(req.path)->0),
        auth_model(req.api_key_values, secret) is Accept && req.method is Delete ==> route_model(
            req,
            secret,
        ) == RouteModel::RunDel(path_segment_model(req.path)->0),
        auth_model(req.api_key_values, secret) is Accept && req.method is Post && req.body is Some
            ==> route_model(req, secret) == RouteModel::RunSet(req.body->0),
{
}

/// The envelope, seen at the surface: every preflight request is answered
/// with an empty plain-text 200 carrying the four cross-origin headers,
/// and every JSON response carries the same four.
pub proof fn lemma_cors(m: StoreModel, req: RequestModel, secret: Seq<char>)
    ensures
        req.method is Options ==> handle_model(m, req, secret).1 == (ResponseModel {
            status: 200,
            content: ContentKind::PlainText,
            body: BodyModel::Empty,
            headers: cors_header_models(),
        }),
        handle_model(m, req, secret).1.content is Json ==> handle_model(m, req, secret).1.headers
            == cors_header_models(),
{
    let resp = dispatch_model(m, route_model(req, secret)).1;
    assert(resp.headers =~= Seq::<(Seq<char>, Seq<char>)>::empty());
    assert(Seq::<(Seq<char>, Seq<char>)>::empty() + cors_header_models() =~= cors_header_models());
    if req.method is Options {
        assert(handle_model(m, req, secret).1 =~= ResponseModel {
            status: 200,
            content: ContentKind::PlainText,
            body: BodyModel::Empty,
            headers: cors_header_models(),
        });
    }
}

} // verus!
