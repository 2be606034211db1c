use taskstore::http::{ContentKind, Method, Response, ResponseBody};
use taskstore::router::{handle_request, Request};
use taskstore::store::Store;
use taskstore::task::Task;

const KEY: &str = "sesame";

fn request(method: Method, path: &str, key: Option<&str>, body: Option<Task>) -> Request {
    Request {
        method,
        path: path.to_owned(),
        api_key_values: match key {
            Some(k) => vec![k.to_owned()],
            None => vec![],
        },
        body,
    }
}

fn task(id: &str, text: &str, checked: bool, children: &[&str]) -> Task {
    Task {
        id: id.to_owned(),
        text: text.to_owned(),
        checked,
        children: children.iter().map(|c| (*c).to_owned()).collect(),
    }
}

fn set(store: &mut Store, t: Task) -> Response {
    handle_request(store, &request(Method::Post, "/set", Some(KEY), Some(t)), KEY)
}

fn get(store: &mut Store, id: &str) -> Response {
    let path = format!("/{}", id);
    handle_request(store, &request(Method::Get, &path, Some(KEY), None), KEY)
}

fn delete(store: &mut Store, id: &str) -> Response {
    let path = format!("/{}", id);
    handle_request(store, &request(Method::Delete, &path, Some(KEY), None), KEY)
}

fn body_task(r: &Response) -> &Task {
    match &r.body {
        ResponseBody::TaskBody(t) => t,
        _ => panic!("expected a task body"),
    }
}

#[test]
fn works() {
    let mut store = Store::new();

    let t = task("test", "testtest", true, &[]);

    let res = set(&mut store, t);
    assert_eq!(res.status, 200);

    let res = get(&mut store, "test");
    assert_eq!(res.status, 200);
    let target = body_task(&res);
    assert_eq!(target.id, "test");
    assert_eq!(target.text, "testtest");
    assert_eq!(target.checked, true);
    assert_eq!(target.children, Vec::<String>::new());

    let res = delete(&mut store, "test");
    assert_eq!(res.status, 200);
}

#[test]
fn round_trip_keeps_children_order() {
    let mut store = Store::new();
    let res = set(&mut store, task("a", "first", true, &["x", "y", "z"]));
    assert_eq!(res.status, 200);
    assert!(matches!(res.body, ResponseBody::OkTrue));

    let res = get(&mut store, "a");
    assert_eq!(res.status, 200);
    let t = body_task(&res);
    assert_eq!(t.id, "a");
    assert_eq!(t.text, "first");
    assert_eq!(t.checked, true);
    assert_eq!(t.children, vec!["x".to_owned(), "y".to_owned(), "z".to_owned()]);
}

#[test]
fn delete_missing_id_still_ok() {
    let mut store = Store::new();
    let res = delete(&mut store, "never-set");
    assert_eq!(res.status, 200);
    assert!(matches!(res.body, ResponseBody::OkTrue));
}

#[test]
fn overwrite_replaces_children_wholesale() {
    let mut store = Store::new();
    set(&mut store, task("x", "one", false, &["a", "b"]));
    set(&mut store, task("x", "two", true, &["c"]));

    let res = get(&mut store, "x");
    assert_eq!(res.status, 200);
    let t = body_task(&res);
    assert_eq!(t.text, "two");
    assert_eq!(t.checked, true);
    assert_eq!(t.children, vec!["c".to_owned()]);
}

#[test]
fn missing_key_header_is_bad_request() {
    let mut store = Store::new();
    let res = handle_request(&mut store, &request(Method::Get, "/a", None, None), KEY);
    assert_eq!(res.status, 400);
}

#[test]
fn repeated_key_header_is_bad_request() {
    let mut store = Store::new();
    let req = Request {
        method: Method::Delete,
        path: "/a".to_owned(),
        api_key_values: vec![KEY.to_owned(), KEY.to_owned()],
        body: None,
    };
    let res = handle_request(&mut store, &req, KEY);
    assert_eq!(res.status, 400);
}

#[test]
fn wrong_key_falls_through_to_not_found() {
    let mut store = Store::new();
    set(&mut store, task("a", "kept", false, &[]));
    let res = handle_request(&mut store, &request(Method::Get, "/a", Some("guess"), None), KEY);
    assert_eq!(res.status, 404);
    let res = get(&mut store, "a");
    assert_eq!(res.status, 200);
}

#[test]
fn checked_false_round_trips() {
    let mut store = Store::new();
    set(&mut store, task("f", "flag", false, &[]));
    let res = get(&mut store, "f");
    assert_eq!(res.status, 200);
    assert_eq!(body_task(&res).checked, false);
}

#[test]
fn preflight_short_circuits() {
    let mut store = Store::new();
    let res = handle_request(&mut store, &request(Method::Options, "/anything", None, None), KEY);
    assert_eq!(res.status, 200);
    assert!(matches!(res.body, ResponseBody::Empty));
    assert!(matches!(res.content, ContentKind::PlainText));
    let names: Vec<&str> = res.headers.iter().map(|h| h.name.as_str()).collect();
    assert_eq!(
        names,
        vec![
            "Access-Control-Allow-Origin",
            "Access-Control-Allow-Methods",
            "Access-Control-Allow-Headers",
            "Access-Control-Allow-Credentials",
        ]
    );
    assert_eq!(res.headers[0].value, "*");
    assert_eq!(res.headers[1].value, "POST, GET, OPTIONS, DELETE");
    assert_eq!(res.headers[2].value, "Content-Type, Accept, X-API-Key");
    assert_eq!(res.headers[3].value, "true");
}

#[test]
fn json_responses_carry_cors_headers() {
    let mut store = Store::new();
    let res = set(&mut store, task("c", "cors", false, &[]));
    assert!(matches!(res.content, ContentKind::Json));
    assert_eq!(res.headers.len(), 4);
    assert_eq!(res.headers[0].name, "Access-Control-Allow-Origin");
    assert_eq!(res.headers[3].value, "true");

    let res = get(&mut store, "c");
    assert!(matches!(res.content, ContentKind::Json));
    assert_eq!(res.headers.len(), 4);
}

#[test]
fn error_pages_carry_no_cors_headers() {
    let mut store = Store::new();
    let res = handle_request(&mut store, &request(Method::Get, "/a", None, None), KEY);
    assert_eq!(res.status, 400);
    assert!(res.headers.is_empty());
    assert!(matches!(res.content, ContentKind::Html));
}

#[test]
fn scenario_set_get_delete_get() {
    let mut store = Store::new();

    let res = set(&mut store, task("t1", "buy milk", false, &["t2"]));
    assert_eq!(res.status, 200);
    assert!(matches!(res.body, ResponseBody::OkTrue));

    let res = get(&mut store, "t1");
    assert_eq!(res.status, 200);
    let t = body_task(&res);
    assert_eq!(t.id, "t1");
    assert_eq!(t.text, "buy milk");
    assert_eq!(t.checked, false);
    assert_eq!(t.children, vec!["t2".to_owned()]);

    let res = delete(&mut store, "t1");
    assert_eq!(res.status, 200);
    assert!(matches!(res.body, ResponseBody::OkTrue));

    let res = get(&mut store, "t1");
    assert_eq!(res.status, 500);
}

#[test]
fn get_of_missing_id_is_server_error() {
    let mut store = Store::new();
    let res = get(&mut store, "ghost");
    assert_eq!(res.status, 500);
    assert!(matches!(res.content, ContentKind::Html));
}

#[test]
fn unknown_routes_are_not_found() {
    let mut store = Store::new();
    let res = handle_request(&mut store, &request(Method::Post, "/other", Some(KEY), None), KEY);
    assert_eq!(res.status, 404);
    let res = handle_request(&mut store, &request(Method::Get, "/a/b", Some(KEY), None), KEY);
    assert_eq!(res.status, 404);
    let res = handle_request(&mut store, &request(Method::Get, "/", Some(KEY), None), KEY);
    assert_eq!(res.status, 404);
    let res = handle_request(&mut store, &request(Method::Other, "/a", Some(KEY), None), KEY);
    assert_eq!(res.status, 404);
}

#[test]
fn set_without_body_is_bad_request() {
    let mut store = Store::new();
    let res = handle_request(&mut store, &request(Method::Post, "/set", Some(KEY), None), KEY);
    assert_eq!(res.status, 400);
}

#[test]
fn delete_leaves_children_list_behind() {
    let mut store = Store::new();
    set(&mut store, task("p", "parent", false, &["q"]));
    delete(&mut store, "p");
    // the primary hash is gone, so a get fails ...
    let res = get(&mut store, "p");
    assert_eq!(res.status, 500);
    // ... but the children list still sits under its own key
    let left = store.lrange("p_children").unwrap();
    assert_eq!(left, vec!["q".to_owned()]);
}
