use taskstore::auth::{authorize, AuthDecision};
use taskstore::service::{children_key, get_task, set_commands, set_task};
use taskstore::store::{FieldName, Store, StoreCmd, StoreError};
use taskstore::task::{decode_bool, encode_bool, str_eq, Task};

fn task(id: &str, text: &str, checked: bool, children: &[&str]) -> Task {
    Task {
        id: id.to_owned(),
        text: text.to_owned(),
        checked,
        children: children.iter().map(|c| (*c).to_owned()).collect(),
    }
}

#[test]
fn bool_encoding_is_the_two_literals() {
    assert_eq!(encode_bool(true), "true");
    assert_eq!(encode_bool(false), "false");
    assert!(decode_bool("true"));
    assert!(!decode_bool("false"));
}

#[test]
fn only_the_exact_string_true_decodes_to_true() {
    assert!(!decode_bool("True"));
    assert!(!decode_bool("TRUE"));
    assert!(!decode_bool("1"));
    assert!(!decode_bool(""));
    assert!(!decode_bool(" true"));
}

#[test]
fn children_key_appends_the_fixed_suffix() {
    assert_eq!(children_key("a"), "a_children");
    assert_eq!(children_key("t1"), "t1_children");
}

#[test]
fn str_eq_compares_by_value() {
    assert!(str_eq("abc", "abc"));
    assert!(!str_eq("abc", "abd"));
    assert!(!str_eq("abc", "abcd"));
    assert!(str_eq("", ""));
}

#[test]
fn set_plan_writes_fields_then_replaces_children() {
    let cmds = set_commands(&task("t", "txt", true, &["a", "b"]));
    assert_eq!(cmds.len(), 5);
    match &cmds[0] {
        StoreCmd::HSet { key, field: FieldName::Text, value } => {
            assert_eq!(key, "t");
            assert_eq!(value, "txt");
        },
        _ => panic!("first write must set the text field"),
    }
    match &cmds[1] {
        StoreCmd::HSet { key, field: FieldName::Checked, value } => {
            assert_eq!(key, "t");
            assert_eq!(value, "true");
        },
        _ => panic!("second write must set the checked field"),
    }
    match &cmds[2] {
        StoreCmd::Del { key } => assert_eq!(key, "t_children"),
        _ => panic!("third write must drop the old children list"),
    }
    match &cmds[3] {
        StoreCmd::LPush { key, value } => {
            assert_eq!(key, "t_children");
            assert_eq!(value, "a");
        },
        _ => panic!("children are prepended in input order"),
    }
    match &cmds[4] {
        StoreCmd::LPush { key, value } => {
            assert_eq!(key, "t_children");
            assert_eq!(value, "b");
        },
        _ => panic!("children are prepended in input order"),
    }
}

#[test]
fn children_are_stored_in_reverse_order() {
    let mut store = Store::new();
    set_task(&mut store, &task("t", "txt", false, &["a", "b", "c"])).unwrap();
    // prepends reverse the list on the way in ...
    assert_eq!(
        store.lrange("t_children").unwrap(),
        vec!["c".to_owned(), "b".to_owned(), "a".to_owned()]
    );
    // ... and the read reverses it back
    let t = get_task(&store, "t").unwrap();
    assert_eq!(t.children, vec!["a".to_owned(), "b".to_owned(), "c".to_owned()]);
}

#[test]
fn hget_errors_tell_absence_from_wrong_kind() {
    let mut store = Store::new();
    assert_eq!(store.hget("nope", FieldName::Text), Err(StoreError::NotFound));
    store.lpush("l", "x").unwrap();
    assert_eq!(store.hget("l", FieldName::Text), Err(StoreError::WrongType));
    store.hset("h", FieldName::Text, "v").unwrap();
    assert_eq!(store.hget("h", FieldName::Checked), Err(StoreError::NotFound));
    assert_eq!(store.hget("h", FieldName::Text), Ok("v".to_owned()));
}

#[test]
fn lrange_of_missing_key_is_empty() {
    let store = Store::new();
    assert_eq!(store.lrange("nope").unwrap(), Vec::<String>::new());
}

#[test]
fn lrange_of_hash_key_is_wrong_type() {
    let mut store = Store::new();
    store.hset("h", FieldName::Text, "v").unwrap();
    assert_eq!(store.lrange("h"), Err(StoreError::WrongType));
}

#[test]
fn set_onto_list_key_is_refused_and_changes_nothing() {
    let mut store = Store::new();
    store.lpush("busy", "x").unwrap();
    let r = set_task(&mut store, &task("busy", "txt", false, &[]));
    assert_eq!(r, Err(StoreError::WrongType));
    assert_eq!(store.lrange("busy").unwrap(), vec!["x".to_owned()]);
}

#[test]
fn failed_run_leaves_earlier_writes_in_place() {
    let mut store = Store::new();
    store.lpush("list", "x").unwrap();
    let cmds = vec![
        StoreCmd::HSet {
            key: "k".to_owned(),
            field: FieldName::Text,
            value: "v".to_owned(),
        },
        StoreCmd::LPush { key: "k".to_owned(), value: "c".to_owned() },
    ];
    let r = store.apply_all(&cmds);
    assert_eq!(r, Err(StoreError::WrongType));
    // the first write stands; there is no rollback
    assert_eq!(store.hget("k", FieldName::Text), Ok("v".to_owned()));
}

#[test]
fn gate_decisions() {
    let none: Vec<String> = vec![];
    assert_eq!(authorize(&none, "s"), AuthDecision::Reject);
    let two = vec!["s".to_owned(), "s".to_owned()];
    assert_eq!(authorize(&two, "s"), AuthDecision::Reject);
    let wrong = vec!["S".to_owned()];
    assert_eq!(authorize(&wrong, "s"), AuthDecision::Forward);
    let right = vec!["s".to_owned()];
    assert_eq!(authorize(&right, "s"), AuthDecision::Accept);
}

#[test]
fn get_reads_checked_before_text() {
    let mut store = Store::new();
    // only the text field is present: the read of checked fails first
    store.hset("half", FieldName::Text, "v").unwrap();
    assert_eq!(get_task(&store, "half").map(|t| t.id), Err(StoreError::NotFound));
}
