use vstd::prelude::*;

verus! {

use crate::store::{
    apply_model, del_model, hget_model, lpush_model, lrange_model, run_model, CmdModel, FieldName,
    Store, StoreCmd, StoreError, StoreModel, ValueModel,
};
use crate::task::{
    decode_bool, decoded_bool, encode_bool, encoded_bool, Task, TaskModel,
};
use vstd::string::StringExecFns;

/// The key a task's children list is stored under: the task's own id with
/// a fixed suffix.  A record thus spans two keys, with no atomicity across
/// them.
pub open spec fn children_key_model(id: Seq<char>) -> Seq<char> {
    id + "_children"@
}

pub fn children_key(id: &str) -> (r: String)
    ensures
        r@ == children_key_model(id@),
{
    let s: String = id.to_owned();
    s.concat("_children")
}

/// The store writes a set performs, in order: both hash fields, then the
/// old children list dropped outright, then each child prepended in input
/// order — which leaves the list reversed in the store.
pub open spec fn set_commands_model(t: TaskModel) -> Seq<CmdModel> {
    seq![
        CmdModel::HSet { key: t.id, field: FieldName::Text, value: t.text },
        CmdModel::HSet { key: t.id, field: FieldName::Checked, value: encoded_bool(t.checked) },
        CmdModel::Del { key: children_key_model(t.id) },
    ] + t.children.map_values(
        |c: Seq<char>| CmdModel::LPush { key: children_key_model(t.id), value: c },
    )
}

/// Plan the writes for storing a task.  A process around the library runs
/// the same plan against the external backend, in this order, stopping at
/// the first failure.
pub fn set_commands(task: &Task) -> (r: Vec<StoreCmd>)
    ensures
        r.deep_view() == set_commands_model(task@),
{
    let ghost model = set_commands_model(task@);
    let mut r: Vec<StoreCmd> = Vec::new();
    r.push(
        StoreCmd::HSet {
            key: task.id.clone(),
            field: FieldName::Text,
            value: task.text.clone(),
        },
    );
    r.push(
        StoreCmd::HSet {
            key: task.id.clone(),
            field: FieldName::Checked,
            value: encode_bool(task.checked),
        },
    );
    let ck = children_key(task.id.as_str());
    r.push(StoreCmd::Del { key: ck.clone() });
    assert(r.deep_view() =~= model.take(3));
    let n = task.children.len();
    for i in 0..n
        invariant
            n == task.children@.len(),
            model == set_commands_model(task@),
            model.len() == 3 + n,
            ck@ == children_key_model(task@.id),
            r.deep_view() =~= model.take(3 + i as int),
    {
        let cmd = StoreCmd::LPush { key: ck.clone(), value: task.children[i].clone() };
        assert(cmd@ == CmdModel::LPush {
            key: children_key_model(task@.id),
            value: task@.children[i as int],
        });
        let ghost prev = r;
        r.push(cmd);
        assert(model[3 + i as int] == CmdModel::LPush {
            key: children_key_model(task@.id),
            value: task@.children[i as int],
        });
        assert(prev.deep_view().len() == 3 + i);
        assert(prev@.len() == 3 + i);
        assert(r@ == prev@.push(cmd));
        assert(r@.len() == 3 + i + 1);
        assert forall|j: int| 0 <= j < 3 + i + 1 implies r.deep_view()[j] == model.take(
            3 + i as int + 1,
        )[j] by {
            if j < 3 + i {
                assert(prev.deep_view()[j] == model.take(3 + i as int)[j]);
                assert(r@[j] == prev@[j]);
                assert(r.deep_view()[j] == r@[j]@);
                assert(prev.deep_view()[j] == prev@[j]@);
            } else {
                assert(r@[j] == cmd);
                assert(r.deep_view()[j] == cmd@);
            }
        }
        assert(r.deep_view() =~= model.take(3 + i as int + 1));
    }
    assert(r.deep_view() =~= model);
    r
}

/// A set is accepted unless the task's own key already holds a list, which
/// the store refuses to overwrite field-wise.
pub open spec fn set_accepts(m: StoreModel, id: Seq<char>) -> bool {
    !(m.contains_key(id) && m[id] is List)
}

/// What a successful set leaves in the store: the task's hash written
/// whole, the old children list gone, and — when there are children — the
/// new list in store order, which is the reverse of input order.  An empty
/// children list leaves no list key at all, which reads back as empty.
pub open spec fn set_model(m: StoreModel, t: TaskModel) -> StoreModel {
    let base = m.insert(
        t.id,
        ValueModel::Hash { text: Some(t.text), checked: Some(encoded_bool(t.checked)) },
    ).remove(children_key_model(t.id));
    if t.children.len() == 0 {
        base
    } else {
        base.insert(children_key_model(t.id), ValueModel::List(t.children.reverse()))
    }
}

proof fn lemma_lpush_run(m: StoreModel, key: Seq<char>, items: Seq<Seq<char>>, acc: Seq<Seq<char>>)
    requires
        m.contains_key(key),
        m[key] == ValueModel::List(acc),
    ensures
        run_model(m, items.map_values(|c: Seq<char>| CmdModel::LPush { key, value: c })) == (
            m.insert(key, ValueModel::List(items.reverse() + acc)),
            Ok::<(), StoreError>(()),
        ),
    decreases items.len(),
{
    let cmds = items.map_values(|c: Seq<char>| CmdModel::LPush { key, value: c });
    if items.len() == 0 {
        assert(items.reverse() + acc =~= acc);
        assert(m.insert(key, ValueModel::List(acc)) =~= m);
    } else {
        assert(cmds[0] == CmdModel::LPush { key, value: items[0] });
        let m1 = m.insert(key, ValueModel::List(seq![items[0]] + acc));
        assert(apply_model(m, cmds[0]) == Ok::<StoreModel, StoreError>(m1));
        assert(cmds.drop_first() =~= items.drop_first().map_values(
            |c: Seq<char>| CmdModel::LPush { key, value: c },
        ));
        lemma_lpush_run(m1, key, items.drop_first(), seq![items[0]] + acc);
        assert(items.drop_first().reverse() + (seq![items[0]] + acc) =~= items.reverse() + acc);
        assert(m1.insert(key, ValueModel::List(items.reverse() + acc)) =~= m.insert(
            key,
            ValueModel::List(items.reverse() + acc),
        ));
    }
}

/// Running the planned writes of a set does exactly what [`set_model`]
/// says, succeeds exactly when [`set_accepts`] holds, and changes nothing
/// when it is refused — the one refusal hits the first write.
pub proof fn lemma_set_run(m: StoreModel, t: TaskModel)
    ensures
        set_accepts(m, t.id) ==> run_model(m, set_commands_model(t)) == (
            set_model(m, t),
            Ok::<(), StoreError>(()),
        ),
        !set_accepts(m, t.id) ==> run_model(m, set_commands_model(t)) == (
            m,
            Err::<(), StoreError>(StoreError::WrongType),
        ),
{
    let cs = set_commands_model(t);
    let ck = children_key_model(t.id);
    let hash = ValueModel::Hash { text: Some(t.text), checked: Some(encoded_bool(t.checked)) };
    assert(cs[0] == CmdModel::HSet { key: t.id, field: FieldName::Text, value: t.text });
    if !set_accepts(m, t.id) {
        assert(apply_model(m, cs[0]) == Err::<StoreModel, StoreError>(StoreError::WrongType));
    } else {
        let m1 = match apply_model(m, cs[0]) {
            Ok(m1) => m1,
            Err(_) => m,
        };
        assert(apply_model(m, cs[0]) == Ok::<StoreModel, StoreError>(m1));
        assert(m1.contains_key(t.id) && m1[t.id] is Hash);
        assert(cs.drop_first()[0] == cs[1]);
        assert(cs[1] == CmdModel::HSet {
            key: t.id,
            field: FieldName::Checked,
            value: encoded_bool(t.checked),
        });
        let m2 = match apply_model(m1, cs[1]) {
            Ok(m2) => m2,
            Err(_) => m,
        };
        assert(apply_model(m1, cs[1]) == Ok::<StoreModel, StoreError>(m2));
        assert(m2 =~= m.insert(t.id, hash));
        assert(cs.drop_first().drop_first()[0] == cs[2]);
        assert(cs[2] == CmdModel::Del { key: ck });
        let m3 = m2.remove(ck);
        assert(apply_model(m2, cs[2]) == Ok::<StoreModel, StoreError>(m3));
        let tail = cs.drop_first().drop_first().drop_first();
        assert(tail =~= t.children.map_values(
            |c: Seq<char>| CmdModel::LPush { key: ck, value: c },
        ));
        assert(run_model(m, cs) == run_model(m1, cs.drop_first()));
        assert(run_model(m1, cs.drop_first()) == run_model(m2, cs.drop_first().drop_first()));
        assert(run_model(m2, cs.drop_first().drop_first()) == run_model(m3, tail));
        assert(run_model(m, cs) == run_model(m3, tail));
        if t.children.len() == 0 {
            assert(tail.len() == 0);
            assert(run_model(m3, tail) == (m3, Ok::<(), StoreError>(())));
            assert(m3 =~= set_model(m, t));
        } else {
            assert(tail[0] == CmdModel::LPush { key: ck, value: t.children[0] });
            assert(!m3.contains_key(ck));
            let m4 = m3.insert(ck, ValueModel::List(seq![t.children[0]]));
            assert(apply_model(m3, tail[0]) == Ok::<StoreModel, StoreError>(m4));
            assert(tail.drop_first() =~= t.children.drop_first().map_values(
                |c: Seq<char>| CmdModel::LPush { key: ck, value: c },
            ));
            assert(run_model(m3, tail) == run_model(m4, tail.drop_first()));
            lemma_lpush_run(m4, ck, t.children.drop_first(), seq![t.children[0]]);
            assert(t.children.drop_first().reverse() + seq![t.children[0]] =~= t.children.reverse());
            assert(m4.insert(
                ck,
                ValueModel::List(t.children.drop_first().reverse() + seq![t.children[0]]),
            ) =~= set_model(m, t));
        }
    }
}

/// Create or overwrite a task, wholesale: both hash fields are written and
/// the children list is replaced, never merged.  The write is refused only
/// when the task's key already holds a list; a refusal changes nothing,
/// since it hits the first command.
pub fn set_task(store: &mut Store, task: &Task) -> (r: Result<(), StoreError>)
    requires
        old(store).wf(),
    ensures
        final(store).wf(),
        r is Ok <==> set_accepts(old(store).model(), task@.id),
        r is Ok ==> final(store).model() == set_model(old(store).model(), task@),
        r is Err ==> final(store).model() == old(store).model() && r == Err::<(), StoreError>(
            StoreError::WrongType,
        ),
{
    let cmds = set_commands(task);
    let r = store.apply_all(&cmds);
    proof {
        lemma_set_run(old(store).model(), task@);
    }
    r
}

/// What a get returns, step by step as the service reads: the `checked`
/// field, then the `text` field — a missing record fails on the first —
/// then the children list, reversed back from store order into the order
/// it was set in.
pub open spec fn get_model(m: StoreModel, id: Seq<char>) -> Result<TaskModel, StoreError> {
    match hget_model(m, id, FieldName::Checked) {
        Err(e) => Err(e),
        Ok(cv) => match hget_model(m, id, FieldName::Text) {
            Err(e) => Err(e),
            Ok(tv) => match lrange_model(m, children_key_model(id)) {
                Err(e) => Err(e),
                Ok(l) => Ok(
                    TaskModel {
                        id,
                        text: tv,
                        checked: decoded_bool(cv),
                        children: l.reverse(),
                    },
                ),
            },
        },
    }
}

/// An equal copy of a list of strings, in reverse order.
pub fn reverse_strings(v: &Vec<String>) -> (r: Vec<String>)
    ensures
        r.deep_view() == v.deep_view().reverse(),
{
    let mut r: Vec<String> = Vec::new();
    let n = v.len();
    for i in 0..n
        invariant
            n == v@.len(),
            r@.len() == i,
            forall|j: int| 0 <= j < i ==> #[trigger] r.deep_view()[j] == v.deep_view()[n - 1 - j],
    {
        let x = v[n - 1 - i].clone();
        let ghost gx = x;
        let ghost prev = r;
        r.push(x);
        assert forall|j: int| 0 <= j < i + 1 implies #[trigger] r.deep_view()[j]
            == v.deep_view()[n - 1 - j] by {
            if j < i {
                assert(r@[j] == prev@[j]);
                assert(r.deep_view()[j] == r@[j]@);
                assert(prev.deep_view()[j] == prev@[j]@);
            } else {
                assert(r@[j] == gx);
                assert(gx == v@[n - 1 - i as int]);
                assert(r.deep_view()[j] == gx@);
                assert(v.deep_view()[n - 1 - j] == v@[n - 1 - j]@);
            }
        }
    }
    assert forall|j: int| 0 <= j < n implies r.deep_view()[j] == v.deep_view().reverse()[j] by {
        assert(v.deep_view().reverse()[j] == v.deep_view()[n - 1 - j]);
    }
    assert(r.deep_view() =~= v.deep_view().reverse());
    r
}

/// Rebuild a task from the raw values its two store keys hold, as the
/// backend returned them: the two hash fields, and the children list in
/// store order, which is reversed back into the order it was set in.
pub fn assemble_task(id: &str, text: String, checked: String, stored_children: Vec<String>) -> (r:
    Task)
    ensures
        r@ == (TaskModel {
            id: id@,
            text: text@,
            checked: decoded_bool(checked@),
            children: stored_children.deep_view().reverse(),
        }),
{
    let children = reverse_strings(&stored_children);
    Task {
        id: id.to_owned(),
        text,
        checked: decode_bool(checked.as_str()),
        children,
    }
}

/// Read a task back from the store.  Fails with the store's own error when
/// the record is absent — rendered as a server error, not a not-found,
/// which the service has always done.
pub fn get_task(store: &Store, id: &str) -> (r: Result<Task, StoreError>)
    requires
        store.wf(),
    ensures
        ({
            let res = get_model(store.model(), id@);
            match r {
                Ok(t) => res == Ok::<TaskModel, StoreError>(t@),
                Err(e) => res == Err::<TaskModel, StoreError>(e),
            }
        }),
{
    let checked_s = match store.hget(id, FieldName::Checked) {
        Ok(v) => v,
        Err(e) => {
            return Err(e);
        },
    };
    let text_s = match store.hget(id, FieldName::Text) {
        Ok(v) => v,
        Err(e) => {
            return Err(e);
        },
    };
    let ck = children_key(id);
    let stored_children = match store.lrange(ck.as_str()) {
        Ok(v) => v,
        Err(e) => {
            return Err(e);
        },
    };
    Ok(assemble_task(id, text_s, checked_s, stored_children))
}

/// Remove a task's primary record.  Deleting an id that is not there is a
/// no-op, not an error.  Only the hash key goes: the children list stays
/// behind under its own key, as the service has always left it.
pub fn delete_task(store: &mut Store, id: &str)
    requires
        old(store).wf(),
    ensures
        final(store).wf(),
        final(store).model() == del_model(old(store).model(), id@),
{
    store.del_key(id);
}

} // verus!
