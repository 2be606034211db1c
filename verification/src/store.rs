use vstd::prelude::*;

verus! {

use crate::task::{clone_strings, str_eq};

/// The key-to-value map a store denotes.
pub type StoreModel = Map<Seq<char>, ValueModel>;

/// The two hash fields a task record is stored under.
#[derive(Clone, Copy, PartialEq, Eq, Structural, Debug)]
pub enum FieldName {
    Text,
    Checked,
}

/// How a store operation fails.  The external backend adds transport
/// failures of its own; the process that runs it answers those the same
/// way as these.
#[derive(Clone, Copy, PartialEq, Eq, Structural, Debug)]
pub enum StoreError {
    /// The key, or the hash field asked for, is absent.
    NotFound,
    /// The key holds the other kind of value than the operation expects.
    WrongType,
}

/// What one key of the store holds.  A task record is a field hash — the
/// service only ever writes the fields `text` and `checked`, so the hash is
/// modelled by exactly those two, each possibly unset — and a children list
/// is an ordered list of strings.
pub enum Value {
    Hash { text: Option<String>, checked: Option<String> },
    List(Vec<String>),
}

/// Mathematical model of a [`Value`].
pub enum ValueModel {
    Hash { text: Option<Seq<char>>, checked: Option<Seq<char>> },
    List(Seq<Seq<char>>),
}

impl View for Value {
    type V = ValueModel;

    open spec fn view(&self) -> ValueModel {
        match self {
            Value::Hash { text, checked } => ValueModel::Hash {
                text: match text {
                    Some(t) => Some(t@),
                    None => None,
                },
                checked: match checked {
                    Some(c) => Some(c@),
                    None => None,
                },
            },
            Value::List(items) => ValueModel::List(items.deep_view()),
        }
    }
}

/// One key of the store together with what it holds.
pub struct Entry {
    pub key: String,
    pub value: Value,
}

/// An in-memory key-value store with the primitives the service uses:
/// hash-field writes and reads, list prepends and reads, key deletion.
/// It is the model that every contract of this crate is stated against,
/// and serves as a drop-in double for the external backend in tests.
pub struct Store {
    pub entries: Vec<Entry>,
}

/// The map a sequence of entries denotes; a later entry for the same key
/// would win, though well-formed stores never hold two.
pub open spec fn entries_model(s: Seq<Entry>) -> Map<Seq<char>, ValueModel>
    decreases s.len(),
{
    if s.len() == 0 {
        Map::empty()
    } else {
        entries_model(s.drop_last()).insert(s.last().key@, s.last().value@)
    }
}

impl Store {
    /// The key-to-value map this store denotes.
    pub open spec fn model(self) -> Map<Seq<char>, ValueModel> {
        entries_model(self.entries@)
    }

    /// Well-formed: no key appears twice.
    pub open spec fn wf(self) -> bool {
        forall|i: int, j: int|
            0 <= i < j < self.entries@.len() ==> self.entries@[i].key@ != self.entries@[j].key@
    }

    pub fn new() -> (s: Store)
        ensures
            s.wf(),
            s.model() == Map::<Seq<char>, ValueModel>::empty(),
    {
        Store { entries: Vec::new() }
    }
}

/// A key is in the denoted map exactly when some entry carries it.
pub proof fn lemma_model_contains(s: Seq<Entry>, k: Seq<char>)
    ensures
        entries_model(s).contains_key(k) <==> exists|i: int| 0 <= i < s.len() && s[i].key@ == k,
    decreases s.len(),
{
    if s.len() > 0 {
        lemma_model_contains(s.drop_last(), k);
        if entries_model(s).contains_key(k) {
            if s.last().key@ == k {
                assert(s[s.len() - 1].key@ == k);
            } else {
                let i = choose|i: int| 0 <= i < s.drop_last().len() && s.drop_last()[i].key@ == k;
                assert(s[i].key@ == k);
            }
        }
        if exists|i: int| 0 <= i < s.len() && s[i].key@ == k {
            let i = choose|i: int| 0 <= i < s.len() && s[i].key@ == k;
            if i < s.len() - 1 {
                assert(s.drop_last()[i].key@ == k);
            }
        }
    }
}

/// With no key repeated, the denoted map sends a key to the value of the
/// one entry that carries it.
pub proof fn lemma_model_index(s: Seq<Entry>, i: int)
    requires
        forall|p: int, q: int| 0 <= p < q < s.len() ==> s[p].key@ != s[q].key@,
        0 <= i < s.len(),
    ensures
        entries_model(s).contains_key(s[i].key@),
        entries_model(s)[s[i].key@] == s[i].value@,
    decreases s.len(),
{
    lemma_model_contains(s, s[i].key@);
    if i == s.len() - 1 {
    } else {
        lemma_model_index(s.drop_last(), i);
        assert(s.drop_last()[i] == s[i]);
        assert(s.last().key@ != s[i].key@);
    }
}

/// Replacing the one entry that carries a key updates the denoted map at
/// that key alone.
pub proof fn lemma_model_update(s: Seq<Entry>, i: int, e: Entry)
    requires
        forall|p: int, q: int| 0 <= p < q < s.len() ==> s[p].key@ != s[q].key@,
        0 <= i < s.len(),
        e.key@ == s[i].key@,
    ensures
        entries_model(s.update(i, e)) =~= entries_model(s).insert(e.key@, e.value@),
    decreases s.len(),
{
    let t = s.update(i, e);
    if i == s.len() - 1 {
        assert(t.drop_last() =~= s.drop_last());
        assert(t.last() == e);
    } else {
        lemma_model_update(s.drop_last(), i, e);
        assert(t.drop_last() =~= s.drop_last().update(i, e));
        assert(t.last() == s.last());
        assert(s.last().key@ != e.key@);
    }
}

/// Appending an entry inserts its key into the denoted map.
pub proof fn lemma_model_push(s: Seq<Entry>, e: Entry)
    ensures
        entries_model(s.push(e)) == entries_model(s).insert(e.key@, e.value@),
{
    assert(s.push(e).drop_last() =~= s);
    assert(s.push(e).last() == e);
}

/// Removing the one entry that carries a key removes that key from the
/// denoted map and leaves every other key as it was.
pub proof fn lemma_model_remove(s: Seq<Entry>, i: int)
    requires
        forall|p: int, q: int| 0 <= p < q < s.len() ==> s[p].key@ != s[q].key@,
        0 <= i < s.len(),
    ensures
        entries_model(s.remove(i)) =~= entries_model(s).remove(s[i].key@),
    decreases s.len(),
{
    lemma_model_contains(s, s[i].key@);
    if i == s.len() - 1 {
        assert(s.remove(i) =~= s.drop_last());
        lemma_model_contains(s.drop_last(), s[i].key@);
        assert(forall|p: int|
            0 <= p < s.drop_last().len() ==> s.drop_last()[p].key@ != s[i].key@);
        assert(!entries_model(s.drop_last()).contains_key(s[i].key@));
    } else {
        lemma_model_remove(s.drop_last(), i);
        assert(s.remove(i).drop_last() =~= s.drop_last().remove(i));
        assert(s.remove(i).last() == s.last());
        assert(s.last().key@ != s[i].key@);
    }
}

/// One write against the store: set a hash field, delete a key, or prepend
/// to a list.  The three writes the service performs, in the form the
/// backend takes them.
pub enum StoreCmd {
    HSet { key: String, field: FieldName, value: String },
    Del { key: String },
    LPush { key: String, value: String },
}

/// Mathematical model of a [`StoreCmd`].
pub enum CmdModel {
    HSet { key: Seq<char>, field: FieldName, value: Seq<char> },
    Del { key: Seq<char> },
    LPush { key: Seq<char>, value: Seq<char> },
}

impl View for StoreCmd {
    type V = CmdModel;

    open spec fn view(&self) -> CmdModel {
        match self {
            StoreCmd::HSet { key, field, value } => CmdModel::HSet {
                key: key@,
                field: *field,
                value: value@,
            },
            StoreCmd::Del { key } => CmdModel::Del { key: key@ },
            StoreCmd::LPush { key, value } => CmdModel::LPush { key: key@, value: value@ },
        }
    }
}

impl DeepView for StoreCmd {
    type V = CmdModel;

    open spec fn deep_view(&self) -> CmdModel {
        self@
    }
}

/// Setting a hash field: creates the hash if the key is absent, updates the
/// one field if it holds a hash, and is refused if it holds a list.
pub open spec fn hset_model(
    m: StoreModel,
    key: Seq<char>,
    field: FieldName,
    value: Seq<char>,
) -> Result<StoreModel, StoreError> {
    if m.contains_key(key) {
        match m[key] {
            ValueModel::List(_) => Err(StoreError::WrongType),
            ValueModel::Hash { text, checked } => Ok(
                m.insert(
                    key,
                    match field {
                        FieldName::Text => ValueModel::Hash { text: Some(value), checked },
                        FieldName::Checked => ValueModel::Hash { text, checked: Some(value) },
                    },
                ),
            ),
        }
    } else {
        Ok(
            m.insert(
                key,
                match field {
                    FieldName::Text => ValueModel::Hash { text: Some(value), checked: None },
                    FieldName::Checked => ValueModel::Hash { text: None, checked: Some(value) },
                },
            ),
        )
    }
}

/// Deleting a key: a no-op when the key is absent.
pub open spec fn del_model(m: StoreModel, key: Seq<char>) -> StoreModel {
    m.remove(key)
}

/// Prepending to a list: creates a one-element list if the key is absent,
/// and is refused if the key holds a hash.
pub open spec fn lpush_model(m: StoreModel, key: Seq<char>, value: Seq<char>) -> Result<
    StoreModel,
    StoreError,
> {
    if m.contains_key(key) {
        match m[key] {
            ValueModel::Hash { .. } => Err(StoreError::WrongType),
            ValueModel::List(items) => Ok(m.insert(key, ValueModel::List(seq![value] + items))),
        }
    } else {
        Ok(m.insert(key, ValueModel::List(seq![value])))
    }
}

/// What one command does to the store.
pub open spec fn apply_model(m: StoreModel, c: CmdModel) -> Result<StoreModel, StoreError> {
    match c {
        CmdModel::HSet { key, field, value } => hset_model(m, key, field, value),
        CmdModel::Del { key } => Ok(del_model(m, key)),
        CmdModel::LPush { key, value } => lpush_model(m, key, value),
    }
}

/// Running commands in order, stopping at the first failure.  The pair gives
/// the store as it then stands and the outcome: a failed run leaves the
/// commands already applied in place — there is no rollback.
pub open spec fn run_model(m: StoreModel, cs: Seq<CmdModel>) -> (StoreModel, Result<
    (),
    StoreError,
>)
    decreases cs.len(),
{
    if cs.len() == 0 {
        (m, Ok(()))
    } else {
        match apply_model(m, cs[0]) {
            Ok(m2) => run_model(m2, cs.drop_first()),
            Err(e) => (m, Err(e)),
        }
    }
}

/// Reading a hash field: absent keys and absent fields both read as
/// [`StoreError::NotFound`], a list key as [`StoreError::WrongType`].
pub open spec fn hget_model(m: StoreModel, key: Seq<char>, field: FieldName) -> Result<
    Seq<char>,
    StoreError,
> {
    if m.contains_key(key) {
        match m[key] {
            ValueModel::List(_) => Err(StoreError::WrongType),
            ValueModel::Hash { text, checked } => match (match field {
                FieldName::Text => text,
                FieldName::Checked => checked,
            }) {
                Some(v) => Ok(v),
                None => Err(StoreError::NotFound),
            },
        }
    } else {
        Err(StoreError::NotFound)
    }
}

/// Reading a whole list: an absent key reads as the empty list, a hash key
/// as [`StoreError::WrongType`].
pub open spec fn lrange_model(m: StoreModel, key: Seq<char>) -> Result<
    Seq<Seq<char>>,
    StoreError,
> {
    if m.contains_key(key) {
        match m[key] {
            ValueModel::Hash { .. } => Err(StoreError::WrongType),
            ValueModel::List(items) => Ok(items),
        }
    } else {
        Ok(Seq::empty())
    }
}

fn clone_opt(o: &Option<String>) -> (r: Option<String>)
    ensures
        r == *o,
{
    match o {
        Some(s) => Some(s.clone()),
        None => None,
    }
}

impl Store {
    fn find_index(&self, key: &str) -> (r: Option<usize>)
        ensures
            match r {
                Some(i) => i < self.entries@.len() && self.entries@[i as int].key@ == key@,
                None => forall|i: int|
                    0 <= i < self.entries@.len() ==> self.entries@[i].key@ != key@,
            },
    {
        let n = self.entries.len();
        for i in 0..n
            invariant
                n == self.entries@.len(),
                forall|j: int| 0 <= j < i ==> self.entries@[j].key@ != key@,
        {
            if str_eq(self.entries[i].key.as_str(), key) {
                return Some(i);
            }
        }
        None
    }

    /// Set one field of the hash at `key`.
    pub fn hset(&mut self, key: &str, field: FieldName, value: &str) -> (r: Result<
        (),
        StoreError,
    >)
        requires
            old(self).wf(),
        ensures
            final(self).wf(),
            ({
                let res = hset_model(old(self).model(), key@, field, value@);
                match r {
                    Ok(()) => res == Ok::<StoreModel, StoreError>(final(self).model()),
                    Err(e) => res == Err::<StoreModel, StoreError>(e) && final(self).model()
                        == old(self).model(),
                }
            }),
    {
        let ghost s0 = self.entries@;
        match self.find_index(key) {
            Some(i) => {
                proof {
                    lemma_model_index(s0, i as int);
                }
                let new_value = match &self.entries[i].value {
                    Value::List(_) => {
                        return Err(StoreError::WrongType);
                    },
                    Value::Hash { text, checked } => match field {
                        FieldName::Text => Value::Hash {
                            text: Some(value.to_owned()),
                            checked: clone_opt(checked),
                        },
                        FieldName::Checked => Value::Hash {
                            text: clone_opt(text),
                            checked: Some(value.to_owned()),
                        },
                    },
                };
                let new_key = self.entries[i].key.clone();
                let e = Entry { key: new_key, value: new_value };
                let ghost ge = e;
                self.entries[i] = e;
                proof {
                    lemma_model_update(s0, i as int, ge);
                    assert(final(self).model() =~= entries_model(s0).insert(key@, ge.value@));
                    assert(hset_model(entries_model(s0), key@, field, value@) == Ok::<
                        StoreModel,
                        StoreError,
                    >(entries_model(s0).insert(key@, ge.value@)));
                }
                Ok(())
            },
            None => {
                proof {
                    lemma_model_contains(s0, key@);
                }
                let e = Entry {
                    key: key.to_owned(),
                    value: match field {
                        FieldName::Text => Value::Hash { text: Some(value.to_owned()), checked: None },
                        FieldName::Checked => Value::Hash {
                            text: None,
                            checked: Some(value.to_owned()),
                        },
                    },
                };
                let ghost ge = e;
                self.entries.push(e);
                proof {
                    lemma_model_push(s0, ge);
                    assert(final(self).wf()) by {
                        assert(forall|p: int|
                            0 <= p < s0.len() ==> #[trigger] s0[p].key@ != key@);
                    }
                }
                Ok(())
            },
        }
    }

    /// Delete the key outright; deleting an absent key is a no-op.
    pub fn del_key(&mut self, key: &str)
        requires
            old(self).wf(),
        ensures
            final(self).wf(),
            final(self).model() == del_model(old(self).model(), key@),
    {
        let ghost s0 = self.entries@;
        match self.find_index(key) {
            Some(i) => {
                proof {
                    lemma_model_remove(s0, i as int);
                }
                self.entries.remove(i);
                proof {
                    assert(final(self).model() =~= entries_model(s0).remove(key@));
                }
            },
            None => {
                proof {
                    lemma_model_contains(s0, key@);
                    assert(entries_model(s0).remove(key@) =~= entries_model(s0));
                }
            },
        }
    }

    /// Prepend one value to the list at `key`.
    pub fn lpush(&mut self, key: &str, value: &str) -> (r: Result<(), StoreError>)
        requires
            old(self).wf(),
        ensures
            final(self).wf(),
            ({
                let res = lpush_model(old(self).model(), key@, value@);
                match r {
                    Ok(()) => res == Ok::<StoreModel, StoreError>(final(self).model()),
                    Err(e) => res == Err::<StoreModel, StoreError>(e) && final(self).model()
                        == old(self).model(),
                }
            }),
    {
        let ghost s0 = self.entries@;
        match self.find_index(key) {
            Some(i) => {
                proof {
                    lemma_model_index(s0, i as int);
                }
                let new_items = match &self.entries[i].value {
                    Value::Hash { .. } => {
                        return Err(StoreError::WrongType);
                    },
                    Value::List(items) => {
                        let mut nl: Vec<String> = Vec::new();
                        nl.push(value.to_owned());
                        let mut tail = clone_strings(items);
                        nl.append(&mut tail);
                        assert(nl.deep_view() =~= seq![value@] + items.deep_view());
                        nl
                    },
                };
                let new_key = self.entries[i].key.clone();
                let e = Entry { key: new_key, value: Value::List(new_items) };
                let ghost ge = e;
                self.entries[i] = e;
                proof {
                    lemma_model_update(s0, i as int, ge);
                    assert(final(self).model() =~= entries_model(s0).insert(key@, ge.value@));
                }
                Ok(())
            },
            None => {
                proof {
                    lemma_model_contains(s0, key@);
                }
                let mut items: Vec<String> = Vec::new();
                items.push(value.to_owned());
                assert(items.deep_view() =~= seq![value@]);
                let e = Entry { key: key.to_owned(), value: Value::List(items) };
                let ghost ge = e;
                self.entries.push(e);
                proof {
                    lemma_model_push(s0, ge);
                    assert(final(self).wf()) by {
                        assert(forall|p: int|
                            0 <= p < s0.len() ==> #[trigger] s0[p].key@ != key@);
                    }
                }
                Ok(())
            },
        }
    }

    /// Read one field of the hash at `key`.
    pub fn hget(&self, key: &str, field: FieldName) -> (r: Result<String, StoreError>)
        requires
            self.wf(),
        ensures
            ({
                let res = hget_model(self.model(), key@, field);
                match r {
                    Ok(v) => res == Ok::<Seq<char>, StoreError>(v@),
                    Err(e) => res == Err::<Seq<char>, StoreError>(e),
                }
            }),
    {
        let ghost s0 = self.entries@;
        match self.find_index(key) {
            Some(i) => {
                proof {
                    lemma_model_index(s0, i as int);
                }
                match &self.entries[i].value {
                    Value::List(_) => Err(StoreError::WrongType),
                    Value::Hash { text, checked } => {
                        let slot = match field {
                            FieldName::Text => text,
                            FieldName::Checked => checked,
                        };
                        match slot {
                            Some(v) => Ok(v.clone()),
                            None => Err(StoreError::NotFound),
                        }
                    },
                }
            },
            None => {
                proof {
                    lemma_model_contains(s0, key@);
                }
                Err(StoreError::NotFound)
            },
        }
    }

    /// Read the whole list at `key`, in store order.
    pub fn lrange(&self, key: &str) -> (r: Result<Vec<String>, StoreError>)
        requires
            self.wf(),
        ensures
            ({
                let res = lrange_model(self.model(), key@);
                match r {
                    Ok(items) => res == Ok::<Seq<Seq<char>>, StoreError>(items.deep_view()),
                    Err(e) => res == Err::<Seq<Seq<char>>, StoreError>(e),
                }
            }),
    {
        let ghost s0 = self.entries@;
        match self.find_index(key) {
            Some(i) => {
                proof {
                    lemma_model_index(s0, i as int);
                }
                match &self.entries[i].value {
                    Value::Hash { .. } => Err(StoreError::WrongType),
                    Value::List(items) => Ok(clone_strings(items)),
                }
            },
            None => {
                proof {
                    lemma_model_contains(s0, key@);
                }
                let empty: Vec<String> = Vec::new();
                assert(empty.deep_view() =~= Seq::<Seq<char>>::empty());
                Ok(empty)
            },
        }
    }

    /// Perform one write command.
    pub fn apply(&mut self, cmd: &StoreCmd) -> (r: Result<(), StoreError>)
        requires
            old(self).wf(),
        ensures
            final(self).wf(),
            ({
                let res = apply_model(old(self).model(), cmd@);
                match r {
                    Ok(()) => res == Ok::<StoreModel, StoreError>(final(self).model()),
                    Err(e) => res == Err::<StoreModel, StoreError>(e) && final(self).model()
                        == old(self).model(),
                }
            }),
    {
        match cmd {
            StoreCmd::HSet { key, field, value } => self.hset(key.as_str(), *field, value.as_str()),
            StoreCmd::Del { key } => {
                self.del_key(key.as_str());
                Ok(())
            },
            StoreCmd::LPush { key, value } => self.lpush(key.as_str(), value.as_str()),
        }
    }

    /// Perform a sequence of write commands in order, stopping at the first
    /// failure and leaving the earlier commands applied — exactly the torn
    /// state the backend would be left in.
    pub fn apply_all(&mut self, cmds: &Vec<StoreCmd>) -> (r: Result<(), StoreError>)
        requires
            old(self).wf(),
        ensures
            final(self).wf(),
            final(self).model() == run_model(old(self).model(), cmds.deep_view()).0,
            r == run_model(old(self).model(), cmds.deep_view()).1,
    {
        let ghost m0 = old(self).model();
        let ghost all = cmds.deep_view();
        let n = cmds.len();
        proof {
            assert(all.skip(0) =~= all);
        }
        for idx in 0..n
            invariant
                self.wf(),
                n == all.len(),
                all == cmds.deep_view(),
                m0 == old(self).model(),
                run_model(m0, all) == run_model(self.model(), all.skip(idx as int)),
        {
            let ghost before = self.model();
            let res = self.apply(&cmds[idx]);
            proof {
                assert(all.skip(idx as int).len() > 0);
                assert(all.skip(idx as int)[0] == all[idx as int]);
                assert(all.skip(idx as int).drop_first() =~= all.skip(idx as int + 1));
            }
            match res {
                Ok(()) => {
                    proof {
                        assert(apply_model(before, all[idx as int]) == Ok::<
                            StoreModel,
                            StoreError,
                        >(self.model()));
                        assert(run_model(before, all.skip(idx as int)) == run_model(
                            self.model(),
                            all.skip(idx as int + 1),
                        ));
                    }
                },
                Err(e) => {
                    proof {
                        assert(self.model() == before);
                        assert(run_model(before, all.skip(idx as int)) == (
                            before,
                            Err::<(), StoreError>(e),
                        ));
                        assert(run_model(m0, all) == (before, Err::<(), StoreError>(e)));
                    }
                    return Err(e);
                },
            }
        }
        proof {
            assert(all.skip(n as int) =~= Seq::<CmdModel>::empty());
            assert(run_model(self.model(), all.skip(n as int)) == (
                self.model(),
                Ok::<(), StoreError>(()),
            ));
        }
        Ok(())
    }
}

} // verus!

