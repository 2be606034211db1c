use vstd::prelude::*;

verus! {

/// The one record this service persists: a task with free-form text, a
/// completion flag and an ordered list of child-task identifiers.  A child
/// id is a bare reference: it need not name a task that exists.
pub struct Task {
    pub id: String,
    pub text: String,
    pub checked: bool,
    pub children: Vec<String>,
}

/// Mathematical model of a [`Task`].
pub struct TaskModel {
    pub id: Seq<char>,
    pub text: Seq<char>,
    pub checked: bool,
    pub children: Seq<Seq<char>>,
}

impl View for Task {
    type V = TaskModel;

    open spec fn view(&self) -> TaskModel {
        TaskModel {
            id: self.id@,
            text: self.text@,
            checked: self.checked,
            children: self.children.deep_view(),
        }
    }
}

impl DeepView for Task {
    type V = TaskModel;

    open spec fn deep_view(&self) -> TaskModel {
        self@
    }
}

/// How a completion flag travels through the store, which has no boolean
/// type: as one of the two literal strings.
pub open spec fn encoded_bool(b: bool) -> Seq<char> {
    if b {
        "true"@
    } else {
        "false"@
    }
}

/// A stored string decodes to `true` exactly when it is the string `true`;
/// every other string, including `"false"`, decodes to `false`.
pub open spec fn decoded_bool(s: Seq<char>) -> bool {
    s == "true"@
}

pub fn encode_bool(b: bool) -> (r: String)
    ensures
        r@ == encoded_bool(b),
{
    if b {
        "true".to_owned()
    } else {
        "false".to_owned()
    }
}

pub fn decode_bool(s: &str) -> (r: bool)
    ensures
        r == decoded_bool(s@),
{
    str_eq(s, "true")
}

/// A completion flag survives the trip through the store: decoding what was
/// encoded yields the flag that was written.
pub proof fn lemma_bool_round_trip(b: bool)
    ensures
        decoded_bool(encoded_bool(b)) == b,
{
    reveal_strlit("true");
    reveal_strlit("false");
    assert("true"@.len() == 4);
    assert("false"@.len() == 5);
}

/// String equality by value, stated over the views.
pub fn str_eq(a: &str, b: &str) -> (r: bool)
    ensures
        r == (a@ == b@),
{
    let sa: String = a.to_owned();
    let sb: String = b.to_owned();
    sa == sb
}

/// An equal copy of a list of strings.
pub fn clone_strings(v: &Vec<String>) -> (r: Vec<String>)
    ensures
        r.deep_view() == v.deep_view(),
        r@.len() == v@.len(),
{
    let mut r: Vec<String> = Vec::new();
    let n = v.len();
    for i in 0..n
        invariant
            n == v@.len(),
            r@.len() == i,
            r.deep_view() =~= v.deep_view().take(i as int),
    {
        r.push(v[i].clone());
        assert(r.deep_view() =~= v.deep_view().take(i + 1));
    }
    assert(r.deep_view() =~= v.deep_view());
    r
}

impl Task {
    /// A field-for-field equal duplicate.
    pub fn duplicate(&self) -> (r: Task)
        ensures
            r@ == self@,
    {
        Task {
            id: self.id.clone(),
            text: self.text.clone(),
            checked: self.checked,
            children: clone_strings(&self.children),
        }
    }
}

} // verus!
