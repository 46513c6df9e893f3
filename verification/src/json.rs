//! JSON documents, as far as window lists are read from them.
use vstd::prelude::*;
use crate::text;

verus! {

/// A JSON value. Of a number it holds what matters here: its value where it
/// is a whole number from 0 up that fits 64 bits.
#[derive(Debug)]
pub enum Json {
    Null,
    Bool(bool),
    Number(Option<u64>),
    Text(String),
    Array(Vec<Json>),
    /// Names and values; no name occurs twice.
    Object(Vec<(String, Json)>),
}

/// A JSON value as a mathematical tree.
pub enum JsonTree {
    Null,
    Bool(bool),
    Number(Option<u64>),
    Text(Seq<char>),
    Array(Seq<JsonTree>),
    Object(Seq<(Seq<char>, JsonTree)>),
}

impl Json {
    pub open spec fn tree(self) -> JsonTree
        decreases self,
    {
        match self {
            Json::Null => JsonTree::Null,
            Json::Bool(b) => JsonTree::Bool(b),
            Json::Number(n) => JsonTree::Number(n),
            Json::Text(s) => JsonTree::Text(s@),
            Json::Array(v) => JsonTree::Array(
                Seq::new(
                    v@.len(),
                    |i: int|
                        if 0 <= i < v@.len() {
                            v@[i].tree()
                        } else {
                            JsonTree::Null
                        },
                ),
            ),
            Json::Object(m) => JsonTree::Object(
                Seq::new(
                    m@.len(),
                    |i: int|
                        if 0 <= i < m@.len() {
                            (m@[i].0@, m@[i].1.tree())
                        } else {
                            (Seq::empty(), JsonTree::Null)
                        },
                ),
            ),
        }
    }
}

/// The tree of a value that may be missing.
pub open spec fn tree_of(j: Option<&Json>) -> Option<JsonTree> {
    match j {
        Some(v) => Some(v.tree()),
        None => None,
    }
}

/// The first value with this name.
pub open spec fn named(m: Seq<(Seq<char>, JsonTree)>, name: Seq<char>) -> Option<JsonTree>
    decreases m.len(),
{
    if m.len() == 0 {
        None
    } else {
        match named(m.drop_last(), name) {
            Some(t) => Some(t),
            None => if m.last().0 == name {
                Some(m.last().1)
            } else {
                None
            },
        }
    }
}

/// What is found by its name is there.
pub proof fn lemma_named_is_there(m: Seq<(Seq<char>, JsonTree)>, name: Seq<char>) -> (i: int)
    requires
        named(m, name) is Some,
    ensures
        0 <= i < m.len(),
        m[i].1 == named(m, name).unwrap(),
    decreases m.len(),
{
    if named(m.drop_last(), name) is Some {
        lemma_named_is_there(m.drop_last(), name)
    } else {
        m.len() - 1
    }
}

proof fn lemma_named_stays(m: Seq<(Seq<char>, JsonTree)>, name: Seq<char>, k: int)
    requires
        0 <= k <= m.len(),
        named(m.take(k), name) is Some,
    ensures
        named(m, name) == named(m.take(k), name),
    decreases m.len() - k,
{
    if k == m.len() {
        assert(m.take(k) == m);
    } else {
        assert(m.take(k + 1).drop_last() == m.take(k));
        lemma_named_stays(m, name, k + 1);
    }
}

/// The member of an object with this name; None where there is none, or the
/// value is no object.
pub open spec fn member(t: JsonTree, name: Seq<char>) -> Option<JsonTree> {
    match t {
        JsonTree::Object(m) => named(m, name),
        _ => None,
    }
}

/// The text that a member holds, where it holds text.
pub open spec fn text_member(t: JsonTree, name: Seq<char>) -> Option<Seq<char>> {
    match member(t, name) {
        Some(JsonTree::Text(s)) => Some(s),
        _ => None,
    }
}

/// The whole number that a member holds, where it holds one.
pub open spec fn number_member(t: JsonTree, name: Seq<char>) -> Option<u64> {
    match member(t, name) {
        Some(JsonTree::Number(n)) => n,
        _ => None,
    }
}

/// The elements of a member that is an array; none for any other.
pub open spec fn array_member(t: JsonTree, name: Seq<char>) -> Seq<JsonTree> {
    match member(t, name) {
        Some(JsonTree::Array(a)) => a,
        _ => Seq::empty(),
    }
}

impl Json {
    pub fn get(&self, name: &str) -> (r: Option<&Json>)
        ensures
            tree_of(r) == member(self.tree(), name@),
            r matches Some(v) ==> decreases_to!(*self => *v),
    {
        match self {
            Json::Object(m) => {
                let ghost items = self.tree()->Object_0;
                let mut i: usize = 0;
                assert(items.len() == m@.len());
                while i < m.len()
                    invariant
                        i <= m.len(),
                        *self == Json::Object(*m),
                        self.tree() == JsonTree::Object(items),
                        items.len() == m@.len(),
                        named(items.take(i as int), name@) is None,
                    decreases m.len() - i,
                {
                    assert(items[i as int] == (m@[i as int].0@, m@[i as int].1.tree()));
                    assert(items.take(i + 1).drop_last() == items.take(i as int));
                    assert(items.take(i + 1).last() == items[i as int]);
                    if text::same(m[i].0.as_str(), name) {
                        proof {
                            lemma_named_stays(items, name@, i + 1);
                        }
                        return Some(&m[i].1);
                    }
                    i = i + 1;
                }
                assert(items.take(i as int) == items);
                None
            },
            _ => None,
        }
    }

    pub fn as_str(&self) -> (r: Option<&String>)
        ensures
            r matches Some(s) ==> self.tree() == JsonTree::Text(s@),
            r is None ==> !(self.tree() is Text),
    {
        match self {
            Json::Text(s) => Some(s),
            _ => None,
        }
    }

    pub fn as_u64(&self) -> (r: Option<u64>)
        ensures
            r == (match self.tree() {
                JsonTree::Number(n) => n,
                _ => None,
            }),
    {
        match self {
            Json::Number(n) => *n,
            _ => None,
        }
    }

    pub fn as_bool(&self) -> (r: Option<bool>)
        ensures
            r == (match self.tree() {
                JsonTree::Bool(b) => Some(b),
                _ => None,
            }),
    {
        match self {
            Json::Bool(b) => Some(*b),
            _ => None,
        }
    }

    pub fn is_null(&self) -> (r: bool)
        ensures
            r == (self.tree() is Null),
    {
        matches!(self, Json::Null)
    }

    /// The text of the member `name`, where there is one and it is text.
    pub fn text_of(&self, name: &str) -> (r: Option<&String>)
        ensures
            r matches Some(s) ==> text_member(self.tree(), name@) == Some(s@),
            r is None ==> text_member(self.tree(), name@) is None,
    {
        match self.get(name) {
            Some(v) => v.as_str(),
            None => None,
        }
    }

    /// The whole number of the member `name`.
    pub fn number_of(&self, name: &str) -> (r: Option<u64>)
        ensures
            r == number_member(self.tree(), name@),
    {
        match self.get(name) {
            Some(v) => v.as_u64(),
            None => None,
        }
    }
}

/// A JSON value of the outside parser, `serde_json::Value`.
#[verifier::external_type_specification]
#[verifier::external_body]
pub struct ExValue(serde_json::Value);

/// What a JSON value holds: null, a truth value, a number as far as
/// `serde_json::Number::as_u64` gives it, text, elements or members.
pub uninterp spec fn value_tree(v: serde_json::Value) -> JsonTree;

/// What a JSON document says, or None where the bytes are no JSON document.
pub uninterp spec fn parsed_json(bytes: Seq<u8>) -> Option<JsonTree>;

/// `serde_json::from_slice` into a `serde_json::Value`: what it returns
/// depends on the bytes alone and is what `parsed_json` names; it is None
/// where the call returns an error.
#[verifier::external_body]
fn value_from_slice(bytes: &[u8]) -> (r: Option<serde_json::Value>)
    ensures
        (match r {
            Some(v) => Some(value_tree(v)),
            None => None,
        }) == parsed_json(bytes@),
{
    serde_json::from_slice::<serde_json::Value>(bytes).ok()
}

/// The same value in the library's own type: each variant of
/// `serde_json::Value` goes to the variant of the same name, elements and
/// members likewise and in their order, and a number to what
/// `serde_json::Number::as_u64` gives of it.
#[verifier::external_body]
fn json_of(v: serde_json::Value) -> (r: Json)
    ensures
        r.tree() == value_tree(v),
{
    match v {
        serde_json::Value::Null => Json::Null,
        serde_json::Value::Bool(b) => Json::Bool(b),
        serde_json::Value::Number(n) => Json::Number(n.as_u64()),
        serde_json::Value::String(s) => Json::Text(s),
        serde_json::Value::Array(a) => Json::Array(a.into_iter().map(json_of).collect()),
        serde_json::Value::Object(m) => {
            Json::Object(m.into_iter().map(|(k, x)| (k, json_of(x))).collect())
        },
    }
}

/// The value that a JSON document holds.
pub(crate) fn parse_json(bytes: &[u8]) -> (r: Option<Json>)
    ensures
        (match r {
            Some(j) => Some(j.tree()),
            None => None,
        }) == parsed_json(bytes@),
{
    match value_from_slice(bytes) {
        Some(v) => Some(json_of(v)),
        None => None,
    }
}

/// A member is the first one of its name; an object without the name has none.
pub proof fn law_member_is_the_first_of_its_name(
    m: Seq<(Seq<char>, JsonTree)>,
    name: Seq<char>,
    i: int,
)
    requires
        forall|k: int| 0 <= k < m.len() && k < i ==> (#[trigger] m[k]).0 != name,
        i < m.len() ==> 0 <= i && m[i].0 == name,
    ensures
        member(JsonTree::Object(m), name) == (if i < m.len() {
            Some(m[i].1)
        } else {
            None
        }),
    decreases m.len(),
{
    if m.len() > 0 {
        let front = m.drop_last();
        assert forall|k: int| 0 <= k < front.len() && k < i implies (#[trigger] front[k]).0
            != name by {
            assert(front[k] == m[k]);
        }
        law_member_is_the_first_of_its_name(front, name, i);
        assert(member(JsonTree::Object(front), name) == named(front, name));
    }
}

/// A member is read as a text, a number or a list only where it is one, and
/// only an object has members.
pub proof fn law_member_is_read_as_what_it_is(t: JsonTree, name: Seq<char>, s: Seq<char>, n: u64, a: Seq<JsonTree>)
    ensures
        member(t, name) == Some(JsonTree::Text(s)) ==> text_member(t, name) == Some(s)
            && number_member(t, name) is None && array_member(t, name).len() == 0,
        member(t, name) == Some(JsonTree::Number(Some(n))) ==> number_member(t, name) == Some(n)
            && text_member(t, name) is None && array_member(t, name).len() == 0,
        member(t, name) == Some(JsonTree::Number(None)) ==> number_member(t, name) is None,
        member(t, name) == Some(JsonTree::Array(a)) ==> array_member(t, name) == a && text_member(
            t,
            name,
        ) is None && number_member(t, name) is None,
        member(t, name) is None ==> text_member(t, name) is None && number_member(t, name) is None
            && array_member(t, name).len() == 0,
        !(t is Object) ==> member(t, name) is None,
{
}

/// A document's tree has the document's shape: the same values, the elements
/// and members in their order.
pub proof fn law_tree_has_the_shape(j: Json, i: int)
    ensures
        j matches Json::Bool(b) ==> j.tree() == JsonTree::Bool(b),
        j matches Json::Number(n) ==> j.tree() == JsonTree::Number(n),
        j matches Json::Text(s) ==> j.tree() == JsonTree::Text(s@),
        j is Null <==> j.tree() is Null,
        j matches Json::Array(v) ==> (j.tree() matches JsonTree::Array(a) && a.len() == v@.len() && (
        0 <= i < v@.len() ==> a[i] == v@[i].tree())),
        j matches Json::Object(v) ==> (j.tree() matches JsonTree::Object(a) && a.len() == v@.len()
            && (0 <= i < v@.len() ==> a[i].0 == v@[i].0@ && a[i].1 == v@[i].1.tree())),
{
}

} // verus!
