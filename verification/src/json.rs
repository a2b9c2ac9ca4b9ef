//! JSON documents as plain values, and the calls into `serde_json` that read
//! and write their text.

use crate::text::str_same;
use vstd::prelude::*;

verus! {

/// A JSON document.
///
/// A number is kept as the unsigned 64-bit integer it denotes, or `None` when
/// it denotes anything else (a negative number or a fraction). An object is
/// kept as its members in the order they were given; where a name occurs more
/// than once, the last member of that name counts.
#[derive(Debug)]
pub enum Json {
    Null,
    Bool(bool),
    Number(Option<u64>),
    Text(String),
    Array(Vec<Json>),
    Object(Vec<(String, Json)>),
}

/// The mathematical value of a JSON document.
pub enum JsonView {
    Null,
    Bool(bool),
    Number(Option<u64>),
    Text(Seq<char>),
    Array(Seq<JsonView>),
    Object(Map<Seq<char>, JsonView>),
}

/// The last position in `names` that holds `name`, or -1 if none does.
pub open spec fn last_position(names: Seq<Seq<char>>, name: Seq<char>) -> int
    decreases names.len(),
{
    if names.len() == 0 {
        -1
    } else if names.last() == name {
        names.len() - 1
    } else {
        last_position(names.drop_last(), name)
    }
}

impl JsonView {
    /// Whether every number in the document is an unsigned 64-bit integer.
    pub open spec fn is_plain(self) -> bool
        decreases self,
    {
        match self {
            JsonView::Number(n) => n is Some,
            JsonView::Array(items) => forall|i: int| 0 <= i < items.len() ==> (#[trigger] items[i]).is_plain(),
            JsonView::Object(members) => forall|k: Seq<char>| members.contains_key(k) ==> (#[trigger] members[k]).is_plain(),
            _ => true,
        }
    }

    /// The member called `name`, where the document is an object that has one.
    pub open spec fn member(self, name: Seq<char>) -> Option<JsonView> {
        match self {
            JsonView::Object(members) => if members.contains_key(name) {
                Some(members[name])
            } else {
                None
            },
            _ => None,
        }
    }
}

/// The names of an object's members, in the order they are kept.
pub open spec fn member_names(members: Seq<(String, Json)>) -> Seq<Seq<char>> {
    Seq::new(members.len(), |i: int| members[i].0@)
}

/// The value of a document: numbers, strings and constants as they are, an
/// array as the values of its items, an object as the map from each name to
/// the value of the last member of that name.
pub open spec fn doc_of(doc: Json) -> JsonView
    decreases doc,
{
    match doc {
        Json::Null => JsonView::Null,
        Json::Bool(b) => JsonView::Bool(b),
        Json::Number(n) => JsonView::Number(n),
        Json::Text(s) => JsonView::Text(s@),
        Json::Array(items) => JsonView::Array(
            Seq::new(
                items@.len(),
                |i: int|
                    if 0 <= i < items@.len() {
                        doc_of(items@[i])
                    } else {
                        JsonView::Null
                    },
            ),
        ),
        Json::Object(members) => JsonView::Object(
            Map::new(
                |k: Seq<char>| last_position(member_names(members@), k) >= 0,
                |k: Seq<char>|
                    {
                        let i = last_position(member_names(members@), k);
                        if 0 <= i < members@.len() {
                            doc_of(members@[i].1)
                        } else {
                            JsonView::Null
                        }
                    },
            ),
        ),
    }
}

impl View for Json {
    type V = JsonView;

    open spec fn view(&self) -> JsonView {
        doc_of(*self)
    }
}

/// `serde_json`'s own document type, carried between the calls below.
#[verifier::external_type_specification]
#[verifier::external_body]
pub struct ExValue(serde_json::Value);

/// The document that `serde_json` reads from a text, where the text is JSON.
pub uninterp spec fn json_parse(text: Seq<char>) -> Option<JsonView>;

/// The text that `serde_json` writes for a document.
pub uninterp spec fn json_render(doc: JsonView) -> Seq<char>;

/// What a `serde_json::Value` holds.
pub uninterp spec fn value_doc(value: serde_json::Value) -> JsonView;

/// Calls `serde_json::from_str` for a `Value`. The outcome depends on the text
/// alone: a document where the text is JSON, nothing where it is not.
#[verifier::external_body]
fn value_from_text(text: &str) -> (r: Option<serde_json::Value>)
    ensures
        match r {
            Some(value) => json_parse(text@) == Some(value_doc(value)),
            None => json_parse(text@) is None,
        },
{
    serde_json::from_str::<serde_json::Value>(text).ok()
}

/// Moves what a `serde_json::Value` holds into a `Json`, variant by variant;
/// of a number it keeps `Number::as_u64`.
#[verifier::external_body]
fn json_from_value(value: serde_json::Value) -> (r: Json)
    ensures
        r@ == value_doc(value),
{
    match value {
        serde_json::Value::Null => Json::Null,
        serde_json::Value::Bool(b) => Json::Bool(b),
        serde_json::Value::Number(n) => Json::Number(n.as_u64()),
        serde_json::Value::String(s) => Json::Text(s),
        serde_json::Value::Array(items) => Json::Array(items.into_iter().map(json_from_value).collect()),
        serde_json::Value::Object(members) => Json::Object(
            members.into_iter().map(|(k, v)| (k, json_from_value(v))).collect(),
        ),
    }
}

/// Builds the `serde_json::Value` that holds what a `Json` holds, variant by
/// variant. Members are put into a `serde_json::Map` with `insert`, in their
/// order, so of two with one name the later stays.
#[verifier::external_body]
fn value_from_json(doc: &Json) -> (r: serde_json::Value)
    requires
        doc@.is_plain(),
    ensures
        value_doc(r) == doc@,
{
    match doc {
        Json::Null | Json::Number(None) => serde_json::Value::Null,
        Json::Bool(b) => serde_json::Value::Bool(*b),
        Json::Number(Some(n)) => serde_json::Value::from(*n),
        Json::Text(s) => serde_json::Value::String(s.clone()),
        Json::Array(items) => serde_json::Value::Array(items.iter().map(value_from_json).collect()),
        Json::Object(members) => {
            let mut map = serde_json::Map::new();
            for (name, member) in members { map.insert(name.clone(), value_from_json(member)); }
            serde_json::Value::Object(map)
        },
    }
}

/// Calls `to_string` on a `serde_json::Value`, which writes the compact JSON
/// text of the document. The text depends on the document alone.
#[verifier::external_body]
fn value_to_text(value: &serde_json::Value) -> (r: String)
    requires
        value_doc(*value).is_plain(),
    ensures
        r@ == json_render(value_doc(*value)),
{
    value.to_string()
}

/// In a sequence of names, the last position of a name holds that name, and
/// no later position does.
pub proof fn lemma_last_position(names: Seq<Seq<char>>, name: Seq<char>)
    ensures
        -1 <= last_position(names, name) < names.len(),
        last_position(names, name) >= 0 ==> names[last_position(names, name)] == name,
        forall|j: int| last_position(names, name) < j < names.len() ==> names[j] != name,
    decreases names.len(),
{
    if names.len() > 0 && names.last() != name {
        let front = names.drop_last();
        lemma_last_position(front, name);
        assert forall|j: int| last_position(names, name) < j < names.len() implies names[j] != name by {
            if j < front.len() {
                assert(front[j] == names[j]);
            }
        }
    }
}

/// The member of an object at a position after which its name does not come
/// again is the member of that name.
pub proof fn lemma_member_at(members: Vec<(String, Json)>, i: int)
    requires
        0 <= i < members@.len(),
        forall|j: int| i < j < members@.len() ==> members@[j].0@ != members@[i].0@,
    ensures
        Json::Object(members)@.member(members@[i].0@) == Some(members@[i].1@),
{
    let names = member_names(members@);
    let name = members@[i].0@;
    lemma_last_position(names, name);
    assert(names[i] == name);
    let at = last_position(names, name);
    if at < i {
        assert(names[i] != name);
    }
    if at > i {
        assert(names[at] == members@[at].0@);
    }
}

/// An object has no member of a name that none of its members has.
pub proof fn lemma_member_absent(members: Vec<(String, Json)>, name: Seq<char>)
    requires
        forall|j: int| 0 <= j < members@.len() ==> members@[j].0@ != name,
    ensures
        Json::Object(members)@.member(name) is None,
{
    let names = member_names(members@);
    lemma_last_position(names, name);
    let at = last_position(names, name);
    if at >= 0 {
        assert(names[at] == members@[at].0@);
    }
}

/// The value of an array is the values of its items.
pub proof fn lemma_array_view(items: Vec<Json>)
    ensures
        Json::Array(items)@ == JsonView::Array(items@.map_values(|item: Json| item@)),
{
    assert(Json::Array(items)@->Array_0 =~= items@.map_values(|item: Json| item@));
}

impl Json {
    /// Reads a document from its text; `None` where the text is not JSON.
    pub fn parse(text: &str) -> (r: Option<Json>)
        ensures
            match r {
                Some(doc) => json_parse(text@) == Some(doc@),
                None => json_parse(text@) is None,
            },
    {
        match value_from_text(text) {
            Some(value) => Some(json_from_value(value)),
            None => None,
        }
    }

    /// Writes the compact text of a document.
    pub fn render(&self) -> (r: String)
        requires
            self@.is_plain(),
        ensures
            r@ == json_render(self@),
    {
        let value = value_from_json(self);
        value_to_text(&value)
    }

    /// Whether no later member of the object has the name of the member at
    /// position `at`.
    fn counts(members: &Vec<(String, Json)>, at: usize) -> (r: bool)
        requires
            at < members@.len(),
        ensures
            r == (last_position(member_names(members@), members@[at as int].0@) == at),
    {
        let ghost names = member_names(members@);
        let ghost name = members@[at as int].0@;
        proof {
            lemma_last_position(names, name);
            assert(names[at as int] == name);
        }
        let count = members.len();
        let mut j: usize = at + 1;
        while j < count
            invariant
                at < j <= count,
                count == members.len(),
                names == member_names(members@),
                name == members@[at as int].0@,
                forall|k: int| at < k < j ==> names[k] != name,
            decreases count - j,
        {
            if str_same(members[j].0.as_str(), members[at].0.as_str()) {
                proof {
                    lemma_last_position(names, name);
                    assert(names[j as int] == name);
                }
                return false;
            }
            j += 1;
        }
        proof {
            lemma_last_position(names, name);
            let last = last_position(names, name);
            if last > at {
                assert(names[last] == name);
            }
        }
        true
    }

    /// Whether every number in the document is an unsigned 64-bit integer, so
    /// that the document can be written as text.
    pub fn is_plain(&self) -> (r: bool)
        ensures
            r == self@.is_plain(),
        decreases self,
    {
        match self {
            Json::Number(n) => n.is_some(),
            Json::Array(items) => {
                let mut i: usize = 0;
                while i < items.len()
                    invariant
                        i <= items.len(),
                        *self == Json::Array(*items),
                        forall|k: int| 0 <= k < i ==> (#[trigger] items@[k])@.is_plain(),
                    decreases items.len() - i,
                {
                    if !items[i].is_plain() {
                        assert(self@->Array_0[i as int] == items@[i as int]@);
                        return false;
                    }
                    i += 1;
                }
                assert forall|k: int| 0 <= k < self@->Array_0.len() implies (#[trigger] self@->Array_0[k]).is_plain() by {
                    assert(self@->Array_0[k] == items@[k]@);
                }
                true
            },
            Json::Object(members) => {
                let ghost names = member_names(members@);
                let mut i: usize = 0;
                while i < members.len()
                    invariant
                        i <= members.len(),
                        *self == Json::Object(*members),
                        names == member_names(members@),
                        forall|k: int|
                            0 <= k < i && last_position(names, #[trigger] names[k]) == k ==> members@[k].1@.is_plain(),
                    decreases members.len() - i,
                {
                    assert(names[i as int] == members@[i as int].0@);
                    if Self::counts(members, i) && !members[i].1.is_plain() {
                        assert(self@->Object_0.contains_key(names[i as int]));
                        assert(self@->Object_0[names[i as int]] == members@[i as int].1@);
                        return false;
                    }
                    i += 1;
                }
                assert forall|name: Seq<char>| self@->Object_0.contains_key(name) implies (
                #[trigger] self@->Object_0[name]).is_plain() by {
                    lemma_last_position(names, name);
                    let at = last_position(names, name);
                    assert(names[at] == name);
                }
                true
            },
            _ => true,
        }
    }

    /// The member called `name`, where the document is an object that has one.
    pub fn get(&self, name: &str) -> (r: Option<&Json>)
        ensures
            match r {
                Some(doc) => self@.member(name@) == Some(doc@),
                None => self@.member(name@) is None,
            },
    {
        match self {
            Json::Object(members) => {
                let ghost names = member_names(members@);
                let mut i: usize = members.len();
                assert(names.take(i as int) =~= names);
                while i > 0
                    invariant
                        i <= members.len(),
                        *self == Json::Object(*members),
                        names == member_names(members@),
                        last_position(names, name@) == last_position(names.take(i as int), name@),
                    decreases i,
                {
                    i -= 1;
                    assert(names.take(i + 1).last() == members@[i as int].0@);
                    assert(names.take(i + 1).drop_last() =~= names.take(i as int));
                    if str_same(members[i].0.as_str(), name) {
                        assert(last_position(names, name@) == i);
                        assert(self@->Object_0[name@] == members@[i as int].1@);
                        return Some(&members[i].1);
                    }
                }
                assert(names.take(0).len() == 0);
                assert(last_position(names, name@) == -1);
                assert(self@.member(name@) is None);
                None
            },
            _ => None,
        }
    }

    /// The number, where the document is an unsigned 64-bit integer.
    pub fn as_u64(&self) -> (r: Option<u64>)
        ensures
            r == match self@ {
                JsonView::Number(n) => n,
                _ => None,
            },
    {
        match self {
            Json::Number(n) => *n,
            _ => None,
        }
    }

    /// The characters, where the document is a string.
    pub fn as_text(&self) -> (r: Option<&String>)
        ensures
            match r {
                Some(s) => self@ == JsonView::Text(s@),
                None => !(self@ is Text),
            },
    {
        match self {
            Json::Text(s) => Some(s),
            _ => None,
        }
    }

    /// The items, where the document is an array.
    pub fn as_array(&self) -> (r: Option<&Vec<Json>>)
        ensures
            match r {
                Some(items) => self@ == JsonView::Array(Seq::new(items@.len(), |i: int| items@[i]@)),
                None => !(self@ is Array),
            },
    {
        match self {
            Json::Array(items) => {
                assert(self@ is Array);
                assert(self@->Array_0.len() == items@.len());
                assert(self@->Array_0 =~= Seq::new(items@.len(), |i: int| items@[i]@));
                Some(items)
            },
            _ => None,
        }
    }
}

} // verus!
