//! JSON values as plain data.

use vstd::prelude::*;

verus! {

/// One JSON value. Numbers keep their decimal text; an object keeps its members in the order
/// in which the parser hands them out.
#[derive(Debug, PartialEq)]
pub enum Json {
    Null,
    Bool(bool),
    Number(String),
    Text(String),
    Array(Vec<Json>),
    Object(Vec<(String, Json)>),
}

/// The mathematical value of a [`Json`].
pub enum JsonView {
    Null,
    Bool(bool),
    Number(Seq<char>),
    Text(Seq<char>),
    Array(Seq<JsonView>),
    Object(Seq<(Seq<char>, JsonView)>),
}

impl View for Json {
    type V = JsonView;

    open spec fn view(&self) -> JsonView {
        json_view(*self)
    }
}

pub open spec fn json_view(j: Json) -> JsonView
    decreases j,
{
    match j {
        Json::Null => JsonView::Null,
        Json::Bool(b) => JsonView::Bool(b),
        Json::Number(n) => JsonView::Number(n@),
        Json::Text(t) => JsonView::Text(t@),
        Json::Array(items) => JsonView::Array(
            Seq::new(
                items@.len(),
                |i: int|
                    if 0 <= i < items@.len() {
                        json_view(items@[i])
                    } else {
                        JsonView::Null
                    },
            ),
        ),
        Json::Object(members) => JsonView::Object(
            Seq::new(
                members@.len(),
                |i: int|
                    if 0 <= i < members@.len() {
                        (members@[i].0@, json_view(members@[i].1))
                    } else {
                        (Seq::empty(), JsonView::Null)
                    },
            ),
        ),
    }
}

/// What `serde_json::Value` holds, as a tree of plain values.
pub uninterp spec fn value_tree(value: serde_json::Value) -> JsonView;

/// The value that a JSON document stands for; none where the text is no JSON document.
pub uninterp spec fn json_document(text: Seq<char>) -> Option<JsonView>;

/// `serde_json::Value`, carried from the parser to the library's own tree.
#[verifier::external_type_specification]
#[verifier::external_body]
pub struct ExValue(serde_json::Value);

/// `serde_json::from_str` into a `serde_json::Value`. Whether a text is a JSON document, and
/// which value it stands for, depends on the text alone; both are left to serde_json.
#[verifier::external_body]
fn parse_value(text: &str) -> (r: Option<serde_json::Value>)
    ensures
        (match r { Some(v) => Some(value_tree(v)), None => None }) == json_document(text@),
{
    serde_json::from_str::<serde_json::Value>(text).ok()
}

/// Takes a `serde_json::Value` apart, variant by variant. A number is kept as
/// `serde_json::Number` prints it, and an object's members in the order in which
/// `serde_json::Map` gives them. The result depends on the value alone.
#[verifier::external_body]
fn json_of(value: serde_json::Value) -> (r: Json)
    ensures
        r@ == value_tree(value),
{
    match value {
        serde_json::Value::Null => Json::Null,
        serde_json::Value::Bool(b) => Json::Bool(b),
        serde_json::Value::Number(n) => Json::Number(n.to_string()),
        serde_json::Value::String(s) => Json::Text(s),
        serde_json::Value::Array(items) => Json::Array(items.into_iter().map(json_of).collect()),
        serde_json::Value::Object(map) => {
            Json::Object(map.into_iter().map(|(k, v)| (k, json_of(v))).collect())
        }
    }
}

/// Parses a JSON document.
pub fn parse_json(text: &str) -> (r: Option<Json>)
    ensures
        r is Some <==> json_document(text@) is Some,
        r matches Some(v) ==> v@ == json_document(text@)->0,
{
    match parse_value(text) {
        Some(value) => Some(json_of(value)),
        None => None,
    }
}

/// A copy of a JSON value.
pub fn json_clone(j: &Json) -> (r: Json)
    ensures
        r@ == j@,
    decreases *j,
{
    match j {
        Json::Null => Json::Null,
        Json::Bool(b) => Json::Bool(*b),
        Json::Number(n) => Json::Number(n.clone()),
        Json::Text(t) => Json::Text(t.clone()),
        Json::Array(items) => {
            let mut out: Vec<Json> = Vec::new();
            let mut i: usize = 0;
            while i < items.len()
                invariant
                    i <= items@.len(),
                    *j == Json::Array(*items),
                    out@.len() == i,
                    forall|k: int| 0 <= k < i ==> (#[trigger] out@[k])@ == items@[k]@,
                decreases items@.len() - i,
            {
                assert(decreases_to!(*j => j->Array_0@[i as int]));
                out.push(json_clone(&items[i]));
                i = i + 1;
            }
            let r = Json::Array(out);
            assert(r@->Array_0 =~= j@->Array_0);
            r
        },
        Json::Object(members) => {
            let mut out: Vec<(String, Json)> = Vec::new();
            let mut i: usize = 0;
            while i < members.len()
                invariant
                    i <= members@.len(),
                    *j == Json::Object(*members),
                    out@.len() == i,
                    forall|k: int|
                        0 <= k < i ==> (#[trigger] out@[k]).0@ == members@[k].0@ && out@[k].1@
                            == members@[k].1@,
                decreases members@.len() - i,
            {
                assert(decreases_to!(*j => j->Object_0@[i as int].1));
                let copy = json_clone(&members[i].1);
                out.push((members[i].0.clone(), copy));
                i = i + 1;
            }
            let r = Json::Object(out);
            assert(r@->Object_0 =~= j@->Object_0);
            r
        },
    }
}


/// The value of the first member named `key`.
pub open spec fn find_member(members: Seq<(Seq<char>, JsonView)>, key: Seq<char>) -> Option<JsonView>
    decreases members.len(),
{
    if members.len() == 0 {
        None
    } else if members[0].0 == key {
        Some(members[0].1)
    } else {
        find_member(members.skip(1), key)
    }
}

impl JsonView {
    /// The member named `key`, where the value is an object that has one.
    pub open spec fn member(self, key: Seq<char>) -> Option<JsonView> {
        match self {
            JsonView::Object(members) => find_member(members, key),
            _ => None,
        }
    }

    /// The text, where the value is a string.
    pub open spec fn text(self) -> Option<Seq<char>> {
        match self {
            JsonView::Text(t) => Some(t),
            _ => None,
        }
    }

    /// The truth value, where the value is one.
    pub open spec fn boolean(self) -> Option<bool> {
        match self {
            JsonView::Bool(b) => Some(b),
            _ => None,
        }
    }

    /// The text of the member named `key`, where there is one and it is a string.
    pub open spec fn member_text(self, key: Seq<char>) -> Option<Seq<char>> {
        match self.member(key) {
            Some(v) => v.text(),
            None => None,
        }
    }
}

impl Json {
    /// The text, where the value is a string.
    pub fn as_str(&self) -> (r: Option<&String>)
        ensures
            r is Some <==> self@.text() is Some,
            r matches Some(t) ==> t@ == self@.text()->0,
    {
        match self {
            Json::Text(t) => Some(t),
            _ => None,
        }
    }

    /// The truth value, where the value is one.
    pub fn as_bool(&self) -> (r: Option<bool>)
        ensures
            r == self@.boolean(),
    {
        match self {
            Json::Bool(b) => Some(*b),
            _ => None,
        }
    }

    /// Whether the value is `null`.
    pub fn is_null(&self) -> (r: bool)
        ensures
            r == (self@ is Null),
    {
        match self {
            Json::Null => true,
            _ => false,
        }
    }

    /// The member named `key`, where the value is an object that has one.
    pub fn get(&self, key: &str) -> (r: Option<&Json>)
        ensures
            r is Some <==> self@.member(key@) is Some,
            r matches Some(v) ==> v@ == self@.member(key@)->0,
    {
        match self {
            Json::Object(members) => {
                let ghost all = self@->Object_0;
                let mut i: usize = 0;
                assert(all.skip(0) =~= all);
                while i < members.len()
                    invariant
                        i <= members@.len(),
                        self@ is Object,
                        all == self@->Object_0,
                        all.len() == members@.len(),
                        forall|k: int|
                            0 <= k < members@.len() ==> #[trigger] all[k] == (
                                members@[k].0@,
                                members@[k].1@,
                            ),
                        find_member(all, key@) == find_member(all.skip(i as int), key@),
                    decreases members@.len() - i,
                {
                    assert(all.skip(i as int)[0] == all[i as int]);
                    if crate::text::str_eq(members[i].0.as_str(), key) {
                        return Some(&members[i].1);
                    }
                    assert(all.skip(i as int).skip(1) =~= all.skip(i + 1));
                    i = i + 1;
                }
                None
            },
            _ => None,
        }
    }

    /// A copy of the text of the member named `key`, where there is one and it is a string.
    pub fn get_text(&self, key: &str) -> (r: Option<String>)
        ensures
            r is Some <==> self@.member_text(key@) is Some,
            r matches Some(t) ==> t@ == self@.member_text(key@)->0,
    {
        match self.get(key) {
            Some(v) => match v.as_str() {
                Some(t) => Some(t.clone()),
                None => None,
            },
            None => None,
        }
    }
}

/// A member of an object is the first of its name; a value that is no object has none.
pub proof fn law_members_are_found_by_name(
    front: Seq<(Seq<char>, JsonView)>,
    key: Seq<char>,
    value: JsonView,
    rest: Seq<(Seq<char>, JsonView)>,
)
    requires
        forall|i: int| 0 <= i < front.len() ==> (#[trigger] front[i]).0 != key,
    ensures
        JsonView::Object(front).member(key) is None,
        JsonView::Object(front + seq![(key, value)] + rest).member(key) == Some(value),
        !(value is Object) ==> value.member(key) is None,
    decreases front.len(),
{
    let all = front + seq![(key, value)] + rest;
    if front.len() == 0 {
        assert(all[0] == (key, value));
    } else {
        let tail = front.skip(1);
        assert forall|i: int| 0 <= i < tail.len() implies (#[trigger] tail[i]).0 != key by {
            assert(tail[i] == front[i + 1]);
        }
        law_members_are_found_by_name(tail, key, value, rest);
        assert(all[0] == front[0]);
        assert(all.skip(1) =~= tail + seq![(key, value)] + rest);
    }
}

/// Only a string has a text, and only a truth value is one.
pub proof fn law_values_are_what_they_are(
    value: JsonView,
    text: Seq<char>,
    flag: bool,
    key: Seq<char>,
)
    ensures
        value.text() == Some(text) <==> value == JsonView::Text(text),
        value.boolean() == Some(flag) <==> value == JsonView::Bool(flag),
        value.member_text(key) == Some(text) <==> value.member(key) == Some(JsonView::Text(text)),
{
}

}
