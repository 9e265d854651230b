//! JSON values, and the reader for JSON text.
use crate::text::{same_text, Text};
use vstd::prelude::*;
use vstd::string::*;

verus! {

/// A JSON value. A number is kept as its text.
pub enum Json {
    Null,
    Bool(bool),
    Number(String),
    Text(String),
    Array(Vec<Json>),
    Object(Vec<(String, Json)>),
}

/// What a [`Json`] holds.
pub enum JsonView {
    Null,
    Bool(bool),
    Number(Text),
    Text(Text),
    Array(Seq<JsonView>),
    Object(Seq<(Text, JsonView)>),
}

/// What `j` holds.
pub open spec fn json_view(j: Json) -> JsonView
    decreases j,
{
    match j {
        Json::Null => JsonView::Null,
        Json::Bool(b) => JsonView::Bool(b),
        Json::Number(s) => JsonView::Number(s@),
        Json::Text(s) => JsonView::Text(s@),
        Json::Array(v) => JsonView::Array(
            Seq::new(
                v@.len(),
                |i: int|
                    if 0 <= i < v@.len() {
                        json_view(v@[i])
                    } else {
                        JsonView::Null
                    },
            ),
        ),
        Json::Object(v) => JsonView::Object(
            Seq::new(
                v@.len(),
                |i: int|
                    if 0 <= i < v@.len() {
                        (v@[i].0@, json_view(v@[i].1))
                    } else {
                        (Seq::empty(), JsonView::Null)
                    },
            ),
        ),
    }
}

/// What an optional value holds.
pub open spec fn opt_json_view(j: Option<Json>) -> Option<JsonView> {
    match j {
        Some(j) => Some(json_view(j)),
        None => None,
    }
}

/// The value of the first member named `key` among those from `at` on.
pub open spec fn member_from(ms: Seq<(Text, JsonView)>, key: Text, at: int) -> Option<JsonView>
    decreases ms.len() - at,
{
    if at < 0 || at >= ms.len() {
        None
    } else if ms[at].0 == key {
        Some(ms[at].1)
    } else {
        member_from(ms, key, at + 1)
    }
}

/// The value of the member `key`, where `j` is an object that has it.
pub open spec fn member(j: JsonView, key: Text) -> Option<JsonView> {
    match j {
        JsonView::Object(ms) => member_from(ms, key, 0),
        _ => None,
    }
}

/// The text of `j`, where it is one.
pub open spec fn text_in(j: Option<JsonView>) -> Option<Text> {
    match j {
        Some(JsonView::Text(s)) => Some(s),
        _ => None,
    }
}

/// The elements of `j`, where it is an array.
pub open spec fn items_in(j: Option<JsonView>) -> Option<Seq<JsonView>> {
    match j {
        Some(JsonView::Array(s)) => Some(s),
        _ => None,
    }
}

impl Json {
    /// The value of the member `key`, where this is an object that has it.
    pub fn get(&self, key: &str) -> (r: Option<&Json>)
        ensures
            r is Some <==> member(json_view(*self), key@) is Some,
            r matches Some(j) ==> member(json_view(*self), key@) == Some(json_view(*j)),
    {
        match self {
            Json::Object(v) => {
                let ghost ms = json_view(*self)->Object_0;
                let mut i: usize = 0;
                while i < v.len()
                    invariant
                        i <= v@.len(),
                        ms.len() == v@.len(),
                        json_view(*self) == JsonView::Object(ms),
                        *self == Json::Object(*v),
                        member(json_view(*self), key@) == member_from(ms, key@, i as int),
                    decreases v@.len() - i,
                {
                    assert(ms[i as int] == (v@[i as int].0@, json_view(v@[i as int].1)));
                    if same_text(v[i].0.as_str(), key) {
                        return Some(&v[i].1);
                    }
                    i += 1;
                }
                None
            },
            _ => None,
        }
    }

    /// The text, where this is one.
    pub fn as_str(&self) -> (r: Option<&String>)
        ensures
            r is Some <==> text_in(Some(json_view(*self))) is Some,
            r matches Some(s) ==> text_in(Some(json_view(*self))) == Some(s@),
    {
        match self {
            Json::Text(s) => Some(s),
            _ => None,
        }
    }

    /// The elements, where this is an array.
    pub fn as_array(&self) -> (r: Option<&Vec<Json>>)
        ensures
            r is Some <==> items_in(Some(json_view(*self))) is Some,
            r matches Some(v) ==> *self == Json::Array(*v) && items_in(Some(json_view(*self))) == Some(
                json_items(v@),
            ),
    {
        match self {
            Json::Array(v) => {
                assert(json_items(v@) =~= json_view(*self)->Array_0);
                Some(v)
            },
            _ => None,
        }
    }

    /// A value that holds the same.
    pub fn copy(&self) -> (r: Json)
        ensures
            json_view(r) == json_view(*self),
        decreases *self,
    {
        match self {
            Json::Null => Json::Null,
            Json::Bool(b) => Json::Bool(*b),
            Json::Number(s) => Json::Number(s.clone()),
            Json::Text(s) => Json::Text(s.clone()),
            Json::Array(v) => {
                let mut out: Vec<Json> = Vec::new();
                let mut i: usize = 0;
                while i < v.len()
                    invariant
                        i <= v@.len(),
                        *self == Json::Array(*v),
                        out@.len() == i,
                        forall|k: int| 0 <= k < i ==> json_view(#[trigger] out@[k]) == json_view(v@[k]),
                    decreases v@.len() - i,
                {
                    assert(decreases_to!(*self => self->Array_0));
                    assert(decreases_to!(*v => v@[i as int]));
                    let j = v[i].copy();
                    out.push(j);
                    i += 1;
                }
                let r = Json::Array(out);
                assert(json_view(r)->Array_0 =~= json_view(*self)->Array_0);
                r
            },
            Json::Object(v) => {
                let mut out: Vec<(String, Json)> = Vec::new();
                let mut i: usize = 0;
                while i < v.len()
                    invariant
                        i <= v@.len(),
                        *self == Json::Object(*v),
                        out@.len() == i,
                        forall|k: int|
                            0 <= k < i ==> (#[trigger] out@[k]).0@ == v@[k].0@ && json_view(out@[k].1)
                                == json_view(v@[k].1),
                    decreases v@.len() - i,
                {
                    assert(decreases_to!(*self => self->Object_0));
                    assert(decreases_to!(*v => v@[i as int]));
                    let key = v[i].0.clone();
                    let j = v[i].1.copy();
                    out.push((key, j));
                    i += 1;
                }
                let r = Json::Object(out);
                assert(json_view(r)->Object_0 =~= json_view(*self)->Object_0);
                r
            },
        }
    }
}

/// What each of `v` holds.
pub open spec fn json_items(v: Seq<Json>) -> Seq<JsonView> {
    Seq::new(v.len(), |i: int| json_view(v[i]))
}

/// What `serde_json` reads out of a text: the value, or the message of its error.
pub uninterp spec fn json_text_value(raw: Text) -> Result<JsonView, Text>;

/// A value as `serde_json` holds it.
#[verifier::external_type_specification]
#[verifier::external_body]
pub struct ExValue(serde_json::Value);

/// `serde_json::Value` as a [`Json`], variant by variant. Nothing is claimed of it here: what a
/// text reads as is named at [`parse_json`].
#[verifier::external_body]
fn json_of_value(value: serde_json::Value) -> (r: Json) {
    match value {
        serde_json::Value::Null => Json::Null,
        serde_json::Value::Bool(b) => Json::Bool(b),
        serde_json::Value::Number(n) => Json::Number(n.to_string()),
        serde_json::Value::String(s) => Json::Text(s),
        serde_json::Value::Array(v) => Json::Array(v.into_iter().map(json_of_value).collect()),
        serde_json::Value::Object(m) => Json::Object(
            m.into_iter().map(|(key, v)| (key, json_of_value(v))).collect(),
        ),
    }
}

/// `serde_json::from_str` into a `serde_json::Value`: the value or the error's message depends on
/// the text alone, and is named [`json_text_value`].
#[verifier::external_body]
pub(crate) fn parse_json(raw: &str) -> (r: Result<Json, String>)
    ensures
        match r {
            Ok(j) => json_text_value(raw@) == Ok::<JsonView, Text>(json_view(j)),
            Err(e) => json_text_value(raw@) == Err::<JsonView, Text>(e@),
        },
{
    match serde_json::from_str::<serde_json::Value>(raw) {
        Ok(value) => Ok(json_of_value(value)),
        Err(error) => Err(error.to_string()),
    }
}

}
