//! JSON values as plain data, and their mathematical model.

use crate::text::text_is;
use vstd::prelude::*;

verus! {

/// A JSON number: a non-negative integer, a negative integer, or any other number by the bit
/// pattern of its IEEE 754 double.
#[derive(Debug, Clone, Copy, PartialEq, Eq, Structural)]
pub enum JsonNumber {
    Unsigned(u64),
    Negative(i64),
    Double(u64),
}

/// A JSON value. An object keeps its members in order; the first member with a key is the one
/// that a lookup finds.
#[derive(Debug, PartialEq, Eq)]
pub enum JsonValue {
    Null,
    Bool(bool),
    Number(JsonNumber),
    String(String),
    Array(Vec<JsonValue>),
    Object(Vec<(String, JsonValue)>),
}

/// The model of a [`JsonValue`].
pub enum Json {
    Null,
    Bool(bool),
    Number(JsonNumber),
    String(Seq<char>),
    Array(Seq<Json>),
    Object(Seq<(Seq<char>, Json)>),
}

/// The model of one value.
pub open spec fn json_model(value: JsonValue) -> Json
    decreases value,
{
    match value {
        JsonValue::Null => Json::Null,
        JsonValue::Bool(flag) => Json::Bool(flag),
        JsonValue::Number(number) => Json::Number(number),
        JsonValue::String(text) => Json::String(text@),
        JsonValue::Array(items) => Json::Array(json_models(items@)),
        JsonValue::Object(members) => Json::Object(member_models(members@)),
    }
}

/// The models of the items of an array, in order.
pub open spec fn json_models(items: Seq<JsonValue>) -> Seq<Json>
    decreases items,
{
    if items.len() == 0 {
        Seq::empty()
    } else {
        json_models(items.drop_last()).push(json_model(items.last()))
    }
}

/// The models of the members of an object, in order.
pub open spec fn member_models(members: Seq<(String, JsonValue)>) -> Seq<(Seq<char>, Json)>
    decreases members,
{
    if members.len() == 0 {
        Seq::empty()
    } else {
        member_models(members.drop_last()).push(
            (members.last().0@, json_model(members.last().1)),
        )
    }
}

impl DeepView for JsonValue {
    type V = Json;

    open spec fn deep_view(&self) -> Json {
        json_model(*self)
    }
}

impl Clone for JsonValue {
    fn clone(&self) -> (copy: Self)
        ensures
            copy.deep_view() == self.deep_view(),
    {
        self.duplicate()
    }
}

impl Json {
    /// The value of the first member with this key, where the value is an object that has one.
    pub open spec fn get(self, key: Seq<char>) -> Option<Json> {
        match self {
            Json::Object(members) => first_member(members, key),
            _ => None,
        }
    }
}

/// The value of the first of the members with this key.
pub open spec fn first_member(members: Seq<(Seq<char>, Json)>, key: Seq<char>) -> Option<Json>
    decreases members.len(),
{
    if members.len() == 0 {
        None
    } else if members[0].0 == key {
        Some(members[0].1)
    } else {
        first_member(members.drop_first(), key)
    }
}

/// The member with this key and value.
pub open spec fn member(key: Seq<char>, value: Json) -> Seq<(Seq<char>, Json)> {
    seq![(key, value)]
}

/// The member with this key, where there is a value for it.
pub open spec fn optional_member(key: Seq<char>, value: Option<Json>) -> Seq<(Seq<char>, Json)> {
    match value {
        Some(value) => member(key, value),
        None => Seq::empty(),
    }
}

/// The string value of an optional text.
pub open spec fn optional_text(text: Option<Seq<char>>) -> Option<Json> {
    match text {
        Some(chars) => Some(Json::String(chars)),
        None => None,
    }
}

/// The model of an array has one model per item.
pub proof fn lemma_json_models(items: Seq<JsonValue>)
    ensures
        json_models(items).len() == items.len(),
        forall|i: int|
            0 <= i < items.len() ==> #[trigger] json_models(items)[i] == json_model(items[i]),
    decreases items.len(),
{
    if items.len() > 0 {
        lemma_json_models(items.drop_last());
    }
}

/// The model of an object has one key and one model per member.
pub proof fn lemma_member_models(members: Seq<(String, JsonValue)>)
    ensures
        member_models(members).len() == members.len(),
        forall|i: int|
            0 <= i < members.len() ==> #[trigger] member_models(members)[i] == (
                members[i].0@,
                json_model(members[i].1),
            ),
    decreases members.len(),
{
    if members.len() > 0 {
        lemma_member_models(members.drop_last());
    }
}

/// Adds a member to the end of an object's members.
pub fn push_member(members: &mut Vec<(String, JsonValue)>, key: &str, value: JsonValue)
    ensures
        member_models(final(members)@) == member_models(old(members)@) + member(
            key@,
            value.deep_view(),
        ),
{
    let ghost before = members@;
    members.push((key.to_string(), value));
    assert(members@.drop_last() == before);
}

/// Adds a member to the end of an object's members, where there is a value for it.
pub fn push_optional_member(
    members: &mut Vec<(String, JsonValue)>,
    key: &str,
    value: Option<JsonValue>,
)
    ensures
        member_models(final(members)@) == member_models(old(members)@) + optional_member(
            key@,
            value.deep_view(),
        ),
{
    match value {
        Some(value) => {
            push_member(members, key, value);
        },
        None => {},
    }
}

/// The string value of an optional text.
pub fn optional_string(text: &Option<String>) -> (value: Option<JsonValue>)
    ensures
        value.deep_view() == optional_text(text.deep_view()),
{
    match text {
        Some(text) => Some(JsonValue::String(text.clone())),
        None => None,
    }
}

impl JsonValue {
    /// Looks a member up by its key. A value that is not an object has no members.
    pub fn get(&self, key: &str) -> (found: Option<&JsonValue>)
        ensures
            found.deep_view() == self.deep_view().get(key@),
    {
        match self {
            JsonValue::Object(members) => {
                let ghost models = member_models(members@);
                proof {
                    lemma_member_models(members@);
                    assert(models.skip(0) == models);
                }
                let mut next: usize = 0;
                while next < members.len()
                    invariant
                        next <= members.len(),
                        *self == JsonValue::Object(*members),
                        models == member_models(members@),
                        models.len() == members.len(),
                        forall|i: int|
                            0 <= i < members.len() ==> #[trigger] models[i] == (
                                members[i].0@,
                                json_model(members[i].1),
                            ),
                        first_member(models, key@) == first_member(models.skip(next as int), key@),
                    decreases members.len() - next,
                {
                    assert(models.skip(next as int).drop_first() == models.skip(next + 1));
                    assert(models.skip(next as int)[0] == models[next as int]);
                    if text_is(members[next].0.as_str(), key) {
                        return Some(&members[next].1);
                    }
                    next += 1;
                }
                None
            },
            _ => None,
        }
    }

    /// The text of a string value.
    pub fn as_str(&self) -> (text: Option<&str>)
        ensures
            match self.deep_view() {
                Json::String(chars) => text is Some && text->0@ == chars,
                _ => text is None,
            },
    {
        match self {
            JsonValue::String(text) => Some(text.as_str()),
            _ => None,
        }
    }

    /// A copy of the value, member by member.
    pub fn duplicate(&self) -> (copy: JsonValue)
        ensures
            copy.deep_view() == self.deep_view(),
        decreases *self,
    {
        match self {
            JsonValue::Null => JsonValue::Null,
            JsonValue::Bool(flag) => JsonValue::Bool(*flag),
            JsonValue::Number(number) => JsonValue::Number(*number),
            JsonValue::String(text) => JsonValue::String(text.clone()),
            JsonValue::Array(items) => {
                let mut copies: Vec<JsonValue> = Vec::new();
                let mut next: usize = 0;
                while next < items.len()
                    invariant
                        next <= items.len(),
                        copies.len() == next,
                        *self == JsonValue::Array(*items),
                        forall|i: int| 0 <= i < next ==> json_model(copies[i]) == json_model(items[i]),
                    decreases items.len() - next,
                {
                    proof {
                        assert(decreases_to!(*self => self->Array_0));
                        assert(decreases_to!(*items => items@));
                        assert(decreases_to!(items@ => items@[next as int]));
                    }
                    copies.push(items[next].duplicate());
                    next += 1;
                }
                proof {
                    lemma_json_models(items@);
                    lemma_json_models(copies@);
                    assert(json_models(items@) == json_models(copies@));
                }
                JsonValue::Array(copies)
            },
            JsonValue::Object(members) => {
                let mut copies: Vec<(String, JsonValue)> = Vec::new();
                let mut next: usize = 0;
                while next < members.len()
                    invariant
                        next <= members.len(),
                        copies.len() == next,
                        *self == JsonValue::Object(*members),
                        forall|i: int|
                            0 <= i < next ==> json_model(copies[i].1) == json_model(members[i].1),
                        forall|i: int| 0 <= i < next ==> copies[i].0@ == members[i].0@,
                    decreases members.len() - next,
                {
                    proof {
                        assert(decreases_to!(*self => self->Object_0));
                        assert(decreases_to!(*members => members@));
                        assert(decreases_to!(members@ => members@[next as int]));
                        assert(decreases_to!(members@[next as int] => members@[next as int].1));
                    }
                    copies.push((members[next].0.clone(), members[next].1.duplicate()));
                    next += 1;
                }
                proof {
                    lemma_member_models(members@);
                    lemma_member_models(copies@);
                    assert(member_models(members@) == member_models(copies@));
                }
                JsonValue::Object(copies)
            },
        }
    }
}

} // verus!
