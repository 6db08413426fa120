//! What holds of looking a key up, and of the models of JSON values.

use crate::json::{first_member, lemma_json_models, lemma_member_models, Json, JsonValue};
use vstd::prelude::*;

verus! {

/// Whether the member at position `k` has this key, and none before it has.
pub open spec fn first_at(members: Seq<(Seq<char>, Json)>, key: Seq<char>, k: int) -> bool {
    &&& 0 <= k < members.len()
    &&& members[k].0 == key
    &&& forall|j: int| 0 <= j < k ==> (#[trigger] members[j]).0 != key
}

/// Where the first member with a key stands.
proof fn lemma_first_at(members: Seq<(Seq<char>, Json)>, key: Seq<char>) -> (k: int)
    ensures
        first_member(members, key) is Some ==> first_at(members, key, k) && members[k].1
            == first_member(members, key)->0,
        first_member(members, key) is None ==> forall|j: int|
            0 <= j < members.len() ==> (#[trigger] members[j]).0 != key,
    decreases members.len(),
{
    if members.len() == 0 || members[0].0 == key {
        0
    } else {
        let rest = members.drop_first();
        let k = lemma_first_at(rest, key) + 1;
        assert forall|j: int| 0 < j < members.len() implies #[trigger] members[j] == rest[j - 1] by {}
        k
    }
}

/// Looking a key up gives the value of the first member with this key, whatever the value is;
/// nothing exactly where no member has the key, or the value is no object.
pub proof fn law_lookup(value: Json, key: Seq<char>)
    ensures
        value.get(key) is Some <==> value is Object && exists|k: int|
            first_at(value->Object_0, key, k),
        value.get(key) is None <==> !(value is Object) || forall|j: int|
            0 <= j < value->Object_0.len() ==> (#[trigger] value->Object_0[j]).0 != key,
        forall|k: int|
            value is Object && #[trigger] first_at(value->Object_0, key, k) ==> value.get(key)
                == Some(value->Object_0[k].1),
{
    if let Json::Object(members) = value {
        let at = lemma_first_at(members, key);
        assert forall|k: int| #[trigger] first_at(members, key, k) implies value.get(key) == Some(
            members[k].1,
        ) by {
            if value.get(key) is Some {
                assert(members[at].0 == key && members[k].0 == key);
            }
        }
    }
}

/// The model of a JSON value has the same kind, the same content, and the models of the same
/// items and members in the same order.
pub proof fn law_models(value: JsonValue)
    ensures
        match value {
            JsonValue::Null => value.deep_view() == Json::Null,
            JsonValue::Bool(flag) => value.deep_view() == Json::Bool(flag),
            JsonValue::Number(number) => value.deep_view() == Json::Number(number),
            JsonValue::String(text) => value.deep_view() == Json::String(text@),
            JsonValue::Array(items) => {
                &&& value.deep_view() is Array
                &&& value.deep_view()->Array_0.len() == items@.len()
                &&& forall|k: int|
                    0 <= k < items@.len() ==> #[trigger] value.deep_view()->Array_0[k]
                        == items@[k].deep_view()
            },
            JsonValue::Object(members) => {
                &&& value.deep_view() is Object
                &&& value.deep_view()->Object_0.len() == members@.len()
                &&& forall|k: int|
                    0 <= k < members@.len() ==> #[trigger] value.deep_view()->Object_0[k] == (
                        members@[k].0@,
                        members@[k].1.deep_view(),
                    )
            },
        },
{
    match value {
        JsonValue::Array(items) => lemma_json_models(items@),
        JsonValue::Object(members) => lemma_member_models(members@),
        _ => {},
    }
}

} // verus!
