//! Tool definitions: from the form of the Responses API to that of a chat.

use crate::json::{member_models, push_member, Json, JsonValue};
use crate::text::text_is;
use vstd::prelude::*;

verus! {

/// The value, or the default where there is none.
pub open spec fn or_default(value: Option<Json>, default: Json) -> Json {
    match value {
        Some(value) => value,
        None => default,
    }
}

/// The parameters of a function that declares none: an object without properties.
pub open spec fn no_parameters() -> Json {
    Json::Object(
        seq![("type"@, Json::String("object"@)), ("properties"@, Json::Object(Seq::empty()))],
    )
}

/// The chat's definition of a tool. Only functions can be defined in a chat: the definition
/// gathers the function's name, description and parameters under one key.
pub open spec fn chat_tool(tool: Json) -> Option<Json> {
    if tool.get("type"@) == Some(Json::String("function"@)) {
        Some(
            Json::Object(
                seq![
                    ("type"@, Json::String("function"@)),
                    (
                        "function"@,
                        Json::Object(
                            seq![
                                ("name"@, or_default(tool.get("name"@), Json::Null)),
                                (
                                    "description"@,
                                    or_default(
                                        tool.get("description"@),
                                        Json::String(Seq::empty()),
                                    ),
                                ),
                                (
                                    "parameters"@,
                                    or_default(tool.get("parameters"@), no_parameters()),
                                ),
                            ],
                        ),
                    ),
                ],
            ),
        )
    } else {
        None
    }
}

/// The chat's definitions of those tools that can be defined in a chat, in order.
pub open spec fn chat_tools(tools: Seq<Json>) -> Seq<Json>
    decreases tools.len(),
{
    if tools.len() == 0 {
        Seq::empty()
    } else {
        match chat_tool(tools.last()) {
            Some(tool) => chat_tools(tools.drop_last()).push(tool),
            None => chat_tools(tools.drop_last()),
        }
    }
}

/// A copy of the member with this key, or the default where there is none.
fn member_or(tool: &JsonValue, key: &str, default: JsonValue) -> (value: JsonValue)
    ensures
        value.deep_view() == or_default(tool.deep_view().get(key@), default.deep_view()),
{
    match tool.get(key) {
        Some(value) => value.duplicate(),
        None => default,
    }
}

/// Converts one tool definition, where it defines a function.
pub fn chat_tool_from_responses_tool(tool: &JsonValue) -> (converted: Option<JsonValue>)
    ensures
        converted.deep_view() == chat_tool(tool.deep_view()),
{
    let kind = match tool.get("type") {
        Some(value) => value.as_str(),
        None => None,
    };
    let is_function = match kind {
        Some(kind) => text_is(kind, "function"),
        None => false,
    };
    if !is_function {
        return None;
    }
    let mut no_members: Vec<(String, JsonValue)> = Vec::new();
    push_member(&mut no_members, "type", JsonValue::String("object".to_string()));
    push_member(&mut no_members, "properties", JsonValue::Object(Vec::new()));
    assert(member_models(no_members@) == no_parameters()->Object_0);

    let mut function: Vec<(String, JsonValue)> = Vec::new();
    push_member(&mut function, "name", member_or(tool, "name", JsonValue::Null));
    push_member(
        &mut function,
        "description",
        member_or(tool, "description", JsonValue::String(String::new())),
    );
    push_member(
        &mut function,
        "parameters",
        member_or(tool, "parameters", JsonValue::Object(no_members)),
    );
    let mut converted: Vec<(String, JsonValue)> = Vec::new();
    push_member(&mut converted, "type", JsonValue::String("function".to_string()));
    let ghost function_model = member_models(function@);
    push_member(&mut converted, "function", JsonValue::Object(function));
    proof {
        let expected = chat_tool(tool.deep_view())->0->Object_0;
        assert(function_model == expected[1].1->Object_0);
        assert(member_models(converted@) == expected);
    }
    Some(JsonValue::Object(converted))
}

/// Converts the tool definitions that define functions and leaves out the others.
pub fn chat_tools_from_responses_tools(tools: &Vec<JsonValue>) -> (converted: Vec<JsonValue>)
    ensures
        converted.deep_view() == chat_tools(tools.deep_view()),
{
    let ghost models = tools.deep_view();
    let mut converted: Vec<JsonValue> = Vec::new();
    let mut next: usize = 0;
    while next < tools.len()
        invariant
            next <= tools.len(),
            models == tools.deep_view(),
            converted.deep_view() == chat_tools(models.take(next as int)),
        decreases tools.len() - next,
    {
        let ghost before = converted.deep_view();
        assert(models.take(next + 1).drop_last() == models.take(next as int));
        if let Some(tool) = chat_tool_from_responses_tool(&tools[next]) {
            let ghost model = tool.deep_view();
            converted.push(tool);
            assert(converted.deep_view() == before.push(model));
        }
        next += 1;
    }
    assert(models.take(models.len() as int) == models);
    converted
}

} // verus!
