//! What can be read off a request on the wire.

use crate::chat::{
    ChatCompletionsRequestView, ChatContentPartView, ChatImageUrlView, ChatMessageContentView,
    ChatMessageView, ChatToolCallView,
};
use crate::json::{first_member, member, optional_member, optional_text, Json};
use crate::protocol::ResponsesApiRequestView;
use crate::request::{chat_messages, chat_request};
use crate::stream::first_of;
use crate::tools::{chat_tool, chat_tools, no_parameters, or_default};
use vstd::prelude::*;

verus! {

/// A key is looked up in the first list of members, and then in the second.
proof fn lemma_first_member_concat(
    first: Seq<(Seq<char>, Json)>,
    second: Seq<(Seq<char>, Json)>,
    key: Seq<char>,
)
    ensures
        first_member(first + second, key) == first_of(
            first_member(first, key),
            first_member(second, key),
        ),
    decreases first.len(),
{
    let all = first + second;
    if first.len() == 0 {
        assert(all == second);
    } else {
        assert(all.drop_first() == first.drop_first() + second);
        lemma_first_member_concat(first.drop_first(), second, key);
    }
}

/// The value, where the key is this name.
spec fn under(name: Seq<char>, value: Option<Json>, key: Seq<char>) -> Option<Json> {
    if name == key {
        value
    } else {
        None
    }
}

/// One more member, where there is a value for it.
proof fn lemma_first_member_push(
    members: Seq<(Seq<char>, Json)>,
    name: Seq<char>,
    value: Option<Json>,
    key: Seq<char>,
)
    ensures
        first_member(members + optional_member(name, value), key) == first_of(
            first_member(members, key),
            under(name, value, key),
        ),
{
    reveal_with_fuel(first_member, 2);
    lemma_first_member_concat(members, optional_member(name, value), key);
}

/// The JSON form of a message's content, where it has any.
pub open spec fn content_json(content: Option<ChatMessageContentView>) -> Option<Json> {
    match content {
        Some(content) => Some(content.json()),
        None => None,
    }
}

/// The JSON form of a message's tool calls, where it has any.
pub open spec fn calls_json(calls: Option<Seq<ChatToolCallView>>) -> Option<Json> {
    match calls {
        Some(calls) => Some(Json::Array(calls.map_values(|call: ChatToolCallView| call.json()))),
        None => None,
    }
}

/// A key in the JSON form of a message.
proof fn lemma_message_lookup(message: ChatMessageView, key: Seq<char>)
    ensures
        message.json().get(key) == first_of(
            first_of(
                first_of(
                    first_of(
                        under("role"@, Some(Json::String(message.role)), key),
                        under("content"@, content_json(message.content), key),
                    ),
                    under("reasoning_content"@, optional_text(message.reasoning_content), key),
                ),
                under("tool_calls"@, calls_json(message.tool_calls), key),
            ),
            under("tool_call_id"@, optional_text(message.tool_call_id), key),
        ),
{
    reveal_with_fuel(first_member, 2);
    let m1 = seq![("role"@, Json::String(message.role))];
    let m2 = m1 + optional_member("content"@, content_json(message.content));
    let m3 = m2 + optional_member("reasoning_content"@, optional_text(message.reasoning_content));
    let m4 = m3 + optional_member("tool_calls"@, calls_json(message.tool_calls));
    lemma_first_member_push(m1, "content"@, content_json(message.content), key);
    lemma_first_member_push(
        m2,
        "reasoning_content"@,
        optional_text(message.reasoning_content),
        key,
    );
    lemma_first_member_push(m3, "tool_calls"@, calls_json(message.tool_calls), key);
    lemma_first_member_push(m4, "tool_call_id"@, optional_text(message.tool_call_id), key);
}

/// On the wire a message shows its role, and what else it has; what it does not have is not
/// there.
pub proof fn law_message_on_the_wire(message: ChatMessageView)
    ensures
        message.json().get("role"@) == Some(Json::String(message.role)),
        message.json().get("content"@) == content_json(message.content),
        message.json().get("reasoning_content"@) == optional_text(message.reasoning_content),
        message.json().get("tool_calls"@) == calls_json(message.tool_calls),
        message.json().get("tool_call_id"@) == optional_text(message.tool_call_id),
{
    reveal_strlit("role");
    reveal_strlit("content");
    reveal_strlit("reasoning_content");
    reveal_strlit("tool_calls");
    reveal_strlit("tool_call_id");
    assert("role"@.len() == 4 && "content"@.len() == 7 && "reasoning_content"@.len() == 17);
    assert("tool_calls"@.len() == 10 && "tool_call_id"@.len() == 12);
    lemma_message_lookup(message, "role"@);
    lemma_message_lookup(message, "content"@);
    lemma_message_lookup(message, "reasoning_content"@);
    lemma_message_lookup(message, "tool_calls"@);
    lemma_message_lookup(message, "tool_call_id"@);
}

/// The JSON form of tool definitions, where there are any.
pub open spec fn tools_json(tools: Seq<Json>) -> Option<Json> {
    if tools.len() == 0 {
        None
    } else {
        Some(Json::Array(tools))
    }
}

/// A key in the JSON form of a chat request that was converted.
proof fn lemma_request_lookup(request: ResponsesApiRequestView, key: Seq<char>)
    ensures
        ({
            let chat = chat_request(request);
            let head = first_of(
                first_of(
                    first_of(
                        under("model"@, Some(Json::String(chat.model)), key),
                        under("messages"@, Some(messages_json(chat.messages)), key),
                    ),
                    under("tools"@, tools_json(chat.tools), key),
                ),
                under("tool_choice"@, Some(Json::String(chat.tool_choice)), key),
            );
            let middle = first_of(
                first_of(
                    first_of(
                        head,
                        under(
                            "parallel_tool_calls"@,
                            Some(Json::Bool(request.parallel_tool_calls)),
                            key,
                        ),
                    ),
                    under("stream"@, Some(Json::Bool(true)), key),
                ),
                under("stream_options"@, Some(with_usage()), key),
            );
            chat.json().get(key) == first_of(
                first_of(
                    first_of(
                        first_of(
                            middle,
                            under("reasoning_effort"@, optional_text(chat.reasoning_effort), key),
                        ),
                        under("thinking"@, chat.thinking, key),
                    ),
                    under("service_tier"@, optional_text(chat.service_tier), key),
                ),
                under("prompt_cache_key"@, optional_text(chat.prompt_cache_key), key),
            )
        }),
{
    let chat = chat_request(request);
    let m0 = Seq::<(Seq<char>, Json)>::empty();
    let m1 = m0 + member("model"@, Json::String(chat.model));
    let m2 = m1 + member("messages"@, messages_json(chat.messages));
    let m3 = m2 + optional_member("tools"@, tools_json(chat.tools));
    let m4 = m3 + member("tool_choice"@, Json::String(chat.tool_choice));
    let parallel = Some(Json::Bool(request.parallel_tool_calls));
    let m5 = m4 + optional_member("parallel_tool_calls"@, parallel);
    let m6 = m5 + member("stream"@, Json::Bool(true));
    let m7 = m6 + member("stream_options"@, with_usage());
    let m8 = m7 + optional_member("reasoning_effort"@, optional_text(chat.reasoning_effort));
    let m9 = m8 + optional_member("thinking"@, chat.thinking);
    let m10 = m9 + optional_member("service_tier"@, optional_text(chat.service_tier));
    let m11 = m10 + optional_member("prompt_cache_key"@, optional_text(chat.prompt_cache_key));
    assert(chat.json() == Json::Object(m11));
    lemma_first_member_push(m0, "model"@, Some(Json::String(chat.model)), key);
    lemma_first_member_push(m1, "messages"@, Some(messages_json(chat.messages)), key);
    lemma_first_member_push(m2, "tools"@, tools_json(chat.tools), key);
    lemma_first_member_push(m3, "tool_choice"@, Some(Json::String(chat.tool_choice)), key);
    lemma_first_member_push(m4, "parallel_tool_calls"@, parallel, key);
    lemma_first_member_push(m5, "stream"@, Some(Json::Bool(true)), key);
    lemma_first_member_push(m6, "stream_options"@, Some(with_usage()), key);
    lemma_first_member_push(m7, "reasoning_effort"@, optional_text(chat.reasoning_effort), key);
    lemma_first_member_push(m8, "thinking"@, chat.thinking, key);
    lemma_first_member_push(m9, "service_tier"@, optional_text(chat.service_tier), key);
    lemma_first_member_push(m10, "prompt_cache_key"@, optional_text(chat.prompt_cache_key), key);
}

/// The JSON form of messages.
pub open spec fn messages_json(messages: Seq<ChatMessageView>) -> Json {
    Json::Array(messages.map_values(|message: ChatMessageView| message.json()))
}

/// The stream option that asks for a report of the usage.
pub open spec fn with_usage() -> Json {
    Json::Object(member("include_usage"@, Json::Bool(true)))
}

/// On the wire a converted request names its model and holds the messages of the chat. It always
/// asks for a stream that reports its usage, says whether tools may be called in parallel, and
/// asks the model to think where the request has reasoning settings. Tools are there only where
/// some can be defined in a chat, and the other settings only where the request has them.
pub proof fn law_request_on_the_wire(request: ResponsesApiRequestView)
    ensures
        ({
            let wire = chat_request(request).json();
            &&& wire.get("model"@) == Some(Json::String(request.model))
            &&& wire.get("messages"@) == Some(
                messages_json(chat_messages(request.instructions, request.input)),
            )
            &&& wire.get("tools"@) == tools_json(chat_tools(request.tools))
            &&& wire.get("tool_choice"@) == Some(Json::String(request.tool_choice))
            &&& wire.get("parallel_tool_calls"@) == Some(Json::Bool(request.parallel_tool_calls))
            &&& wire.get("stream"@) == Some(Json::Bool(true))
            &&& wire.get("stream_options"@) == Some(with_usage())
            &&& wire.get("reasoning_effort"@) == match request.reasoning {
                Some(reasoning) => optional_text(reasoning.effort),
                None => None,
            }
            &&& wire.get("thinking"@) == match request.reasoning {
                Some(_) => Some(Json::Object(member("type"@, Json::String("enabled"@)))),
                None => None,
            }
            &&& wire.get("service_tier"@) == optional_text(request.service_tier)
            &&& wire.get("prompt_cache_key"@) == optional_text(request.prompt_cache_key)
        }),
{
    reveal_strlit("model");
    reveal_strlit("messages");
    reveal_strlit("tools");
    reveal_strlit("tool_choice");
    reveal_strlit("parallel_tool_calls");
    reveal_strlit("stream");
    reveal_strlit("stream_options");
    reveal_strlit("reasoning_effort");
    reveal_strlit("thinking");
    reveal_strlit("service_tier");
    reveal_strlit("prompt_cache_key");
    assert("model"@.len() == 5 && "messages"@.len() == 8 && "tools"@.len() == 5);
    assert("tool_choice"@.len() == 11 && "parallel_tool_calls"@.len() == 19);
    assert("stream"@.len() == 6 && "stream_options"@.len() == 14);
    assert("reasoning_effort"@.len() == 16 && "thinking"@.len() == 8);
    assert("service_tier"@.len() == 12 && "prompt_cache_key"@.len() == 16);
    assert("model"@[0] != "tools"@[0]);
    assert("messages"@[0] != "thinking"@[0]);
    assert("reasoning_effort"@[0] != "prompt_cache_key"@[0]);
    lemma_request_lookup(request, "model"@);
    lemma_request_lookup(request, "messages"@);
    lemma_request_lookup(request, "tools"@);
    lemma_request_lookup(request, "tool_choice"@);
    lemma_request_lookup(request, "parallel_tool_calls"@);
    lemma_request_lookup(request, "stream"@);
    lemma_request_lookup(request, "stream_options"@);
    lemma_request_lookup(request, "reasoning_effort"@);
    lemma_request_lookup(request, "thinking"@);
    lemma_request_lookup(request, "service_tier"@);
    lemma_request_lookup(request, "prompt_cache_key"@);
}

/// Whether the tool is a function.
pub open spec fn is_function(tool: Json) -> bool {
    tool.get("type"@) == Some(Json::String("function"@))
}

/// Functions are the tools that are kept, all of them and in order; tools of any other type are
/// left out.
pub proof fn law_only_functions_are_kept(tools: Seq<Json>)
    ensures
        chat_tools(tools) == tools.filter(|tool: Json| is_function(tool)).map_values(
            |tool: Json| chat_tool(tool)->0,
        ),
    decreases tools.len(),
{
    reveal(Seq::filter);
    if tools.len() > 0 {
        law_only_functions_are_kept(tools.drop_last());
        let kept = tools.drop_last().filter(|tool: Json| is_function(tool));
        if is_function(tools.last()) {
            assert(kept.push(tools.last()).map_values(|tool: Json| chat_tool(tool)->0)
                == kept.map_values(|tool: Json| chat_tool(tool)->0).push(
                chat_tool(tools.last())->0,
            ));
        }
    }
}

/// The definition of a function in a chat says that it is a function, and gives its name, its
/// description and its parameters under one key, each with a default where the tool has none.
pub proof fn law_function_on_the_wire(tool: Json)
    requires
        is_function(tool),
    ensures
        chat_tool(tool) is Some,
        ({
            let wire = chat_tool(tool)->0;
            let function = wire.get("function"@)->0;
            &&& wire.get("type"@) == Some(Json::String("function"@))
            &&& wire.get("function"@) is Some
            &&& function.get("name"@) == Some(or_default(tool.get("name"@), Json::Null))
            &&& function.get("description"@) == Some(
                or_default(tool.get("description"@), Json::String(Seq::empty())),
            )
            &&& function.get("parameters"@) == Some(
                or_default(tool.get("parameters"@), no_parameters()),
            )
        }),
{
    reveal_strlit("type");
    reveal_strlit("function");
    reveal_strlit("name");
    reveal_strlit("description");
    reveal_strlit("parameters");
    assert("type"@.len() == 4 && "function"@.len() == 8);
    assert("name"@.len() == 4 && "description"@.len() == 11 && "parameters"@.len() == 10);
    reveal_with_fuel(first_member, 4);
}

/// The members of an object that has these fields, where only those with a value are there.
pub open spec fn present(fields: Seq<(Seq<char>, Option<Json>)>) -> Seq<(Seq<char>, Json)>
    decreases fields.len(),
{
    if fields.len() == 0 {
        Seq::empty()
    } else {
        match fields.last().1 {
            Some(value) => present(fields.drop_last()).push((fields.last().0, value)),
            None => present(fields.drop_last()),
        }
    }
}

/// One more field.
proof fn lemma_present_push(
    fields: Seq<(Seq<char>, Option<Json>)>,
    name: Seq<char>,
    value: Option<Json>,
)
    ensures
        present(fields.push((name, value))) == match value {
            Some(value) => present(fields).push((name, value)),
            None => present(fields),
        },
{
    assert(fields.push((name, value)).drop_last() == fields);
}

/// The string of an optional text.
pub open spec fn string_of(text: Option<Seq<char>>) -> Option<Json> {
    match text {
        Some(text) => Some(Json::String(text)),
        None => None,
    }
}

/// The place of an image on the wire: its url and, where it has one, its detail.
pub proof fn law_image_on_the_wire(image: ChatImageUrlView)
    ensures
        image.json() == Json::Object(
            present(
                seq![
                    ("url"@, Some(Json::String(image.url))),
                    ("detail"@, string_of(image.detail)),
                ],
            ),
        ),
{
    let f0 = Seq::<(Seq<char>, Option<Json>)>::empty();
    let f1 = f0.push(("url"@, Some(Json::String(image.url))));
    lemma_present_push(f0, "url"@, Some(Json::String(image.url)));
    lemma_present_push(f1, "detail"@, string_of(image.detail));
    assert(f1.push(("detail"@, string_of(image.detail))) == seq![
        ("url"@, Some(Json::String(image.url))),
        ("detail"@, string_of(image.detail)),
    ]);
    assert(image.json()->Object_0 == present(f1.push(("detail"@, string_of(image.detail)))));
}

/// The content of a message on the wire: one text is a string; parts are an array with one object
/// per part, in order, which tells its type and holds its text or its image.
pub proof fn law_content_on_the_wire(content: ChatMessageContentView)
    ensures
        match content {
            ChatMessageContentView::Text(text) => content.json() == Json::String(text),
            ChatMessageContentView::Parts(parts) => {
                &&& content.json() is Array
                &&& content.json()->Array_0.len() == parts.len()
                &&& forall|k: int|
                    0 <= k < parts.len() ==> #[trigger] content.json()->Array_0[k] == match parts[k] {
                        ChatContentPartView::Text { text } => Json::Object(
                            seq![("type"@, Json::String("text"@)), ("text"@, Json::String(text))],
                        ),
                        ChatContentPartView::ImageUrl { image_url } => Json::Object(
                            seq![
                                ("type"@, Json::String("image_url"@)),
                                ("image_url"@, image_url.json()),
                            ],
                        ),
                    }
            },
        },
{
}

/// A tool call on the wire: its id, its type, and its function with name and arguments.
pub proof fn law_call_on_the_wire(call: ChatToolCallView)
    ensures
        call.json() == Json::Object(
            seq![
                ("id"@, Json::String(call.id)),
                ("type"@, Json::String(call.kind)),
                (
                    "function"@,
                    Json::Object(
                        seq![
                            ("name"@, Json::String(call.function.name)),
                            ("arguments"@, Json::String(call.function.arguments)),
                        ],
                    ),
                ),
            ],
        ),
{
}

/// The array of the JSON forms of tool calls.
pub open spec fn call_array(calls: Option<Seq<ChatToolCallView>>) -> Option<Json> {
    match calls {
        Some(calls) => Some(Json::Array(Seq::new(calls.len(), |k: int| calls[k].json()))),
        None => None,
    }
}

/// The fields of a message on the wire.
pub open spec fn message_fields(message: ChatMessageView) -> Seq<(Seq<char>, Option<Json>)> {
    seq![
        ("role"@, Some(Json::String(message.role))),
        (
            "content"@,
            match message.content {
                Some(content) => Some(content.json()),
                None => None,
            },
        ),
        ("reasoning_content"@, string_of(message.reasoning_content)),
        ("tool_calls"@, call_array(message.tool_calls)),
        ("tool_call_id"@, string_of(message.tool_call_id)),
    ]
}

/// A message on the wire is its role, its content, its reasoning, its tool calls and the id of the
/// call it answers, in this order, as far as it has them, and nothing else.
pub proof fn law_message_is_its_fields(message: ChatMessageView)
    ensures
        message.json() == Json::Object(present(message_fields(message))),
{
    let role = Some(Json::String(message.role));
    let content = match message.content {
        Some(content) => Some(content.json()),
        None => None,
    };
    let reasoning = string_of(message.reasoning_content);
    let calls = call_array(message.tool_calls);
    let answered = string_of(message.tool_call_id);
    if let Some(list) = message.tool_calls {
        assert(list.map_values(|call: ChatToolCallView| call.json()) == Seq::new(
            list.len(),
            |k: int| list[k].json(),
        ));
    }
    let f0 = Seq::<(Seq<char>, Option<Json>)>::empty();
    let f1 = f0.push(("role"@, role));
    let f2 = f1.push(("content"@, content));
    let f3 = f2.push(("reasoning_content"@, reasoning));
    let f4 = f3.push(("tool_calls"@, calls));
    let f5 = f4.push(("tool_call_id"@, answered));
    lemma_present_push(f0, "role"@, role);
    lemma_present_push(f1, "content"@, content);
    lemma_present_push(f2, "reasoning_content"@, reasoning);
    lemma_present_push(f3, "tool_calls"@, calls);
    lemma_present_push(f4, "tool_call_id"@, answered);
    assert(f5 == message_fields(message));
    let m1 = seq![("role"@, Json::String(message.role))];
    let m2 = m1 + optional_member("content"@, content);
    let m3 = m2 + optional_member("reasoning_content"@, reasoning);
    let m4 = m3 + optional_member("tool_calls"@, calls);
    let m5 = m4 + optional_member("tool_call_id"@, answered);
    assert(m1 == present(f1));
    assert(m2 == present(f2));
    assert(m3 == present(f3));
    assert(m4 == present(f4));
    assert(m5 == present(f5));
    assert(message.json() == Json::Object(m5));
}

/// The fields of a chat request on the wire.
pub open spec fn request_fields(request: ChatCompletionsRequestView) -> Seq<(Seq<char>, Option<Json>)> {
    seq![
        ("model"@, Some(Json::String(request.model))),
        (
            "messages"@,
            Some(
                Json::Array(
                    Seq::new(
                        request.messages.len(),
                        |k: int| request.messages[k].json(),
                    ),
                ),
            ),
        ),
        (
            "tools"@,
            if request.tools.len() > 0 {
                Some(Json::Array(request.tools))
            } else {
                None
            },
        ),
        ("tool_choice"@, Some(Json::String(request.tool_choice))),
        (
            "parallel_tool_calls"@,
            match request.parallel_tool_calls {
                Some(flag) => Some(Json::Bool(flag)),
                None => None,
            },
        ),
        ("stream"@, Some(Json::Bool(request.stream))),
        (
            "stream_options"@,
            Some(
                Json::Object(
                    seq![
                        (
                            "include_usage"@,
                            Json::Bool(request.stream_options.include_usage),
                        ),
                    ],
                ),
            ),
        ),
        ("reasoning_effort"@, string_of(request.reasoning_effort)),
        ("thinking"@, request.thinking),
        ("service_tier"@, string_of(request.service_tier)),
        ("prompt_cache_key"@, string_of(request.prompt_cache_key)),
    ]
}

/// A chat request on the wire is its fields, in this order: the optional ones as far as it has
/// them, the tools where there are any, and nothing else.
pub proof fn law_request_is_its_fields(request: ChatCompletionsRequestView)
    ensures
        request.json() == Json::Object(present(request_fields(request))),
{
    let model = Json::String(request.model);
    let list = request.messages.map_values(|message: ChatMessageView| message.json());
    let messages = Json::Array(list);
    assert(list == Seq::new(request.messages.len(), |k: int| request.messages[k].json()));
    let tools = if request.tools.len() > 0 {
        Some(Json::Array(request.tools))
    } else {
        None
    };
    let choice = Json::String(request.tool_choice);
    let parallel = match request.parallel_tool_calls {
        Some(flag) => Some(Json::Bool(flag)),
        None => None,
    };
    let stream = Json::Bool(request.stream);
    let options = Json::Object(
        seq![("include_usage"@, Json::Bool(request.stream_options.include_usage))],
    );
    let effort = string_of(request.reasoning_effort);
    let tier = string_of(request.service_tier);
    let cache = string_of(request.prompt_cache_key);
    let f0 = Seq::<(Seq<char>, Option<Json>)>::empty();
    let f1 = f0.push(("model"@, Some(model)));
    let f2 = f1.push(("messages"@, Some(messages)));
    let f3 = f2.push(("tools"@, tools));
    let f4 = f3.push(("tool_choice"@, Some(choice)));
    let f5 = f4.push(("parallel_tool_calls"@, parallel));
    let f6 = f5.push(("stream"@, Some(stream)));
    let f7 = f6.push(("stream_options"@, Some(options)));
    let f8 = f7.push(("reasoning_effort"@, effort));
    let f9 = f8.push(("thinking"@, request.thinking));
    let f10 = f9.push(("service_tier"@, tier));
    let f11 = f10.push(("prompt_cache_key"@, cache));
    lemma_present_push(f0, "model"@, Some(model));
    lemma_present_push(f1, "messages"@, Some(messages));
    lemma_present_push(f2, "tools"@, tools);
    lemma_present_push(f3, "tool_choice"@, Some(choice));
    lemma_present_push(f4, "parallel_tool_calls"@, parallel);
    lemma_present_push(f5, "stream"@, Some(stream));
    lemma_present_push(f6, "stream_options"@, Some(options));
    lemma_present_push(f7, "reasoning_effort"@, effort);
    lemma_present_push(f8, "thinking"@, request.thinking);
    lemma_present_push(f9, "service_tier"@, tier);
    lemma_present_push(f10, "prompt_cache_key"@, cache);
    assert(f11 == request_fields(request));
    let m1 = Seq::<(Seq<char>, Json)>::empty() + member("model"@, model);
    let m2 = m1 + member("messages"@, messages);
    let m3 = m2 + optional_member("tools"@, tools);
    let m4 = m3 + member("tool_choice"@, choice);
    let m5 = m4 + optional_member("parallel_tool_calls"@, parallel);
    let m6 = m5 + member("stream"@, stream);
    let m7 = m6 + member("stream_options"@, options);
    let m8 = m7 + optional_member("reasoning_effort"@, effort);
    let m9 = m8 + optional_member("thinking"@, request.thinking);
    let m10 = m9 + optional_member("service_tier"@, tier);
    let m11 = m10 + optional_member("prompt_cache_key"@, cache);
    assert(m1 == present(f1));
    assert(m2 == present(f2));
    assert(m3 == present(f3));
    assert(m4 == present(f4));
    assert(m5 == present(f5));
    assert(m6 == present(f6));
    assert(m7 == present(f7));
    assert(m8 == present(f8));
    assert(m9 == present(f9));
    assert(m10 == present(f10));
    assert(m11 == present(f11));
    assert(request.json() == Json::Object(m11));
}

/// A function keeps what it declares: a name, a description or parameters that the tool has are in
/// its definition as they are, whatever they are. Only what the tool does not have is made up: no
/// name, an empty description, and parameters without properties.
pub proof fn law_function_keeps_what_it_declares(tool: Json)
    requires
        tool.get("type"@) == Some(Json::String("function"@)),
    ensures
        chat_tool(tool) is Some,
        ({
            let wire = chat_tool(tool)->0;
            let outer = wire->Object_0;
            let inner = outer[1].1->Object_0;
            &&& wire is Object && outer.len() == 2
            &&& outer[0] == ("type"@, Json::String("function"@))
            &&& outer[1].0 == "function"@ && outer[1].1 is Object
            &&& inner.len() == 3
            &&& inner[0].0 == "name"@
            &&& inner[1].0 == "description"@
            &&& inner[2].0 == "parameters"@
            &&& forall|name: Json| tool.get("name"@) == Some(name) ==> inner[0].1 == name
            &&& tool.get("name"@) is None ==> inner[0].1 == Json::Null
            &&& forall|text: Json| tool.get("description"@) == Some(text) ==> inner[1].1 == text
            &&& tool.get("description"@) is None ==> inner[1].1 is String
                && inner[1].1->String_0.len() == 0
            &&& forall|given: Json| tool.get("parameters"@) == Some(given) ==> inner[2].1 == given
            &&& tool.get("parameters"@) is None ==> inner[2].1 == Json::Object(
                seq![
                    ("type"@, Json::String("object"@)),
                    ("properties"@, Json::Object(Seq::empty())),
                ],
            )
        }),
{
}

/// A tool that is no function has no definition in a chat: one without a type, with a type that is
/// no text, or with another type.
pub proof fn law_other_tools_have_no_definition(tool: Json)
    ensures
        chat_tool(tool) is Some <==> tool.get("type"@) == Some(Json::String("function"@)),
{
}

/// Tools are converted one by one: those of two lists together are those of the first, then those
/// of the second, and one tool alone is its definition or nothing.
pub proof fn law_tools_are_converted_one_by_one(first: Seq<Json>, second: Seq<Json>)
    ensures
        chat_tools(first + second) == chat_tools(first) + chat_tools(second),
        first.len() == 1 ==> chat_tools(first) == match chat_tool(first[0]) {
            Some(tool) => seq![tool],
            None => Seq::empty(),
        },
        first.len() == 0 ==> chat_tools(first).len() == 0,
    decreases second.len(),
{
    if first.len() == 1 {
        reveal_with_fuel(chat_tools, 2);
        assert(first.drop_last() == Seq::<Json>::empty());
        assert(first.last() == first[0]);
    }
    if second.len() == 0 {
        assert(first + second == first);
    } else {
        assert((first + second).drop_last() == first + second.drop_last());
        law_tools_are_converted_one_by_one(first, second.drop_last());
    }
}

} // verus!
