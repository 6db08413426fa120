//! From a request in the form of the Responses API to a Chat Completions request.

use crate::chat::{
    ChatCompletionsRequest, ChatCompletionsRequestView, ChatMessage, ChatMessageContent,
    ChatMessageContentView, ChatMessageView, ChatStreamOptions,
};
use crate::content::{
    chat_content, chat_message_content_from_content_items, chat_message_role, chat_role, lines_of,
    lines_or_none, listed, own_reasoning, reasoning_items_to_text, reasoning_text, spoken_message,
};
use crate::json::{member, member_models, push_member, Json, JsonValue};
use crate::protocol::{ResponseItem, ResponseItemView, ResponsesApiRequest, ResponsesApiRequestView};
use crate::text::text_is;
use crate::tool_calls::{call_group, collect_complete_tool_call_group, lemma_group_advances};
use crate::tools::{chat_tools, chat_tools_from_responses_tools};
use vstd::prelude::*;

verus! {

/// The reasoning that stands directly after position `i`, where there is any.
pub open spec fn reasoning_after(items: Seq<ResponseItemView>, i: int) -> Option<Seq<char>> {
    if 0 <= i + 1 < items.len() {
        match items[i + 1] {
            ResponseItemView::Reasoning { content, .. } => reasoning_text(content),
            _ => None,
        }
    } else {
        None
    }
}

/// The reasoning item behind an assistant's message at position `i` that goes with the message:
/// the one directly after it, where no reasoning was pending.
pub open spec fn reasoning_behind(
    items: Seq<ResponseItemView>,
    i: int,
    pending: Option<Seq<char>>,
) -> Option<Seq<char>> {
    if pending is Some {
        None
    } else {
        reasoning_after(items, i)
    }
}

/// The reasoning of an assistant's message at position `i`: what was pending from earlier
/// reasoning items, what the message itself carries, and what stands behind it.
pub open spec fn message_reasoning(
    items: Seq<ResponseItemView>,
    i: int,
    pending: Option<Seq<char>>,
    own: Option<Seq<char>>,
) -> Option<Seq<char>> {
    lines_of(
        listed(pending) + listed(own_reasoning(own)) + listed(reasoning_behind(items, i, pending)),
    )
}

/// Where the conversation goes on after an assistant's message at position `i`.
pub open spec fn after_message(
    items: Seq<ResponseItemView>,
    i: int,
    pending: Option<Seq<char>>,
) -> int {
    if reasoning_behind(items, i, pending) is Some {
        i + 2
    } else {
        i + 1
    }
}

/// The messages that the items from position `i` on become, where `pending` is the last
/// reasoning that no message has taken yet.
///
/// * Reasoning waits for the next assistant message or run of tool calls.
/// * A message of the assistant takes the reasoning before it or, where there is none, the
///   reasoning directly after it, and has the reasoning that it carries itself. A message of
///   anyone else takes none and leaves it waiting.
/// * A run of tool calls becomes a complete group or nothing, and takes the reasoning before it.
/// * Every other item is passed over.
pub open spec fn messages_from(
    items: Seq<ResponseItemView>,
    i: int,
    pending: Option<Seq<char>>,
) -> Seq<ChatMessageView>
    decreases items.len() - i,
{
    if i < 0 || i >= items.len() {
        Seq::empty()
    } else {
        match items[i] {
            ResponseItemView::Reasoning { content, .. } => {
                let text = reasoning_text(content);
                messages_from(items, i + 1, if text is Some { text } else { pending })
            },
            ResponseItemView::Message { role, content, reasoning_content, .. } => {
                let speaker = chat_role(role);
                let said = chat_content(content);
                if speaker != "assistant"@ {
                    seq![spoken_message(speaker, said, None)] + messages_from(
                        items,
                        i + 1,
                        pending,
                    )
                } else {
                    seq![
                        spoken_message(
                            speaker,
                            said,
                            message_reasoning(items, i, pending, reasoning_content),
                        ),
                    ] + messages_from(items, after_message(items, i, pending), None)
                }
            },
            ResponseItemView::FunctionCall { .. } | ResponseItemView::CustomToolCall { .. } => {
                let group = call_group(items, i);
                proof {
                    lemma_group_advances(items, i);
                }
                group.messages(pending) + messages_from(items, group.end, None)
            },
            _ => messages_from(items, i + 1, pending),
        }
    }
}

/// The message with which the instructions open a chat, where there are any.
pub open spec fn opening(instructions: Seq<char>) -> Seq<ChatMessageView> {
    if instructions.len() == 0 {
        Seq::empty()
    } else {
        seq![spoken_message("system"@, ChatMessageContentView::Text(instructions), None)]
    }
}

/// The messages of the chat that a conversation becomes.
pub open spec fn chat_messages(
    instructions: Seq<char>,
    items: Seq<ResponseItemView>,
) -> Seq<ChatMessageView> {
    opening(instructions) + messages_from(items, 0, None)
}

/// Converts a conversation to the messages of a chat.
pub fn chat_messages_from_response_items(
    instructions: String,
    input: Vec<ResponseItem>,
) -> (messages: Vec<ChatMessage>)
    ensures
        messages.deep_view() == chat_messages(instructions@, input.deep_view()),
{
    let ghost items = input.deep_view();
    let ghost head = opening(instructions@);
    let mut messages: Vec<ChatMessage> = Vec::new();
    if !instructions.as_str().is_empty() {
        messages.push(
            ChatMessage {
                role: "system".to_string(),
                content: Some(ChatMessageContent::Text(instructions)),
                reasoning_content: None,
                tool_calls: None,
                tool_call_id: None,
            },
        );
    }
    assert(messages.deep_view() == head);

    let mut idx: usize = 0;
    let mut last_reasoning: Option<String> = None;
    assert(head + messages_from(items, 0, None) == messages.deep_view() + messages_from(
        items,
        0,
        last_reasoning.deep_view(),
    ));
    while idx < input.len()
        invariant
            items == input.deep_view(),
            idx <= input.len(),
            head + messages_from(items, 0, None) == messages.deep_view() + messages_from(
                items,
                idx as int,
                last_reasoning.deep_view(),
            ),
        decreases input.len() - idx,
    {
        let ghost before = messages.deep_view();
        let ghost pending = last_reasoning.deep_view();
        let ghost i = idx as int;
        assert(items[i] == input[i].deep_view());
        match &input[idx] {
            ResponseItem::Reasoning { content, .. } => {
                if let Some(text) = reasoning_items_to_text(content.as_ref()) {
                    last_reasoning = Some(text);
                }
                idx += 1;
            },
            ResponseItem::Message { role, content, reasoning_content: own, .. } => {
                let mapped_role = chat_message_role(role.as_str());
                let mut reasoning_content: Option<String> = None;
                let mut step: usize = 1;
                if text_is(mapped_role, "assistant") {
                    let mut texts: Vec<String> = Vec::new();
                    let waited = last_reasoning.is_some();
                    if let Some(text) = last_reasoning.take() {
                        texts.push(text);
                    }
                    if let Some(text) = own {
                        if !text.as_str().is_empty() {
                            texts.push(text.clone());
                        }
                    }
                    let ghost so_far = listed(pending) + listed(own_reasoning(own.deep_view()));
                    assert(texts.deep_view() == so_far);
                    if !waited && idx + 1 < input.len() {
                        assert(items[i + 1] == input[i + 1].deep_view());
                        if let ResponseItem::Reasoning { content, .. } = &input[idx + 1] {
                            if let Some(text) = reasoning_items_to_text(content.as_ref()) {
                                texts.push(text);
                                step = 2;
                            }
                        }
                    }
                    assert(texts.deep_view() == so_far + listed(
                        reasoning_behind(items, i, pending),
                    ));
                    reasoning_content = lines_or_none(&texts);
                }
                messages.push(
                    ChatMessage {
                        role: mapped_role.to_string(),
                        content: Some(chat_message_content_from_content_items(content)),
                        reasoning_content,
                        tool_calls: None,
                        tool_call_id: None,
                    },
                );
                idx += step;
                proof {
                    let message = messages@.last().deep_view();
                    assert(messages.deep_view() == before.push(message));
                    assert(before + (seq![message] + messages_from(
                        items,
                        idx as int,
                        last_reasoning.deep_view(),
                    )) == before.push(message) + messages_from(
                        items,
                        idx as int,
                        last_reasoning.deep_view(),
                    ));
                }
            },
            ResponseItem::FunctionCall { .. } | ResponseItem::CustomToolCall { .. } => {
                let (next_idx, group) = collect_complete_tool_call_group(
                    &input,
                    idx,
                    last_reasoning.take(),
                );
                let mut group = group;
                let ghost added = group.deep_view();
                proof {
                    lemma_group_advances(items, i);
                }
                messages.append(&mut group);
                idx = next_idx;
                proof {
                    assert(messages.deep_view() == before + added);
                    assert(before + (added + messages_from(items, idx as int, None)) == (before
                        + added) + messages_from(items, idx as int, None));
                }
            },
            _ => {
                idx += 1;
            },
        }
    }
    assert(messages.deep_view() + messages_from(items, idx as int, last_reasoning.deep_view())
        == messages.deep_view());
    messages
}

/// The chat request that a request becomes.
pub open spec fn chat_request(request: ResponsesApiRequestView) -> ChatCompletionsRequestView {
    ChatCompletionsRequestView {
        model: request.model,
        messages: chat_messages(request.instructions, request.input),
        tools: chat_tools(request.tools),
        tool_choice: request.tool_choice,
        parallel_tool_calls: Some(request.parallel_tool_calls),
        stream: true,
        stream_options: ChatStreamOptions { include_usage: true },
        reasoning_effort: match request.reasoning {
            Some(reasoning) => reasoning.effort,
            None => None,
        },
        thinking: match request.reasoning {
            Some(_) => Some(Json::Object(member("type"@, Json::String("enabled"@)))),
            None => None,
        },
        service_tier: request.service_tier,
        prompt_cache_key: request.prompt_cache_key,
    }
}

impl ChatCompletionsRequest {
    /// Converts a request. The chat request always asks for a stream that reports usage; a
    /// request with reasoning settings asks the model to think.
    pub fn from_responses(request: ResponsesApiRequest) -> (converted: Self)
        ensures
            converted.deep_view() == chat_request(request.deep_view()),
    {
        let thinking = if request.reasoning.is_some() {
            let mut members: Vec<(String, JsonValue)> = Vec::new();
            push_member(&mut members, "type", JsonValue::String("enabled".to_string()));
            assert(member_models(members@) == member("type"@, Json::String("enabled"@)));
            Some(JsonValue::Object(members))
        } else {
            None
        };
        let reasoning_effort = match request.reasoning {
            Some(reasoning) => reasoning.effort,
            None => None,
        };
        ChatCompletionsRequest {
            model: request.model,
            messages: chat_messages_from_response_items(request.instructions, request.input),
            tools: chat_tools_from_responses_tools(&request.tools),
            tool_choice: request.tool_choice,
            parallel_tool_calls: Some(request.parallel_tool_calls),
            stream: true,
            stream_options: ChatStreamOptions { include_usage: true },
            reasoning_effort,
            thinking,
            service_tier: request.service_tier,
            prompt_cache_key: request.prompt_cache_key,
        }
    }
}

} // verus!
