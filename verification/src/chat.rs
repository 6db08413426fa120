//! The request that the Chat Completions endpoint takes, and its JSON form.

use crate::json::{
    json_models, lemma_json_models, member, member_models, optional_member, optional_string,
    optional_text, push_member, push_optional_member, Json, JsonValue,
};
use vstd::prelude::*;

verus! {

/// The body of a request.
#[derive(Debug, PartialEq, Eq)]
pub struct ChatCompletionsRequest {
    pub model: String,
    pub messages: Vec<ChatMessage>,
    pub tools: Vec<JsonValue>,
    pub tool_choice: String,
    pub parallel_tool_calls: Option<bool>,
    pub stream: bool,
    pub stream_options: ChatStreamOptions,
    pub reasoning_effort: Option<String>,
    pub thinking: Option<JsonValue>,
    pub service_tier: Option<String>,
    pub prompt_cache_key: Option<String>,
}

/// What the stream is to carry besides the response.
#[derive(Debug, Clone, Copy, PartialEq, Eq, Structural)]
pub struct ChatStreamOptions {
    pub include_usage: bool,
}

/// One message of a chat.
#[derive(Debug, PartialEq, Eq)]
pub struct ChatMessage {
    pub role: String,
    pub content: Option<ChatMessageContent>,
    pub reasoning_content: Option<String>,
    pub tool_calls: Option<Vec<ChatToolCall>>,
    pub tool_call_id: Option<String>,
}

/// The content of a message: plain text, or a list of parts.
#[derive(Debug, PartialEq, Eq)]
pub enum ChatMessageContent {
    Text(String),
    Parts(Vec<ChatContentPart>),
}

/// One part of a message's content.
#[derive(Debug, PartialEq, Eq)]
pub enum ChatContentPart {
    Text { text: String },
    ImageUrl { image_url: ChatImageUrl },
}

/// Where an image is found, and how closely to look at it.
#[derive(Debug, PartialEq, Eq)]
pub struct ChatImageUrl {
    pub url: String,
    pub detail: Option<String>,
}

/// A tool call that the assistant made.
#[derive(Debug, PartialEq, Eq)]
pub struct ChatToolCall {
    pub id: String,
    pub kind: &'static str,
    pub function: ChatFunctionCall,
}

/// The function that a tool call names, and what it passes.
#[derive(Debug, PartialEq, Eq)]
pub struct ChatFunctionCall {
    pub name: String,
    pub arguments: String,
}

/// The model of a [`ChatCompletionsRequest`].
pub struct ChatCompletionsRequestView {
    pub model: Seq<char>,
    pub messages: Seq<ChatMessageView>,
    pub tools: Seq<Json>,
    pub tool_choice: Seq<char>,
    pub parallel_tool_calls: Option<bool>,
    pub stream: bool,
    pub stream_options: ChatStreamOptions,
    pub reasoning_effort: Option<Seq<char>>,
    pub thinking: Option<Json>,
    pub service_tier: Option<Seq<char>>,
    pub prompt_cache_key: Option<Seq<char>>,
}

/// The model of a [`ChatMessage`].
pub struct ChatMessageView {
    pub role: Seq<char>,
    pub content: Option<ChatMessageContentView>,
    pub reasoning_content: Option<Seq<char>>,
    pub tool_calls: Option<Seq<ChatToolCallView>>,
    pub tool_call_id: Option<Seq<char>>,
}

/// The model of a [`ChatMessageContent`].
pub enum ChatMessageContentView {
    Text(Seq<char>),
    Parts(Seq<ChatContentPartView>),
}

/// The model of a [`ChatContentPart`].
pub enum ChatContentPartView {
    Text { text: Seq<char> },
    ImageUrl { image_url: ChatImageUrlView },
}

/// The model of a [`ChatImageUrl`].
pub struct ChatImageUrlView {
    pub url: Seq<char>,
    pub detail: Option<Seq<char>>,
}

/// The model of a [`ChatToolCall`].
pub struct ChatToolCallView {
    pub id: Seq<char>,
    pub kind: Seq<char>,
    pub function: ChatFunctionCallView,
}

/// The model of a [`ChatFunctionCall`].
pub struct ChatFunctionCallView {
    pub name: Seq<char>,
    pub arguments: Seq<char>,
}

impl DeepView for ChatCompletionsRequest {
    type V = ChatCompletionsRequestView;

    open spec fn deep_view(&self) -> ChatCompletionsRequestView {
        ChatCompletionsRequestView {
            model: self.model@,
            messages: self.messages.deep_view(),
            tools: self.tools.deep_view(),
            tool_choice: self.tool_choice@,
            parallel_tool_calls: self.parallel_tool_calls,
            stream: self.stream,
            stream_options: self.stream_options,
            reasoning_effort: self.reasoning_effort.deep_view(),
            thinking: self.thinking.deep_view(),
            service_tier: self.service_tier.deep_view(),
            prompt_cache_key: self.prompt_cache_key.deep_view(),
        }
    }
}

impl DeepView for ChatMessage {
    type V = ChatMessageView;

    open spec fn deep_view(&self) -> ChatMessageView {
        ChatMessageView {
            role: self.role@,
            content: self.content.deep_view(),
            reasoning_content: self.reasoning_content.deep_view(),
            tool_calls: self.tool_calls.deep_view(),
            tool_call_id: self.tool_call_id.deep_view(),
        }
    }
}

impl DeepView for ChatMessageContent {
    type V = ChatMessageContentView;

    open spec fn deep_view(&self) -> ChatMessageContentView {
        match *self {
            ChatMessageContent::Text(text) => ChatMessageContentView::Text(text@),
            ChatMessageContent::Parts(parts) => ChatMessageContentView::Parts(parts.deep_view()),
        }
    }
}

impl DeepView for ChatContentPart {
    type V = ChatContentPartView;

    open spec fn deep_view(&self) -> ChatContentPartView {
        match *self {
            ChatContentPart::Text { text } => ChatContentPartView::Text { text: text@ },
            ChatContentPart::ImageUrl { image_url } => ChatContentPartView::ImageUrl {
                image_url: image_url.deep_view(),
            },
        }
    }
}

impl DeepView for ChatImageUrl {
    type V = ChatImageUrlView;

    open spec fn deep_view(&self) -> ChatImageUrlView {
        ChatImageUrlView { url: self.url@, detail: self.detail.deep_view() }
    }
}

impl DeepView for ChatToolCall {
    type V = ChatToolCallView;

    open spec fn deep_view(&self) -> ChatToolCallView {
        ChatToolCallView { id: self.id@, kind: self.kind@, function: self.function.deep_view() }
    }
}

impl DeepView for ChatFunctionCall {
    type V = ChatFunctionCallView;

    open spec fn deep_view(&self) -> ChatFunctionCallView {
        ChatFunctionCallView { name: self.name@, arguments: self.arguments@ }
    }
}

impl ChatImageUrlView {
    /// The JSON form of an image's place.
    pub open spec fn json(self) -> Json {
        Json::Object(
            seq![("url"@, Json::String(self.url))] + optional_member(
                "detail"@,
                optional_text(self.detail),
            ),
        )
    }
}

impl ChatContentPartView {
    /// The JSON form of a content part: its kind, then what it holds.
    pub open spec fn json(self) -> Json {
        match self {
            ChatContentPartView::Text { text } => Json::Object(
                seq![("type"@, Json::String("text"@)), ("text"@, Json::String(text))],
            ),
            ChatContentPartView::ImageUrl { image_url } => Json::Object(
                seq![("type"@, Json::String("image_url"@)), ("image_url"@, image_url.json())],
            ),
        }
    }
}

impl ChatMessageContentView {
    /// The JSON form of a message's content: a string, or an array of parts.
    pub open spec fn json(self) -> Json {
        match self {
            ChatMessageContentView::Text(text) => Json::String(text),
            ChatMessageContentView::Parts(parts) => Json::Array(
                parts.map_values(|part: ChatContentPartView| part.json()),
            ),
        }
    }
}

impl ChatToolCallView {
    /// The JSON form of a tool call.
    pub open spec fn json(self) -> Json {
        Json::Object(
            seq![
                ("id"@, Json::String(self.id)),
                ("type"@, Json::String(self.kind)),
                (
                    "function"@,
                    Json::Object(
                        seq![
                            ("name"@, Json::String(self.function.name)),
                            ("arguments"@, Json::String(self.function.arguments)),
                        ],
                    ),
                ),
            ],
        )
    }
}

impl ChatMessageView {
    /// The JSON form of a message. What the message does not have is left out.
    pub open spec fn json(self) -> Json {
        Json::Object(
            seq![("role"@, Json::String(self.role))] + optional_member(
                "content"@,
                match self.content {
                    Some(content) => Some(content.json()),
                    None => None,
                },
            ) + optional_member("reasoning_content"@, optional_text(self.reasoning_content))
                + optional_member(
                "tool_calls"@,
                match self.tool_calls {
                    Some(calls) => Some(
                        Json::Array(calls.map_values(|call: ChatToolCallView| call.json())),
                    ),
                    None => None,
                },
            ) + optional_member("tool_call_id"@, optional_text(self.tool_call_id)),
        )
    }
}

impl ChatCompletionsRequestView {
    /// The JSON form of a request. What the request does not have is left out, and so is an
    /// empty list of tools.
    pub open spec fn json(self) -> Json {
        Json::Object(
            Seq::empty() + member("model"@, Json::String(self.model)) + member(
                "messages"@,
                Json::Array(self.messages.map_values(|message: ChatMessageView| message.json())),
            ) + optional_member(
                "tools"@,
                if self.tools.len() == 0 {
                    None
                } else {
                    Some(Json::Array(self.tools))
                },
            ) + member("tool_choice"@, Json::String(self.tool_choice)) + optional_member(
                "parallel_tool_calls"@,
                match self.parallel_tool_calls {
                    Some(flag) => Some(Json::Bool(flag)),
                    None => None,
                },
            ) + member("stream"@, Json::Bool(self.stream)) + member(
                "stream_options"@,
                Json::Object(
                    member("include_usage"@, Json::Bool(self.stream_options.include_usage)),
                ),
            ) + optional_member("reasoning_effort"@, optional_text(self.reasoning_effort))
                + optional_member("thinking"@, self.thinking) + optional_member(
                "service_tier"@,
                optional_text(self.service_tier),
            ) + optional_member("prompt_cache_key"@, optional_text(self.prompt_cache_key)),
        )
    }
}

impl ChatImageUrl {
    /// Writes an image's place as JSON.
    pub fn to_json(&self) -> (value: JsonValue)
        ensures
            value.deep_view() == self.deep_view().json(),
    {
        let mut members: Vec<(String, JsonValue)> = Vec::new();
        push_member(&mut members, "url", JsonValue::String(self.url.clone()));
        push_optional_member(&mut members, "detail", optional_string(&self.detail));
        assert(member_models(members@) == self.deep_view().json()->Object_0);
        JsonValue::Object(members)
    }
}

impl ChatContentPart {
    /// Writes a content part as JSON.
    pub fn to_json(&self) -> (value: JsonValue)
        ensures
            value.deep_view() == self.deep_view().json(),
    {
        let mut members: Vec<(String, JsonValue)> = Vec::new();
        match self {
            ChatContentPart::Text { text } => {
                push_member(&mut members, "type", JsonValue::String("text".to_string()));
                push_member(&mut members, "text", JsonValue::String(text.clone()));
            },
            ChatContentPart::ImageUrl { image_url } => {
                push_member(&mut members, "type", JsonValue::String("image_url".to_string()));
                push_member(&mut members, "image_url", image_url.to_json());
            },
        }
        assert(member_models(members@) == self.deep_view().json()->Object_0);
        JsonValue::Object(members)
    }
}

impl ChatMessageContent {
    /// Writes a message's content as JSON.
    pub fn to_json(&self) -> (value: JsonValue)
        ensures
            value.deep_view() == self.deep_view().json(),
    {
        match self {
            ChatMessageContent::Text(text) => JsonValue::String(text.clone()),
            ChatMessageContent::Parts(parts) => {
                let mut values: Vec<JsonValue> = Vec::new();
                let mut next: usize = 0;
                while next < parts.len()
                    invariant
                        next <= parts.len(),
                        values.len() == next,
                        forall|i: int|
                            0 <= i < next ==> values[i].deep_view() == parts[i].deep_view().json(),
                    decreases parts.len() - next,
                {
                    values.push(parts[next].to_json());
                    next += 1;
                }
                proof {
                    lemma_json_models(values@);
                    assert(json_models(values@) == parts.deep_view().map_values(
                        |part: ChatContentPartView| part.json(),
                    ));
                }
                JsonValue::Array(values)
            },
        }
    }
}

impl ChatToolCall {
    /// Writes a tool call as JSON.
    pub fn to_json(&self) -> (value: JsonValue)
        ensures
            value.deep_view() == self.deep_view().json(),
    {
        let mut function: Vec<(String, JsonValue)> = Vec::new();
        push_member(&mut function, "name", JsonValue::String(self.function.name.clone()));
        push_member(&mut function, "arguments", JsonValue::String(self.function.arguments.clone()));
        let ghost function_model = member_models(function@);
        let mut members: Vec<(String, JsonValue)> = Vec::new();
        push_member(&mut members, "id", JsonValue::String(self.id.clone()));
        push_member(&mut members, "type", JsonValue::String(self.kind.to_string()));
        push_member(&mut members, "function", JsonValue::Object(function));
        proof {
            let expected = self.deep_view().json()->Object_0;
            assert(function_model == expected[2].1->Object_0);
            assert(member_models(members@) == expected);
        }
        JsonValue::Object(members)
    }
}

/// Writes tool calls as a JSON array.
fn calls_to_json(calls: &Vec<ChatToolCall>) -> (value: JsonValue)
    ensures
        value.deep_view() == Json::Array(
            calls.deep_view().map_values(|call: ChatToolCallView| call.json()),
        ),
{
    let mut values: Vec<JsonValue> = Vec::new();
    let mut next: usize = 0;
    while next < calls.len()
        invariant
            next <= calls.len(),
            values.len() == next,
            forall|i: int| 0 <= i < next ==> values[i].deep_view() == calls[i].deep_view().json(),
        decreases calls.len() - next,
    {
        values.push(calls[next].to_json());
        next += 1;
    }
    proof {
        lemma_json_models(values@);
        assert(json_models(values@) == calls.deep_view().map_values(
            |call: ChatToolCallView| call.json(),
        ));
    }
    JsonValue::Array(values)
}

impl ChatMessage {
    /// Writes a message as JSON.
    pub fn to_json(&self) -> (value: JsonValue)
        ensures
            value.deep_view() == self.deep_view().json(),
    {
        let content = match &self.content {
            Some(content) => Some(content.to_json()),
            None => None,
        };
        let tool_calls = match &self.tool_calls {
            Some(calls) => Some(calls_to_json(calls)),
            None => None,
        };
        let mut members: Vec<(String, JsonValue)> = Vec::new();
        push_member(&mut members, "role", JsonValue::String(self.role.clone()));
        push_optional_member(&mut members, "content", content);
        push_optional_member(
            &mut members,
            "reasoning_content",
            optional_string(&self.reasoning_content),
        );
        push_optional_member(&mut members, "tool_calls", tool_calls);
        push_optional_member(&mut members, "tool_call_id", optional_string(&self.tool_call_id));
        assert(member_models(members@) == self.deep_view().json()->Object_0);
        JsonValue::Object(members)
    }
}

/// Writes messages as a JSON array.
fn messages_to_json(messages: &Vec<ChatMessage>) -> (value: JsonValue)
    ensures
        value.deep_view() == Json::Array(
            messages.deep_view().map_values(|message: ChatMessageView| message.json()),
        ),
{
    let mut values: Vec<JsonValue> = Vec::new();
    let mut next: usize = 0;
    while next < messages.len()
        invariant
            next <= messages.len(),
            values.len() == next,
            forall|i: int|
                0 <= i < next ==> values[i].deep_view() == messages[i].deep_view().json(),
        decreases messages.len() - next,
    {
        values.push(messages[next].to_json());
        next += 1;
    }
    proof {
        lemma_json_models(values@);
        assert(json_models(values@) == messages.deep_view().map_values(
            |message: ChatMessageView| message.json(),
        ));
    }
    JsonValue::Array(values)
}

impl ChatCompletionsRequest {
    /// Writes the request as the JSON object that is sent.
    pub fn to_json(&self) -> (value: JsonValue)
        ensures
            value.deep_view() == self.deep_view().json(),
    {
        let tools = if self.tools.len() == 0 {
            None
        } else {
            let copies = self.tools.clone();
            proof {
                lemma_json_models(copies@);
                assert(json_models(copies@) == self.tools.deep_view());
            }
            Some(JsonValue::Array(copies))
        };
        let parallel_tool_calls = match self.parallel_tool_calls {
            Some(flag) => Some(JsonValue::Bool(flag)),
            None => None,
        };
        let thinking = match &self.thinking {
            Some(value) => Some(value.duplicate()),
            None => None,
        };
        let mut stream_options: Vec<(String, JsonValue)> = Vec::new();
        push_member(
            &mut stream_options,
            "include_usage",
            JsonValue::Bool(self.stream_options.include_usage),
        );
        assert(member_models(stream_options@) == member(
            "include_usage"@,
            Json::Bool(self.stream_options.include_usage),
        ));
        let mut members: Vec<(String, JsonValue)> = Vec::new();
        push_member(&mut members, "model", JsonValue::String(self.model.clone()));
        push_member(&mut members, "messages", messages_to_json(&self.messages));
        push_optional_member(&mut members, "tools", tools);
        push_member(&mut members, "tool_choice", JsonValue::String(self.tool_choice.clone()));
        push_optional_member(&mut members, "parallel_tool_calls", parallel_tool_calls);
        push_member(&mut members, "stream", JsonValue::Bool(self.stream));
        push_member(&mut members, "stream_options", JsonValue::Object(stream_options));
        push_optional_member(
            &mut members,
            "reasoning_effort",
            optional_string(&self.reasoning_effort),
        );
        push_optional_member(&mut members, "thinking", thinking);
        push_optional_member(&mut members, "service_tier", optional_string(&self.service_tier));
        push_optional_member(
            &mut members,
            "prompt_cache_key",
            optional_string(&self.prompt_cache_key),
        );
        JsonValue::Object(members)
    }
}

} // verus!
