//! The conversation items, requests and events that the adapter works on, each with its model.
//!
//! A type `T` that holds text has a model `TView`, in which every text is a sequence of
//! characters; `deep_view` leads from the one to the other.

use crate::json::{Json, JsonValue};
use vstd::prelude::*;

verus! {

/// How closely the model is to look at an image.
#[derive(Debug, Clone, Copy, PartialEq, Eq, Structural)]
pub enum ImageDetail {
    Original,
    High,
}

impl DeepView for ImageDetail {
    type V = ImageDetail;

    open spec fn deep_view(&self) -> ImageDetail {
        *self
    }
}

/// One part of a message.
#[derive(Debug, Clone, PartialEq, Eq)]
pub enum ContentItem {
    InputText { text: String },
    InputImage { image_url: String, detail: Option<ImageDetail> },
    OutputText { text: String },
}

/// The model of a [`ContentItem`].
pub enum ContentItemView {
    InputText { text: Seq<char> },
    InputImage { image_url: Seq<char>, detail: Option<ImageDetail> },
    OutputText { text: Seq<char> },
}

impl DeepView for ContentItem {
    type V = ContentItemView;

    open spec fn deep_view(&self) -> ContentItemView {
        match *self {
            ContentItem::InputText { text } => ContentItemView::InputText { text: text@ },
            ContentItem::InputImage { image_url, detail } => ContentItemView::InputImage {
                image_url: image_url@,
                detail,
            },
            ContentItem::OutputText { text } => ContentItemView::OutputText { text: text@ },
        }
    }
}

/// One part of a reasoning item.
#[derive(Debug, Clone, PartialEq, Eq)]
pub enum ReasoningItemContent {
    ReasoningText { text: String },
    Text { text: String },
}

/// The model of a [`ReasoningItemContent`].
pub enum ReasoningItemContentView {
    ReasoningText { text: Seq<char> },
    Text { text: Seq<char> },
}

impl DeepView for ReasoningItemContent {
    type V = ReasoningItemContentView;

    open spec fn deep_view(&self) -> ReasoningItemContentView {
        match *self {
            ReasoningItemContent::ReasoningText { text } => {
                ReasoningItemContentView::ReasoningText { text: text@ }
            },
            ReasoningItemContent::Text { text } => ReasoningItemContentView::Text { text: text@ },
        }
    }
}

/// Content items in the form in which they travel: their JSON encoding or, where they could not
/// be encoded, the encoder's message.
#[derive(Debug, Clone, PartialEq, Eq)]
pub enum EncodedItems {
    Json(String),
    Failed(String),
}

/// What a tool call returned: text, or content items.
#[derive(Debug, Clone, PartialEq, Eq)]
pub enum FunctionCallOutputBody {
    Text(String),
    ContentItems(EncodedItems),
}

/// The model of an [`EncodedItems`].
pub enum EncodedItemsView {
    Json(Seq<char>),
    Failed(Seq<char>),
}

/// The model of a [`FunctionCallOutputBody`].
pub enum FunctionCallOutputBodyView {
    Text(Seq<char>),
    ContentItems(EncodedItemsView),
}

impl DeepView for EncodedItems {
    type V = EncodedItemsView;

    open spec fn deep_view(&self) -> EncodedItemsView {
        match *self {
            EncodedItems::Json(encoding) => EncodedItemsView::Json(encoding@),
            EncodedItems::Failed(message) => EncodedItemsView::Failed(message@),
        }
    }
}

impl DeepView for FunctionCallOutputBody {
    type V = FunctionCallOutputBodyView;

    open spec fn deep_view(&self) -> FunctionCallOutputBodyView {
        match *self {
            FunctionCallOutputBody::Text(text) => FunctionCallOutputBodyView::Text(text@),
            FunctionCallOutputBody::ContentItems(items) => {
                FunctionCallOutputBodyView::ContentItems(items.deep_view())
            },
        }
    }
}

/// The output of a tool call.
#[derive(Debug, Clone, PartialEq, Eq)]
pub struct FunctionCallOutputPayload {
    pub body: FunctionCallOutputBody,
    pub success: Option<bool>,
}

/// The model of a [`FunctionCallOutputPayload`].
pub struct FunctionCallOutputPayloadView {
    pub body: FunctionCallOutputBodyView,
    pub success: Option<bool>,
}

impl DeepView for FunctionCallOutputPayload {
    type V = FunctionCallOutputPayloadView;

    open spec fn deep_view(&self) -> FunctionCallOutputPayloadView {
        FunctionCallOutputPayloadView { body: self.body.deep_view(), success: self.success }
    }
}

/// One item of a conversation. The variants without fields take no part in a chat
/// conversation.
#[derive(Debug, Clone, PartialEq, Eq)]
pub enum ResponseItem {
    Message {
        id: Option<String>,
        role: String,
        content: Vec<ContentItem>,
        phase: Option<String>,
        reasoning_content: Option<String>,
    },
    Reasoning {
        id: String,
        summary: Vec<String>,
        content: Option<Vec<ReasoningItemContent>>,
        encrypted_content: Option<String>,
    },
    FunctionCall {
        id: Option<String>,
        name: String,
        namespace: Option<String>,
        arguments: String,
        call_id: String,
        reasoning_content: Option<String>,
    },
    CustomToolCall {
        call_id: String,
        name: String,
        input: String,
        reasoning_content: Option<String>,
    },
    FunctionCallOutput { call_id: String, output: FunctionCallOutputPayload },
    CustomToolCallOutput { call_id: String, output: FunctionCallOutputPayload },
    LocalShellCall,
    ToolSearchCall,
    ToolSearchOutput,
    WebSearchCall,
    ImageGenerationCall,
    Compaction,
    ContextCompaction,
    CompactionTrigger,
    Other,
}

/// The model of a [`ResponseItem`].
pub enum ResponseItemView {
    Message {
        id: Option<Seq<char>>,
        role: Seq<char>,
        content: Seq<ContentItemView>,
        phase: Option<Seq<char>>,
        reasoning_content: Option<Seq<char>>,
    },
    Reasoning {
        id: Seq<char>,
        summary: Seq<Seq<char>>,
        content: Option<Seq<ReasoningItemContentView>>,
        encrypted_content: Option<Seq<char>>,
    },
    FunctionCall {
        id: Option<Seq<char>>,
        name: Seq<char>,
        namespace: Option<Seq<char>>,
        arguments: Seq<char>,
        call_id: Seq<char>,
        reasoning_content: Option<Seq<char>>,
    },
    CustomToolCall {
        call_id: Seq<char>,
        name: Seq<char>,
        input: Seq<char>,
        reasoning_content: Option<Seq<char>>,
    },
    FunctionCallOutput { call_id: Seq<char>, output: FunctionCallOutputPayloadView },
    CustomToolCallOutput { call_id: Seq<char>, output: FunctionCallOutputPayloadView },
    LocalShellCall,
    ToolSearchCall,
    ToolSearchOutput,
    WebSearchCall,
    ImageGenerationCall,
    Compaction,
    ContextCompaction,
    CompactionTrigger,
    Other,
}

impl DeepView for ResponseItem {
    type V = ResponseItemView;

    open spec fn deep_view(&self) -> ResponseItemView {
        match *self {
            ResponseItem::Message { id, role, content, phase, reasoning_content } => {
                ResponseItemView::Message {
                    id: id.deep_view(),
                    role: role@,
                    content: content.deep_view(),
                    phase: phase.deep_view(),
                    reasoning_content: reasoning_content.deep_view(),
                }
            },
            ResponseItem::Reasoning { id, summary, content, encrypted_content } => {
                ResponseItemView::Reasoning {
                    id: id@,
                    summary: summary.deep_view(),
                    content: content.deep_view(),
                    encrypted_content: encrypted_content.deep_view(),
                }
            },
            ResponseItem::FunctionCall {
                id,
                name,
                namespace,
                arguments,
                call_id,
                reasoning_content,
            } => ResponseItemView::FunctionCall {
                id: id.deep_view(),
                name: name@,
                namespace: namespace.deep_view(),
                arguments: arguments@,
                call_id: call_id@,
                reasoning_content: reasoning_content.deep_view(),
            },
            ResponseItem::CustomToolCall { call_id, name, input, reasoning_content } => {
                ResponseItemView::CustomToolCall {
                    call_id: call_id@,
                    name: name@,
                    input: input@,
                    reasoning_content: reasoning_content.deep_view(),
                }
            },
            ResponseItem::FunctionCallOutput { call_id, output } => {
                ResponseItemView::FunctionCallOutput {
                    call_id: call_id@,
                    output: output.deep_view(),
                }
            },
            ResponseItem::CustomToolCallOutput { call_id, output } => {
                ResponseItemView::CustomToolCallOutput {
                    call_id: call_id@,
                    output: output.deep_view(),
                }
            },
            ResponseItem::LocalShellCall => ResponseItemView::LocalShellCall,
            ResponseItem::ToolSearchCall => ResponseItemView::ToolSearchCall,
            ResponseItem::ToolSearchOutput => ResponseItemView::ToolSearchOutput,
            ResponseItem::WebSearchCall => ResponseItemView::WebSearchCall,
            ResponseItem::ImageGenerationCall => ResponseItemView::ImageGenerationCall,
            ResponseItem::Compaction => ResponseItemView::Compaction,
            ResponseItem::ContextCompaction => ResponseItemView::ContextCompaction,
            ResponseItem::CompactionTrigger => ResponseItemView::CompactionTrigger,
            ResponseItem::Other => ResponseItemView::Other,
        }
    }
}

/// The reasoning settings of a request. The effort is the name of a level.
#[derive(Debug, Clone, PartialEq, Eq)]
pub struct Reasoning {
    pub effort: Option<String>,
}

/// The model of a [`Reasoning`].
pub struct ReasoningView {
    pub effort: Option<Seq<char>>,
}

impl DeepView for Reasoning {
    type V = ReasoningView;

    open spec fn deep_view(&self) -> ReasoningView {
        ReasoningView { effort: self.effort.deep_view() }
    }
}

/// A request in the form of the Responses API.
#[derive(Debug, PartialEq, Eq)]
pub struct ResponsesApiRequest {
    pub model: String,
    pub instructions: String,
    pub input: Vec<ResponseItem>,
    pub tools: Vec<JsonValue>,
    pub tool_choice: String,
    pub parallel_tool_calls: bool,
    pub reasoning: Option<Reasoning>,
    pub service_tier: Option<String>,
    pub prompt_cache_key: Option<String>,
}

/// The model of a [`ResponsesApiRequest`].
pub struct ResponsesApiRequestView {
    pub model: Seq<char>,
    pub instructions: Seq<char>,
    pub input: Seq<ResponseItemView>,
    pub tools: Seq<Json>,
    pub tool_choice: Seq<char>,
    pub parallel_tool_calls: bool,
    pub reasoning: Option<ReasoningView>,
    pub service_tier: Option<Seq<char>>,
    pub prompt_cache_key: Option<Seq<char>>,
}

impl DeepView for ResponsesApiRequest {
    type V = ResponsesApiRequestView;

    open spec fn deep_view(&self) -> ResponsesApiRequestView {
        ResponsesApiRequestView {
            model: self.model@,
            instructions: self.instructions@,
            input: self.input.deep_view(),
            tools: self.tools.deep_view(),
            tool_choice: self.tool_choice@,
            parallel_tool_calls: self.parallel_tool_calls,
            reasoning: self.reasoning.deep_view(),
            service_tier: self.service_tier.deep_view(),
            prompt_cache_key: self.prompt_cache_key.deep_view(),
        }
    }
}

/// How many tokens a response took.
#[derive(Debug, Clone, Copy, PartialEq, Eq, Structural)]
pub struct TokenUsage {
    pub input_tokens: i64,
    pub cached_input_tokens: i64,
    pub output_tokens: i64,
    pub reasoning_output_tokens: i64,
    pub total_tokens: i64,
}

impl DeepView for TokenUsage {
    type V = TokenUsage;

    open spec fn deep_view(&self) -> TokenUsage {
        *self
    }
}

/// What happens while a response is streamed.
#[derive(Debug, Clone, PartialEq, Eq)]
pub enum ResponseEvent {
    Created,
    OutputItemAdded(ResponseItem),
    OutputItemDone(ResponseItem),
    OutputTextDelta(String),
    ToolCallInputDelta { item_id: String, call_id: Option<String>, delta: String },
    Completed {
        response_id: String,
        token_usage: Option<TokenUsage>,
        end_turn: Option<bool>,
    },
}

/// The model of a [`ResponseEvent`].
pub enum ResponseEventView {
    Created,
    OutputItemAdded(ResponseItemView),
    OutputItemDone(ResponseItemView),
    OutputTextDelta(Seq<char>),
    ToolCallInputDelta { item_id: Seq<char>, call_id: Option<Seq<char>>, delta: Seq<char> },
    Completed {
        response_id: Seq<char>,
        token_usage: Option<TokenUsage>,
        end_turn: Option<bool>,
    },
}

impl DeepView for ResponseEvent {
    type V = ResponseEventView;

    open spec fn deep_view(&self) -> ResponseEventView {
        match *self {
            ResponseEvent::Created => ResponseEventView::Created,
            ResponseEvent::OutputItemAdded(item) => {
                ResponseEventView::OutputItemAdded(item.deep_view())
            },
            ResponseEvent::OutputItemDone(item) => {
                ResponseEventView::OutputItemDone(item.deep_view())
            },
            ResponseEvent::OutputTextDelta(delta) => ResponseEventView::OutputTextDelta(delta@),
            ResponseEvent::ToolCallInputDelta { item_id, call_id, delta } => {
                ResponseEventView::ToolCallInputDelta {
                    item_id: item_id@,
                    call_id: call_id.deep_view(),
                    delta: delta@,
                }
            },
            ResponseEvent::Completed { response_id, token_usage, end_turn } => {
                ResponseEventView::Completed { response_id: response_id@, token_usage, end_turn }
            },
        }
    }
}

/// Why a response could not be streamed to its end.
#[derive(Debug, Clone, PartialEq, Eq)]
pub enum ApiError {
    Stream(String),
}

/// The model of an [`ApiError`].
pub enum ApiErrorView {
    Stream(Seq<char>),
}

impl DeepView for ApiError {
    type V = ApiErrorView;

    open spec fn deep_view(&self) -> ApiErrorView {
        match *self {
            ApiError::Stream(message) => ApiErrorView::Stream(message@),
        }
    }
}

} // verus!
