//! A model keeps everything that its value holds: every kind, and every field under its own name.

use crate::chat::{
    ChatCompletionsRequest, ChatContentPart, ChatContentPartView, ChatImageUrl, ChatMessage,
    ChatMessageContent, ChatMessageContentView, ChatToolCall,
};
use crate::protocol::{
    ApiError, ApiErrorView, ContentItem, ContentItemView, EncodedItems, EncodedItemsView,
    FunctionCallOutputBody, FunctionCallOutputBodyView, FunctionCallOutputPayload, ImageDetail,
    ReasoningItemContent, ReasoningItemContentView, ResponseEvent, ResponseEventView,
    ResponseItem, ResponseItemView, ResponsesApiRequest, TokenUsage,
};
use crate::session::{
    NextAction, NextActionView, StreamInput, StreamInputView, StreamStep,
};
use crate::stream::{
    ChatChoice, ChatChunk, ChatDelta, ChatDeltaFunctionCall, ChatDeltaToolCall,
};
use vstd::prelude::*;

verus! {

/// Content items, parts of reasoning and details of images.
pub proof fn law_content_models(
    item: ContentItem,
    part: ReasoningItemContent,
    detail: ImageDetail,
)
    ensures
        item matches ContentItem::InputText { text } ==> item.deep_view() == (
        ContentItemView::InputText { text: text@ }),
        item matches ContentItem::OutputText { text } ==> item.deep_view() == (
        ContentItemView::OutputText { text: text@ }),
        item matches ContentItem::InputImage { image_url, detail } ==> item.deep_view() == (
        ContentItemView::InputImage { image_url: image_url@, detail }),
        part matches ReasoningItemContent::ReasoningText { text } ==> part.deep_view() == (
        ReasoningItemContentView::ReasoningText { text: text@ }),
        part matches ReasoningItemContent::Text { text } ==> part.deep_view() == (
        ReasoningItemContentView::Text { text: text@ }),
        detail.deep_view() == detail,
{
}

/// Outputs of tool calls.
pub proof fn law_output_models(
    items: EncodedItems,
    body: FunctionCallOutputBody,
    output: FunctionCallOutputPayload,
)
    ensures
        items matches EncodedItems::Json(text) ==> items.deep_view() == EncodedItemsView::Json(
            text@,
        ),
        items matches EncodedItems::Failed(text) ==> items.deep_view() == EncodedItemsView::Failed(
            text@,
        ),
        body matches FunctionCallOutputBody::Text(text) ==> body.deep_view()
            == FunctionCallOutputBodyView::Text(text@),
        body matches FunctionCallOutputBody::ContentItems(encoded) ==> body.deep_view()
            == FunctionCallOutputBodyView::ContentItems(encoded.deep_view()),
        output.deep_view().body == output.body.deep_view(),
        output.deep_view().success == output.success,
{
}

/// Items of a conversation.
pub proof fn law_item_models(item: ResponseItem)
    ensures
        item matches ResponseItem::Message { id, role, content, phase, reasoning_content } ==> {
            let model = item.deep_view();
            &&& model is Message
            &&& model->Message_id == id.deep_view()
            &&& model->Message_role == role@
            &&& model->Message_content == content.deep_view()
            &&& model->Message_phase == phase.deep_view()
            &&& model->Message_reasoning_content == reasoning_content.deep_view()
        },
        item matches ResponseItem::Reasoning { id, summary, content, encrypted_content } ==> {
            let model = item.deep_view();
            &&& model is Reasoning
            &&& model->Reasoning_id == id@
            &&& model->Reasoning_summary == summary.deep_view()
            &&& model->Reasoning_content == content.deep_view()
            &&& model->Reasoning_encrypted_content == encrypted_content.deep_view()
        },
        item matches ResponseItem::FunctionCall {
            id,
            name,
            namespace,
            arguments,
            call_id,
            reasoning_content,
        } ==> {
            let model = item.deep_view();
            &&& model is FunctionCall
            &&& model->FunctionCall_id == id.deep_view()
            &&& model->FunctionCall_name == name@
            &&& model->FunctionCall_namespace == namespace.deep_view()
            &&& model->FunctionCall_arguments == arguments@
            &&& model->FunctionCall_call_id == call_id@
            &&& model->FunctionCall_reasoning_content == reasoning_content.deep_view()
        },
        item matches ResponseItem::CustomToolCall { call_id, name, input, reasoning_content } ==> {
            let model = item.deep_view();
            &&& model is CustomToolCall
            &&& model->CustomToolCall_call_id == call_id@
            &&& model->CustomToolCall_name == name@
            &&& model->CustomToolCall_input == input@
            &&& model->CustomToolCall_reasoning_content == reasoning_content.deep_view()
        },
        item matches ResponseItem::FunctionCallOutput { call_id, output } ==> item.deep_view() == (
        ResponseItemView::FunctionCallOutput { call_id: call_id@, output: output.deep_view() }),
        item matches ResponseItem::CustomToolCallOutput { call_id, output } ==> item.deep_view()
            == (ResponseItemView::CustomToolCallOutput {
            call_id: call_id@,
            output: output.deep_view(),
        }),
        item is LocalShellCall <==> item.deep_view() is LocalShellCall,
        item is ToolSearchCall <==> item.deep_view() is ToolSearchCall,
        item is ToolSearchOutput <==> item.deep_view() is ToolSearchOutput,
        item is WebSearchCall <==> item.deep_view() is WebSearchCall,
        item is ImageGenerationCall <==> item.deep_view() is ImageGenerationCall,
        item is Compaction <==> item.deep_view() is Compaction,
        item is ContextCompaction <==> item.deep_view() is ContextCompaction,
        item is CompactionTrigger <==> item.deep_view() is CompactionTrigger,
        item is Other <==> item.deep_view() is Other,
{
}

/// Requests in the form of the Responses API.
pub proof fn law_request_models(request: ResponsesApiRequest)
    ensures
        request.deep_view().model == request.model@,
        request.deep_view().instructions == request.instructions@,
        request.deep_view().input == request.input.deep_view(),
        request.deep_view().tools == request.tools.deep_view(),
        request.deep_view().tool_choice == request.tool_choice@,
        request.deep_view().parallel_tool_calls == request.parallel_tool_calls,
        request.deep_view().reasoning is Some <==> request.reasoning is Some,
        request.reasoning is Some ==> request.deep_view().reasoning->0.effort
            == request.reasoning->0.effort.deep_view(),
        request.deep_view().service_tier == request.service_tier.deep_view(),
        request.deep_view().prompt_cache_key == request.prompt_cache_key.deep_view(),
{
}

/// Events, usage and failures.
pub proof fn law_event_models(event: ResponseEvent, usage: TokenUsage, error: ApiError)
    ensures
        event is Created <==> event.deep_view() is Created,
        event matches ResponseEvent::OutputItemAdded(item) ==> event.deep_view()
            == ResponseEventView::OutputItemAdded(item.deep_view()),
        event matches ResponseEvent::OutputItemDone(item) ==> event.deep_view()
            == ResponseEventView::OutputItemDone(item.deep_view()),
        event matches ResponseEvent::OutputTextDelta(text) ==> event.deep_view()
            == ResponseEventView::OutputTextDelta(text@),
        event matches ResponseEvent::ToolCallInputDelta { item_id, call_id, delta } ==> {
            let model = event.deep_view();
            &&& model is ToolCallInputDelta
            &&& model->item_id == item_id@
            &&& model->call_id == call_id.deep_view()
            &&& model->delta == delta@
        },
        event matches ResponseEvent::Completed { response_id, token_usage, end_turn } ==> {
            let model = event.deep_view();
            &&& model is Completed
            &&& model->response_id == response_id@
            &&& model->token_usage == token_usage
            &&& model->end_turn == end_turn
        },
        usage.deep_view() == usage,
        error matches ApiError::Stream(message) ==> error.deep_view() == ApiErrorView::Stream(
            message@,
        ),
{
}

/// Chat requests and messages.
pub proof fn law_chat_models(
    request: ChatCompletionsRequest,
    message: ChatMessage,
    call: ChatToolCall,
)
    ensures
        request.deep_view().model == request.model@,
        request.deep_view().messages == request.messages.deep_view(),
        request.deep_view().tools == request.tools.deep_view(),
        request.deep_view().tool_choice == request.tool_choice@,
        request.deep_view().parallel_tool_calls == request.parallel_tool_calls,
        request.deep_view().stream == request.stream,
        request.deep_view().stream_options == request.stream_options,
        request.deep_view().reasoning_effort == request.reasoning_effort.deep_view(),
        request.deep_view().thinking == request.thinking.deep_view(),
        request.deep_view().service_tier == request.service_tier.deep_view(),
        request.deep_view().prompt_cache_key == request.prompt_cache_key.deep_view(),
        message.deep_view().role == message.role@,
        message.deep_view().content == message.content.deep_view(),
        message.deep_view().reasoning_content == message.reasoning_content.deep_view(),
        message.deep_view().tool_calls == message.tool_calls.deep_view(),
        message.deep_view().tool_call_id == message.tool_call_id.deep_view(),
        call.deep_view().id == call.id@,
        call.deep_view().kind == call.kind@,
        call.deep_view().function.name == call.function.name@,
        call.deep_view().function.arguments == call.function.arguments@,
{
}

/// The content of chat messages.
pub proof fn law_chat_content_models(
    content: ChatMessageContent,
    part: ChatContentPart,
    image: ChatImageUrl,
)
    ensures
        content matches ChatMessageContent::Text(text) ==> content.deep_view()
            == ChatMessageContentView::Text(text@),
        content matches ChatMessageContent::Parts(parts) ==> content.deep_view()
            == ChatMessageContentView::Parts(parts.deep_view()),
        part matches ChatContentPart::Text { text } ==> part.deep_view() == (
        ChatContentPartView::Text { text: text@ }),
        part matches ChatContentPart::ImageUrl { image_url } ==> part.deep_view() == (
        ChatContentPartView::ImageUrl { image_url: image_url.deep_view() }),
        image.deep_view().url == image.url@,
        image.deep_view().detail == image.detail.deep_view(),
{
}

/// Chunks of a stream.
pub proof fn law_chunk_models(
    chunk: ChatChunk,
    choice: ChatChoice,
    delta: ChatDelta,
    piece: ChatDeltaToolCall,
    function: ChatDeltaFunctionCall,
)
    ensures
        chunk.deep_view().id == chunk.id.deep_view(),
        chunk.deep_view().choices == chunk.choices.deep_view(),
        chunk.deep_view().usage == chunk.usage,
        choice.deep_view().delta == choice.delta.deep_view(),
        delta.deep_view().content == delta.content.deep_view(),
        delta.deep_view().reasoning_content == delta.reasoning_content.deep_view(),
        delta.deep_view().tool_calls == delta.tool_calls.deep_view(),
        piece.deep_view().index == piece.index,
        piece.deep_view().id == piece.id.deep_view(),
        piece.deep_view().function == piece.function.deep_view(),
        function.deep_view().name == function.name.deep_view(),
        function.deep_view().arguments == function.arguments.deep_view(),
{
}

/// What a driver reports and what it is told.
pub proof fn law_session_models(input: StreamInput, next: NextAction, step: StreamStep)
    ensures
        input is Opened <==> input.deep_view() is Opened,
        input matches StreamInput::Data(data) ==> input.deep_view() == StreamInputView::Data(data@),
        input matches StreamInput::Decoded(chunk) ==> input.deep_view() == StreamInputView::Decoded(
            chunk.deep_view(),
        ),
        input matches StreamInput::Failed(message) ==> input.deep_view() == StreamInputView::Failed(
            message@,
        ),
        input is Closed <==> input.deep_view() is Closed,
        input is IdleTimeout <==> input.deep_view() is IdleTimeout,
        next is Poll <==> next.deep_view() is Poll,
        next is Stop <==> next.deep_view() is Stop,
        next matches NextAction::Decode(data) ==> next.deep_view() == NextActionView::Decode(data@),
        step.deep_view().events == step.events.deep_view(),
        step.deep_view().failure == step.failure.deep_view(),
        step.deep_view().next == step.next.deep_view(),
{
}

} // verus!
