//! What a call of a function returns.

use crate::chat::{ChatCompletionsRequest, ChatMessage, ChatMessageContent};
use crate::content::{
    chat_content, chat_image_detail, chat_message_content_from_content_items, chat_message_role,
    function_output_text, lines_or_none, output_message, reasoning_items_to_text, reasoning_text,
    tool_message,
};
use crate::group_laws::told_of;
use crate::headers::{
    accept_event_stream, header_contents, header_text, request_header_contents, request_headers,
    stream_headers, StreamHeaders,
};
use crate::json::JsonValue;
use crate::protocol::{
    ContentItem, FunctionCallOutputPayload, ImageDetail, ReasoningItemContent,
    ResponseEvent, ResponseItem, ResponsesApiRequest, TokenUsage,
};
use crate::report::{reasoning_report, report};
use crate::request::{chat_messages, chat_messages_from_response_items, chat_request};
use crate::session::{process_chat_completions_sse, step, StreamInput, StreamStep};
use crate::stream::{
    ensure_assistant_item_started, finish_chat_stream, handle_chat_chunk, handle_chat_delta,
    handle_tool_call_delta, non_empty_reasoning_content, token_usage, ChatChunk,
    ChatCompletionState, ChatCompletionStateView, ChatDelta, ChatDeltaToolCall, ChatUsage,
};
use crate::text::{
    decimal, decimal_text, join_lines, joined_lines, text_is, trim_text, trimmed, with_suffix,
};
use crate::tool_calls::{call_group, collect_complete_tool_call_group};
use crate::tools::{
    chat_tool, chat_tool_from_responses_tool, chat_tools, chat_tools_from_responses_tools,
};
use http::HeaderMap;
use vstd::prelude::*;
use vstd::utf8::encode_utf8;

verus! {

/// The headers of a response tell the id of the request and the state of the turn, each under its
/// own name.
pub proof fn law_response_headers(headers: &HeaderMap, read: StreamHeaders)
    requires
        call_ensures(stream_headers, (headers,), read),
    ensures
        read.upstream_request_id.deep_view() == header_text(
            header_contents(*headers),
            "x-request-id"@,
        ),
        read.turn_state.deep_view() == header_text(
            header_contents(*headers),
            "x-codex-turn-state"@,
        ),
{
}

/// A request that accepts a stream of events has that as the only value of its accept header, and
/// its other headers as they were.
pub proof fn law_accepting_headers(
    headers: HeaderMap,
    accepting: Option<HeaderMap>,
    name: Seq<char>,
)
    requires
        call_ensures(accept_event_stream, (headers,), accepting),
        accepting is Some,
    ensures
        header_contents(accepting->0).contains_key("accept"@),
        header_contents(accepting->0)["accept"@] == seq![encode_utf8("text/event-stream"@)],
        name != "accept"@ ==> {
            &&& header_contents(accepting->0).contains_key(name)
                <==> header_contents(headers).contains_key(name)
            &&& header_contents(headers).contains_key(name) ==> header_contents(accepting->0)[name]
                == header_contents(headers)[name]
        },
{
}

/// The headers of a request are gathered from what the caller, the thread, the session and the
/// subagent give.
pub proof fn law_gathered_headers(
    extra: HeaderMap,
    thread_id: Option<&str>,
    session: HeaderMap,
    subagent: Option<&str>,
    gathered: Option<HeaderMap>,
)
    requires
        call_ensures(request_headers, (extra, thread_id, session, subagent), gathered),
        gathered is Some,
    ensures
        header_contents(gathered->0) == request_header_contents(
            header_contents(extra),
            thread_id.deep_view(),
            header_contents(session),
            subagent.deep_view(),
        ),
{
}

/// Conversations, requests and tools are converted as their models are.
pub proof fn law_conversion_calls(
    instructions: String,
    input: Vec<ResponseItem>,
    messages: Vec<ChatMessage>,
    request: ResponsesApiRequest,
    converted: ChatCompletionsRequest,
    tools: &Vec<JsonValue>,
    definitions: Vec<JsonValue>,
    tool: &JsonValue,
    definition: Option<JsonValue>,
)
    requires
        call_ensures(chat_messages_from_response_items, (instructions, input), messages),
        call_ensures(ChatCompletionsRequest::from_responses, (request,), converted),
        call_ensures(chat_tools_from_responses_tools, (tools,), definitions),
        call_ensures(chat_tool_from_responses_tool, (tool,), definition),
    ensures
        messages.deep_view() == chat_messages(instructions@, input.deep_view()),
        converted.deep_view() == chat_request(request.deep_view()),
        definitions.deep_view() == chat_tools(tools.deep_view()),
        definition.deep_view() == chat_tool(tool.deep_view()),
{
}

/// A group of calls is collected as its model is, whatever position it is looked for at.
pub proof fn law_group_calls(
    input: &Vec<ResponseItem>,
    start: usize,
    preceding: Option<String>,
    collected: (usize, Vec<ChatMessage>),
)
    requires
        call_ensures(collect_complete_tool_call_group, (input, start, preceding), collected),
    ensures
        collected.0 == call_group(input.deep_view(), start as int).end,
        collected.1.deep_view() == call_group(input.deep_view(), start as int).messages(
            preceding.deep_view(),
        ),
{
}

/// The pieces of a message are converted as their models are: roles, details, content, reasoning
/// and outputs.
pub proof fn law_content_calls(
    role: &str,
    mapped: &str,
    detail: ImageDetail,
    name: String,
    items: &Vec<ContentItem>,
    content: ChatMessageContent,
    parts: Option<&Vec<ReasoningItemContent>>,
    reasoning: Option<String>,
    output: &FunctionCallOutputPayload,
    told: String,
    call_id: String,
    answer: ChatMessage,
)
    requires
        call_ensures(chat_message_role, (role,), mapped),
        call_ensures(chat_image_detail, (detail,), name),
        call_ensures(chat_message_content_from_content_items, (items,), content),
        call_ensures(reasoning_items_to_text, (parts,), reasoning),
        call_ensures(function_output_text, (output,), told),
        call_ensures(tool_message, (call_id, output), answer),
    ensures
        role@ == "developer"@ ==> mapped@ == "system"@,
        role@ != "developer"@ ==> mapped@ == role@,
        detail is High ==> name@ == "high"@,
        detail is Original ==> name@ == "auto"@,
        content.deep_view() == chat_content(items.deep_view()),
        reasoning.deep_view() == reasoning_text(parts.deep_view()),
        told@ == told_of(output.deep_view()),
        answer.deep_view() == output_message(call_id@, output.deep_view()),
{
}

/// Texts are joined, numbered, trimmed, compared and put together as their models are, and a
/// report is that of its messages.
pub proof fn law_text_calls(
    parts: &Vec<String>,
    joined: String,
    lines: Option<String>,
    value: usize,
    numeral: String,
    text: &str,
    core: &str,
    other: &str,
    same: bool,
    whole: String,
    messages: &Vec<ChatMessage>,
    written: String,
)
    requires
        call_ensures(join_lines, (parts,), joined),
        call_ensures(lines_or_none, (parts,), lines),
        call_ensures(decimal_text, (value,), numeral),
        call_ensures(trim_text, (text,), core),
        call_ensures(text_is, (text, other), same),
        call_ensures(with_suffix, (text, other), whole),
        call_ensures(reasoning_report, (messages,), written),
    ensures
        joined@ == joined_lines(parts.deep_view()),
        lines.deep_view() == if parts.deep_view().len() == 0 {
            None
        } else {
            Some(joined_lines(parts.deep_view()))
        },
        numeral@ == decimal(value as nat),
        core@ == trimmed(text@),
        same <==> text@ == other@,
        whole@ == text@ + other@,
        written@ == report(messages.deep_view()),
{
}

/// A step of a stream is taken as its model is.
pub proof fn law_session_calls(
    state: &mut ChatCompletionState,
    input: StreamInput,
    taken: StreamStep,
)
    requires
        call_ensures(process_chat_completions_sse, (state, input), taken),
    ensures
        final(state).deep_view() == step(old(state).deep_view(), input.deep_view()).0,
        taken.deep_view() == step(old(state).deep_view(), input.deep_view()).1,
{
}

/// A chunk is taken up as its model is.
pub proof fn law_chunk_calls(
    state: &mut ChatCompletionState,
    chunk: ChatChunk,
    events: Vec<ResponseEvent>,
)
    requires
        call_ensures(handle_chat_chunk, (state, chunk), events),
    ensures
        final(state).deep_view() == old(state).deep_view().add_chunk(chunk.deep_view()).state,
        events.deep_view() == old(state).deep_view().add_chunk(chunk.deep_view()).events,
{
}

/// A delta is taken up as its model is.
pub proof fn law_delta_calls(
    state: &mut ChatCompletionState,
    delta: ChatDelta,
    events: Vec<ResponseEvent>,
)
    requires
        call_ensures(handle_chat_delta, (state, delta), events),
    ensures
        final(state).deep_view() == old(state).deep_view().add_delta(delta.deep_view()).state,
        events.deep_view() == old(state).deep_view().add_delta(delta.deep_view()).events,
{
}

/// A piece of a tool call is taken up as its model is.
pub proof fn law_piece_calls(
    state: &mut ChatCompletionState,
    piece: ChatDeltaToolCall,
    events: Vec<ResponseEvent>,
)
    requires
        call_ensures(handle_tool_call_delta, (state, piece), events),
    ensures
        final(state).deep_view() == old(state).deep_view().add_tool_call(piece.deep_view()).state,
        events.deep_view() == old(state).deep_view().add_tool_call(piece.deep_view()).events,
{
}

/// The message item is started as its model is.
pub proof fn law_start_calls(state: &mut ChatCompletionState, events: Vec<ResponseEvent>)
    requires
        call_ensures(ensure_assistant_item_started, (state,), events),
    ensures
        final(state).deep_view() == old(state).deep_view().start_item().state,
        events.deep_view() == old(state).deep_view().start_item().events,
{
}

/// A response is finished as its model is.
pub proof fn law_finish_calls(state: &mut ChatCompletionState, events: Vec<ResponseEvent>)
    requires
        call_ensures(finish_chat_stream, (state,), events),
    ensures
        final(state).deep_view() == old(state).deep_view().finish().state,
        events.deep_view() == old(state).deep_view().finish().events,
{
}

/// The reasoning of a response is that of its model, and a usage is converted count by count.
pub proof fn law_state_calls(
    state: &ChatCompletionState,
    reasoning: Option<String>,
    fresh: ChatCompletionState,
    given: ChatUsage,
    usage: TokenUsage,
)
    requires
        call_ensures(non_empty_reasoning_content, (state,), reasoning),
        call_ensures(ChatCompletionState::default, (), fresh),
        call_ensures(TokenUsage::from, (given,), usage),
    ensures
        reasoning.deep_view() == state.deep_view().reasoning(),
        fresh.deep_view() == ChatCompletionStateView::initial(),
        usage == token_usage(given),
{
}

/// Values go onto the wire as their models do.
pub proof fn law_wire_calls(
    request: &ChatCompletionsRequest,
    body: JsonValue,
    message: &ChatMessage,
    value: JsonValue,
)
    requires
        call_ensures(ChatCompletionsRequest::to_json, (request,), body),
        call_ensures(ChatMessage::to_json, (message,), value),
    ensures
        body.deep_view() == request.deep_view().json(),
        value.deep_view() == message.deep_view().json(),
{
}

} // verus!
