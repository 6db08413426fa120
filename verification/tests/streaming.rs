//! From server-sent events to response events.

use codex_api::protocol::{
    ApiError, ContentItem, FunctionCallOutputBody, FunctionCallOutputPayload,
    ReasoningItemContent, ResponseEvent, ResponseItem, TokenUsage,
};
use codex_api::request::chat_messages_from_response_items;
use codex_api::session::{process_chat_completions_sse, NextAction, StreamInput, StreamStep};
use codex_api::stream::{
    ensure_assistant_item_started, finish_chat_stream, handle_chat_chunk, handle_chat_delta,
    handle_tool_call_delta, non_empty_reasoning_content, ChatChoice, ChatChunk,
    ChatCompletionState, ChatCompletionTokensDetails, ChatDelta, ChatDeltaFunctionCall,
    ChatDeltaToolCall, ChatPromptTokensDetails, ChatUsage,
};
use eventsource_stream::Eventsource;
use futures::StreamExt;
use serde_json::Value;

fn text_at(value: &Value, key: &str) -> Option<String> {
    value.get(key).and_then(Value::as_str).map(String::from)
}

fn list_at<T>(value: &Value, key: &str, read: fn(&Value) -> T) -> Option<Vec<T>> {
    value.get(key).and_then(Value::as_array).map(|items| items.iter().map(read).collect())
}

fn number_at(value: &Value, key: &str) -> i64 {
    value.get(key).and_then(Value::as_i64).expect("a count")
}

fn read_usage(value: &Value) -> ChatUsage {
    ChatUsage {
        prompt_tokens: number_at(value, "prompt_tokens"),
        completion_tokens: number_at(value, "completion_tokens"),
        total_tokens: number_at(value, "total_tokens"),
        prompt_tokens_details: value.get("prompt_tokens_details").map(|details| {
            ChatPromptTokensDetails {
                cached_tokens: details.get("cached_tokens").and_then(Value::as_i64),
            }
        }),
        completion_tokens_details: value.get("completion_tokens_details").map(|details| {
            ChatCompletionTokensDetails {
                reasoning_tokens: details.get("reasoning_tokens").and_then(Value::as_i64),
            }
        }),
    }
}

fn read_tool_call(value: &Value) -> ChatDeltaToolCall {
    ChatDeltaToolCall {
        index: number_at(value, "index") as usize,
        id: text_at(value, "id"),
        function: value.get("function").map(|function| ChatDeltaFunctionCall {
            name: text_at(function, "name"),
            arguments: text_at(function, "arguments"),
        }),
    }
}

fn read_choice(value: &Value) -> ChatChoice {
    let delta = value.get("delta").expect("a delta");
    ChatChoice {
        delta: ChatDelta {
            content: text_at(delta, "content"),
            reasoning_content: text_at(delta, "reasoning_content"),
            tool_calls: list_at(delta, "tool_calls", read_tool_call),
        },
    }
}

fn decode(data: &str) -> Option<ChatChunk> {
    let value: Value = serde_json::from_str(data).ok()?;
    if !value.is_object() {
        return None;
    }
    Some(ChatChunk {
        id: text_at(&value, "id"),
        choices: list_at(&value, "choices", read_choice),
        usage: value.get("usage").map(read_usage),
    })
}

/// Runs a response body to its end: all events, and the failure, if there was one.
fn run_body(body: &str) -> (Vec<ResponseEvent>, Option<ApiError>) {
    let chunk: Result<bytes::Bytes, String> = Ok(bytes::Bytes::from(body.to_string()));
    let mut stream = futures::stream::iter(vec![chunk]).eventsource();
    let mut state = ChatCompletionState::default();
    let mut delivered = Vec::new();
    let mut input = StreamInput::Opened;
    loop {
        let step = process_chat_completions_sse(&mut state, input);
        delivered.extend(step.events);
        input = match step.next {
            NextAction::Stop => return (delivered, step.failure),
            NextAction::Decode(data) => StreamInput::Decoded(decode(&data)),
            NextAction::Poll => match futures::executor::block_on(stream.next()) {
                Some(Ok(event)) => StreamInput::Data(event.data),
                Some(Err(error)) => StreamInput::Failed(error.to_string()),
                None => StreamInput::Closed,
            },
        };
        assert_eq!(step.failure, None);
    }
}

fn run_sse_data(events: &[&str]) -> Vec<ResponseEvent> {
    let mut body = String::new();
    for event in events {
        let value: Value = serde_json::from_str(event).expect("valid JSON");
        body.push_str(&format!("data: {value}\n\n"));
    }
    body.push_str("data: [DONE]\n\n");
    let (events, failure) = run_body(&body);
    assert_eq!(failure, None);
    events
}

fn added(id: &str) -> ResponseEvent {
    ResponseEvent::OutputItemAdded(ResponseItem::Message {
        id: Some(id.into()),
        role: "assistant".into(),
        content: vec![],
        phase: None,
        reasoning_content: None,
    })
}

fn done_message(id: &str, text: &str, reasoning: Option<&str>) -> ResponseEvent {
    ResponseEvent::OutputItemDone(ResponseItem::Message {
        id: Some(id.into()),
        role: "assistant".into(),
        content: vec![ContentItem::OutputText { text: text.into() }],
        phase: None,
        reasoning_content: reasoning.map(String::from),
    })
}

fn done_call(name: &str, arguments: &str, id: &str, reasoning: Option<&str>) -> ResponseEvent {
    ResponseEvent::OutputItemDone(ResponseItem::FunctionCall {
        id: None,
        name: name.into(),
        namespace: None,
        arguments: arguments.into(),
        call_id: id.into(),
        reasoning_content: reasoning.map(String::from),
    })
}

fn input_delta(item_id: &str, call_id: Option<&str>, delta: &str) -> ResponseEvent {
    ResponseEvent::ToolCallInputDelta {
        item_id: item_id.into(),
        call_id: call_id.map(String::from),
        delta: delta.into(),
    }
}

fn text_delta(text: &str) -> ResponseEvent {
    ResponseEvent::OutputTextDelta(text.into())
}

fn completed(id: &str, usage: Option<TokenUsage>) -> ResponseEvent {
    ResponseEvent::Completed { response_id: id.into(), token_usage: usage, end_turn: None }
}

#[test]
fn streamed_text_uses_same_message_item_for_start_and_done() {
    let events = run_sse_data(&[
        r#"{ "id": "chatcmpl-1", "choices": [{ "delta": { "content": "**hello" } }] }"#,
        r#"{ "id": "chatcmpl-1", "choices": [{ "delta": { "content": "**" } }] }"#,
    ]);

    assert_eq!(events.len(), 6);
    assert!(matches!(&events[0], ResponseEvent::Created));
    assert!(matches!(
        &events[1],
        ResponseEvent::OutputItemAdded(ResponseItem::Message {
            id: Some(id),
            role,
            content,
            ..
        }) if id == "chatcmpl-1_message" && role == "assistant" && content.is_empty()
    ));
    assert!(matches!(
        &events[2],
        ResponseEvent::OutputTextDelta(delta) if delta == "**hello"
    ));
    assert!(matches!(
        &events[3],
        ResponseEvent::OutputTextDelta(delta) if delta == "**"
    ));
    assert!(matches!(
        &events[4],
        ResponseEvent::OutputItemDone(ResponseItem::Message {
            id: Some(id),
            role,
            content,
            ..
        }) if id == "chatcmpl-1_message"
            && role == "assistant"
            && content == &vec![ContentItem::OutputText {
                text: "**hello**".to_string()
            }]
    ));
    assert!(matches!(&events[5], ResponseEvent::Completed { .. }));
}

#[test]
fn a_stream_without_chunks_completes_at_once() {
    assert_eq!(
        run_sse_data(&[]),
        vec![ResponseEvent::Created, completed("chatcmpl_unknown", None)]
    );
}

#[test]
fn reasoning_is_carried_by_every_finished_item() {
    let events = run_sse_data(&[
        r#"{"id":"r","choices":[{"delta":{"reasoning_content":"think"}}]}"#,
        r#"{"choices":[{"delta":{"reasoning_content":"ing","content":"hi"}}]}"#,
        r#"{"choices":[{"delta":{"tool_calls":[
            {"index":0,"id":"c","function":{"name":"f","arguments":"{}"}}]}}]}"#,
    ]);
    assert_eq!(
        events,
        vec![
            ResponseEvent::Created,
            added("r_message"),
            text_delta("hi"),
            input_delta("c", Some("c"), "{}"),
            done_message("r_message", "hi", Some("thinking")),
            done_call("f", "{}", "c", Some("thinking")),
            completed("r", None),
        ]
    );
}

#[test]
fn reasoning_alone_finishes_no_item() {
    let events =
        run_sse_data(&[r#"{"id":"r","choices":[{"delta":{"reasoning_content":"hm"}}]}"#]);
    assert_eq!(events, vec![ResponseEvent::Created, completed("r", None)]);
}

#[test]
fn tool_calls_are_gathered_by_index() {
    let events = run_sse_data(&[
        r#"{"id":"r","choices":[{"delta":{"tool_calls":[
            {"index":1,"id":"b","function":{"name":"second","arguments":"{\"x\""}}]}}]}"#,
        r#"{"choices":[{"delta":{"tool_calls":[
            {"index":0,"id":"a","function":{"name":"first","arguments":""}},
            {"index":1,"function":{"arguments":":1}"}}]}}]}"#,
        r#"{"choices":[{"delta":{"tool_calls":[{"index":0,"function":{"arguments":"[]"}}]}}]}"#,
    ]);
    assert_eq!(
        events,
        vec![
            ResponseEvent::Created,
            input_delta("b", Some("b"), "{\"x\""),
            input_delta("b", Some("b"), ":1}"),
            input_delta("a", Some("a"), "[]"),
            done_call("first", "[]", "a", None),
            done_call("second", "{\"x\":1}", "b", None),
            completed("r", None),
        ]
    );
}

#[test]
fn the_last_id_and_name_of_a_call_count() {
    let events = run_sse_data(&[
        r#"{"choices":[{"delta":{"tool_calls":[
            {"index":0,"id":"old","function":{"name":"before"}}]}}]}"#,
        r#"{"choices":[{"delta":{"tool_calls":[
            {"index":0,"id":"new","function":{"name":"after"}}]}}]}"#,
        r#"{"choices":[{"delta":{"tool_calls":[{"index":0}]}}]}"#,
    ]);
    assert_eq!(
        events[1..],
        [done_call("after", "", "new", None), completed("chatcmpl_unknown", None)]
    );
}

#[test]
fn calls_without_a_name_are_dropped_and_missing_ids_made_up() {
    let events = run_sse_data(&[
        r#"{"choices":[{"delta":{"tool_calls":[
            {"index":7,"function":{"name":"late","arguments":"1"}},
            {"index":3,"function":{"arguments":"2"}},
            {"index":5,"id":"given","function":{"name":"own","arguments":"3"}},
            {"index":4,"function":{"name":"early"}}]}}]}"#,
    ]);
    assert_eq!(
        events,
        vec![
            ResponseEvent::Created,
            input_delta("chat_tool_call_7", None, "1"),
            input_delta("chat_tool_call_3", None, "2"),
            input_delta("given", Some("given"), "3"),
            done_call("early", "", "chat_tool_call_1", None),
            done_call("own", "3", "given", None),
            done_call("late", "1", "chat_tool_call_2", None),
            completed("chatcmpl_unknown", None),
        ]
    );
}

#[test]
fn large_indexes_are_written_in_decimal() {
    let events = run_sse_data(&[r#"{"choices":[{"delta":{"tool_calls":[
        {"index":1234567890,"function":{"arguments":"x"}}]}}]}"#]);
    assert_eq!(events[1], input_delta("chat_tool_call_1234567890", None, "x"));
}

#[test]
fn empty_pieces_say_nothing() {
    let events = run_sse_data(&[
        r#"{"id":"r","choices":[{"delta":{"content":"","reasoning_content":""}}]}"#,
        r#"{"choices":[]}"#,
        r#"{}"#,
    ]);
    assert_eq!(events, vec![ResponseEvent::Created, completed("r", None)]);
}

#[test]
fn the_first_id_stays_and_the_last_usage_counts() {
    let events = run_sse_data(&[
        r#"{"choices":[{"delta":{"content":"a"}}]}"#,
        r#"{"id":"one","usage":{"prompt_tokens":1,"completion_tokens":2,"total_tokens":3}}"#,
        r#"{"id":"two","choices":[{"delta":{"content":"b"}}],
            "usage":{"prompt_tokens":10,"completion_tokens":20,"total_tokens":30,
                "prompt_tokens_details":{"cached_tokens":4},
                "completion_tokens_details":{"reasoning_tokens":5}}}"#,
    ]);
    let usage = TokenUsage {
        input_tokens: 10,
        cached_input_tokens: 4,
        output_tokens: 20,
        reasoning_output_tokens: 5,
        total_tokens: 30,
    };
    assert_eq!(
        events,
        vec![
            ResponseEvent::Created,
            added("chat_completion_response_message"),
            text_delta("a"),
            text_delta("b"),
            done_message("chat_completion_response_message", "ab", None),
            completed("one", Some(usage)),
        ]
    );
}

#[test]
fn counts_that_are_not_given_are_zero() {
    let usage = ChatUsage {
        prompt_tokens: 7,
        completion_tokens: -1,
        total_tokens: 6,
        prompt_tokens_details: Some(ChatPromptTokensDetails { cached_tokens: None }),
        completion_tokens_details: None,
    };
    assert_eq!(
        TokenUsage::from(usage),
        TokenUsage {
            input_tokens: 7,
            cached_input_tokens: 0,
            output_tokens: -1,
            reasoning_output_tokens: 0,
            total_tokens: 6,
        }
    );
}

#[test]
fn all_alternatives_of_a_chunk_are_taken_up() {
    let events = run_sse_data(&[
        r#"{"id":"r","choices":[{"delta":{"content":"a"}},{"delta":{"content":"b"}}]}"#,
    ]);
    assert_eq!(events[2..4], [text_delta("a"), text_delta("b")]);
    assert_eq!(events[4], done_message("r_message", "ab", None));
}

#[test]
fn data_that_is_no_chunk_is_passed_over() {
    let (events, failure) = run_body(
        "data: {\"id\":\"r\"\n\ndata: {\"id\":\"s\"}\n\ndata: [1]\n\ndata: [DONE]\n\n",
    );
    assert_eq!(events, vec![ResponseEvent::Created, completed("s", None)]);
    assert_eq!(failure, None);
}

#[test]
fn the_done_marker_may_have_white_space_around_it() {
    let mut state = ChatCompletionState::default();
    let input = StreamInput::Data(" \t\u{3000}[DONE]\u{a0}\n".into());
    let step = process_chat_completions_sse(&mut state, input);
    assert_eq!(
        step,
        StreamStep {
            events: vec![completed("chatcmpl_unknown", None)],
            failure: None,
            next: NextAction::Stop,
        }
    );
    for data in ["[DONE", "[done]", "[ DONE ]", "", "[DONE][DONE]"] {
        let mut state = ChatCompletionState::default();
        let step = process_chat_completions_sse(&mut state, StreamInput::Data(data.into()));
        assert_eq!(step.events, vec![]);
        assert_eq!(step.next, NextAction::Decode(data.into()));
    }
}

#[test]
fn a_closed_stream_fails_after_what_was_said() {
    let (events, failure) = run_body(
        "data: {\"id\":\"r\",\"choices\":[{\"delta\":{\"content\":\"half\"}}]}\n\n",
    );
    assert_eq!(
        events,
        vec![ResponseEvent::Created, added("r_message"), text_delta("half")]
    );
    assert_eq!(
        failure,
        Some(ApiError::Stream("stream closed before chat completion finished".into()))
    );
}

#[test]
fn failures_stop_the_stream() {
    let stops = |input: StreamInput, message: &str| {
        let mut state = ChatCompletionState::default();
        assert_eq!(
            process_chat_completions_sse(&mut state, input),
            StreamStep {
                events: vec![],
                failure: Some(ApiError::Stream(message.into())),
                next: NextAction::Stop,
            }
        );
    };
    stops(StreamInput::IdleTimeout, "idle timeout waiting for SSE");
    stops(StreamInput::Failed("reset by peer".into()), "reset by peer");
    stops(StreamInput::Closed, "stream closed before chat completion finished");
}

#[test]
fn the_item_is_started_once() {
    let mut state = ChatCompletionState::default();
    assert_eq!(
        ensure_assistant_item_started(&mut state),
        vec![added("chat_completion_response_message")]
    );
    assert_eq!(ensure_assistant_item_started(&mut state), vec![]);
}

#[test]
fn pieces_are_taken_up_one_by_one() {
    let mut state = ChatCompletionState::default();
    assert_eq!(non_empty_reasoning_content(&state), None);
    let delta = ChatDelta {
        content: Some("hi".into()),
        reasoning_content: Some("why".into()),
        tool_calls: None,
    };
    assert_eq!(
        handle_chat_delta(&mut state, delta),
        vec![added("chat_completion_response_message"), text_delta("hi")]
    );
    assert_eq!(non_empty_reasoning_content(&state), Some("why".to_string()));
    let piece = ChatDeltaToolCall {
        index: 2,
        id: Some("c".into()),
        function: Some(ChatDeltaFunctionCall {
            name: Some("f".into()),
            arguments: Some("{}".into()),
        }),
    };
    assert_eq!(
        handle_tool_call_delta(&mut state, piece),
        vec![input_delta("c", Some("c"), "{}")]
    );
    let chunk = ChatChunk { id: Some("late".into()), choices: None, usage: None };
    assert_eq!(handle_chat_chunk(&mut state, chunk), vec![]);
    assert_eq!(
        finish_chat_stream(&mut state),
        vec![
            done_message("chat_completion_response_message", "hi", Some("why")),
            done_call("f", "{}", "c", Some("why")),
            completed("late", None),
        ]
    );
}

#[test]
fn a_streamed_response_is_replayed_with_its_reasoning() {
    let events = run_sse_data(&[
        r#"{"id":"r","choices":[{"delta":{"reasoning_content":"plan","content":"on it"}}]}"#,
        r#"{"choices":[{"delta":{"tool_calls":[
            {"index":0,"id":"a","function":{"name":"f","arguments":"1"}},
            {"index":1,"id":"b","function":{"name":"g","arguments":"2"}}]}}]}"#,
    ]);
    let mut items: Vec<ResponseItem> = events
        .into_iter()
        .filter_map(|event| match event {
            ResponseEvent::OutputItemDone(item) => Some(item),
            _ => None,
        })
        .collect();
    for (id, text) in [("b", "two"), ("a", "one")] {
        items.push(ResponseItem::Reasoning {
            id: "s".into(),
            summary: vec![],
            content: Some(vec![ReasoningItemContent::Text { text: format!("before {id}") }]),
            encrypted_content: None,
        });
        items.push(ResponseItem::FunctionCallOutput {
            call_id: id.into(),
            output: FunctionCallOutputPayload {
                body: FunctionCallOutputBody::Text(text.into()),
                success: None,
            },
        });
    }
    let messages = chat_messages_from_response_items(String::new(), items);
    assert_eq!(messages.len(), 4);
    assert_eq!(messages[0].reasoning_content.as_deref(), Some("plan"));
    assert_eq!(messages[1].reasoning_content.as_deref(), Some("plan\nplan\nbefore b"));
    let calls = messages[1].tool_calls.as_ref().expect("tool calls");
    assert_eq!(calls[0].id, "a");
    assert_eq!(calls[0].function.arguments, "1");
    assert_eq!(calls[1].id, "b");
    assert_eq!(calls[1].function.name, "g");
    assert_eq!(messages[2].tool_call_id.as_deref(), Some("a"));
    assert_eq!(messages[3].tool_call_id.as_deref(), Some("b"));
}
