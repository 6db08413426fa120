//! Requests on the wire: JSON bodies, tools, headers, and the report on reasoning.

use codex_api::chat::{
    ChatCompletionsRequest, ChatContentPart, ChatFunctionCall, ChatImageUrl, ChatMessage,
    ChatMessageContent, ChatToolCall,
};
use codex_api::headers::{
    accept_event_stream, request_headers, stream_headers, StreamHeaders, MAX_HEADER_NAMES,
};
use codex_api::json::{
    optional_string, push_member, push_optional_member, JsonNumber, JsonValue,
};
use codex_api::protocol::{ContentItem, Reasoning, ResponseItem, ResponsesApiRequest};
use codex_api::report::reasoning_report;
use codex_api::text::{decimal_text, join_lines, text_is, trim_text, with_suffix};
use codex_api::tools::{chat_tool_from_responses_tool, chat_tools_from_responses_tools};
use http::{HeaderMap, HeaderName, HeaderValue};
use serde_json::Value;

/// The value in the library's own form.
fn own(value: &Value) -> JsonValue {
    match value {
        Value::Null => JsonValue::Null,
        Value::Bool(flag) => JsonValue::Bool(*flag),
        Value::Number(number) => JsonValue::Number(match (number.as_u64(), number.as_i64()) {
            (Some(count), _) => JsonNumber::Unsigned(count),
            (None, Some(count)) => JsonNumber::Negative(count),
            (None, None) => JsonNumber::Double(number.as_f64().expect("a number").to_bits()),
        }),
        Value::String(text) => JsonValue::String(text.clone()),
        Value::Array(items) => JsonValue::Array(items.iter().map(own).collect()),
        Value::Object(members) => JsonValue::Object(
            members.iter().map(|(key, value)| (key.clone(), own(value))).collect(),
        ),
    }
}

fn parse(text: &str) -> JsonValue {
    own(&serde_json::from_str(text).expect("valid JSON"))
}

fn minimal_request() -> ResponsesApiRequest {
    ResponsesApiRequest {
        model: "deepseek".into(),
        instructions: String::new(),
        input: vec![],
        tools: vec![],
        tool_choice: "auto".into(),
        parallel_tool_calls: false,
        reasoning: None,
        service_tier: None,
        prompt_cache_key: None,
    }
}

#[test]
fn a_minimal_request_leaves_out_what_it_does_not_have() {
    let request = ChatCompletionsRequest::from_responses(minimal_request());
    assert_eq!(
        request.to_json(),
        parse(
            r#"{"model":"deepseek","messages":[],"tool_choice":"auto","parallel_tool_calls":false,
                "stream":true,"stream_options":{"include_usage":true}}"#
        )
    );
}

#[test]
fn a_full_request_shows_all_its_settings() {
    let mut request = minimal_request();
    request.instructions = "be brief".into();
    request.input = vec![ResponseItem::Message {
        id: None,
        role: "user".into(),
        content: vec![ContentItem::InputText { text: "hi".into() }],
        phase: None,
        reasoning_content: None,
    }];
    request.tools = vec![
        parse(r#"{"type":"web_search"}"#),
        parse(r#"{"type":"function","name":"f","strict":true}"#),
    ];
    request.parallel_tool_calls = true;
    request.reasoning = Some(Reasoning { effort: Some("high".into()) });
    request.service_tier = Some("flex".into());
    request.prompt_cache_key = Some("key".into());
    let converted = ChatCompletionsRequest::from_responses(request);
    assert!(converted.stream);
    assert!(converted.stream_options.include_usage);
    assert_eq!(
        converted.to_json(),
        parse(
            r#"{"model":"deepseek",
                "messages":[{"role":"system","content":"be brief"},
                    {"role":"user","content":"hi"}],
                "tools":[{"type":"function","function":{"name":"f","description":"",
                    "parameters":{"type":"object","properties":{}}}}],
                "tool_choice":"auto","parallel_tool_calls":true,
                "stream":true,"stream_options":{"include_usage":true},
                "reasoning_effort":"high","thinking":{"type":"enabled"},
                "service_tier":"flex","prompt_cache_key":"key"}"#
        )
    );
}

#[test]
fn reasoning_settings_without_an_effort_still_ask_to_think() {
    let mut request = minimal_request();
    request.reasoning = Some(Reasoning { effort: None });
    let wire = ChatCompletionsRequest::from_responses(request).to_json();
    assert_eq!(wire.get("reasoning_effort"), None);
    assert_eq!(wire.get("thinking"), Some(&parse(r#"{"type":"enabled"}"#)));
}

#[test]
fn messages_on_the_wire() {
    let mut message = ChatMessage {
        role: "assistant".into(),
        content: None,
        reasoning_content: Some("why".into()),
        tool_calls: Some(vec![ChatToolCall {
            id: "c".into(),
            kind: "function",
            function: ChatFunctionCall { name: "f".into(), arguments: "{}".into() },
        }]),
        tool_call_id: None,
    };
    assert_eq!(
        message.to_json(),
        parse(
            r#"{"role":"assistant","reasoning_content":"why","tool_calls":[
                {"id":"c","type":"function","function":{"name":"f","arguments":"{}"}}]}"#
        )
    );
    message.role = "tool".into();
    message.content = Some(ChatMessageContent::Parts(vec![
        ChatContentPart::Text { text: "look".into() },
        ChatContentPart::ImageUrl {
            image_url: ChatImageUrl { url: "data:a".into(), detail: Some("high".into()) },
        },
        ChatContentPart::ImageUrl {
            image_url: ChatImageUrl { url: "data:b".into(), detail: None },
        },
    ]));
    message.reasoning_content = None;
    message.tool_calls = None;
    message.tool_call_id = Some("c".into());
    assert_eq!(
        message.to_json(),
        parse(
            r#"{"role":"tool","content":[{"type":"text","text":"look"},
                {"type":"image_url","image_url":{"url":"data:a","detail":"high"}},
                {"type":"image_url","image_url":{"url":"data:b"}}],"tool_call_id":"c"}"#
        )
    );
}

#[test]
fn only_function_tools_are_kept() {
    let tools = vec![
        parse(r#"{"type":"function","name":"a","description":"does a","parameters":{"n":-1.5}}"#),
        parse(r#"{"type":"custom","name":"b"}"#),
        parse(r#"{"name":"no type"}"#),
        parse(r#"{"type":["function"]}"#),
        parse(r#"["type","function"]"#),
        parse(r#"{"type":"function"}"#),
    ];
    assert_eq!(
        chat_tools_from_responses_tools(&tools),
        vec![
            parse(
                r#"{"type":"function","function":{"name":"a","description":"does a",
                    "parameters":{"n":-1.5}}}"#
            ),
            parse(
                r#"{"type":"function","function":{"name":null,"description":"",
                    "parameters":{"type":"object","properties":{}}}}"#
            ),
        ]
    );
    assert_eq!(chat_tool_from_responses_tool(&tools[1]), None);
    assert_eq!(chat_tool_from_responses_tool(&JsonValue::Null), None);
}

#[test]
fn json_lookup_finds_the_first_member() {
    let twice = JsonValue::Object(vec![
        ("a".into(), JsonValue::Bool(true)),
        ("a".into(), JsonValue::Bool(false)),
        ("b".into(), JsonValue::String("text".into())),
    ]);
    assert_eq!(twice.get("a"), Some(&JsonValue::Bool(true)));
    assert_eq!(twice.get("b").and_then(|value| value.as_str()), Some("text"));
    assert_eq!(twice.get("c"), None);
    assert_eq!(twice.as_str(), None);
    assert_eq!(twice.clone(), twice);
    let nested = parse(r#"[{"a":[null,1,-2,2.5,"x"]},[]]"#);
    assert_eq!(nested.duplicate(), nested);
}

#[test]
fn members_are_added_in_order() {
    let mut members = vec![];
    push_member(&mut members, "a", JsonValue::Null);
    push_optional_member(&mut members, "b", None);
    push_optional_member(&mut members, "c", optional_string(&Some("x".into())));
    push_optional_member(&mut members, "d", optional_string(&None));
    assert_eq!(JsonValue::Object(members), parse(r#"{"a":null,"c":"x"}"#));
}

#[test]
fn the_report_tells_which_messages_carry_reasoning() {
    let said = |role: &str, reasoning: Option<&str>, calls: bool| ChatMessage {
        role: role.into(),
        content: if calls { None } else { Some(ChatMessageContent::Text("x".into())) },
        reasoning_content: reasoning.map(String::from),
        tool_calls: if calls { Some(vec![]) } else { None },
        tool_call_id: None,
    };
    let messages = vec![
        said("system", None, false),
        said("assistant", Some("déjà vu"), false),
        said("assistant", None, true),
    ];
    assert_eq!(
        reasoning_report(&messages),
        "msg[1] role=assistant has_content=true has_reasoning=true has_tool_calls=false \
         reasoning_len=Some(9)\n\
         msg[2] role=assistant has_content=false has_reasoning=false has_tool_calls=true \
         reasoning_len=None\n"
    );
    assert_eq!(reasoning_report(&vec![]), "");
}

#[test]
fn text_helpers() {
    assert_eq!(join_lines(&vec![]), "");
    assert_eq!(join_lines(&vec!["a".into()]), "a");
    assert_eq!(join_lines(&vec!["a".into(), "".into(), "b".into()]), "a\n\nb");
    assert!(text_is("é", "é"));
    assert!(!text_is("a", "ab"));
    assert_eq!(with_suffix("ab", "c"), "abc");
    for text in ["", " ", "a", " a b\t", "\u{3000}é\u{2028} x\u{85}", "\u{200b}a\u{180e}"] {
        assert_eq!(trim_text(text), text.trim());
    }
    for number in [0usize, 7, 10, 99, 100, 1_000_203, usize::MAX] {
        assert_eq!(decimal_text(number), number.to_string());
    }
}

fn headers(list: &[(&'static str, &str)]) -> HeaderMap {
    let mut map = HeaderMap::new();
    for (name, value) in list {
        map.append(*name, HeaderValue::from_str(value).expect("a header value"));
    }
    map
}

fn many_headers(prefix: &str, count: usize) -> HeaderMap {
    let mut map = HeaderMap::new();
    for number in 0..count {
        let name = format!("{prefix}-{number}");
        let name = HeaderName::from_bytes(name.as_bytes()).expect("a name");
        map.insert(name, HeaderValue::from_static("v"));
    }
    map
}

#[test]
fn request_headers_are_gathered() {
    let extra = headers(&[("x-extra", "1"), ("x-extra", "2")]);
    let session = headers(&[("session_id", "s"), ("thread_id", "t")]);
    let all = request_headers(extra, Some("t"), session, Some("review")).expect("headers");
    assert_eq!(
        all,
        headers(&[
            ("x-extra", "1"),
            ("x-extra", "2"),
            ("x-client-request-id", "t"),
            ("session_id", "s"),
            ("thread_id", "t"),
            ("x-openai-subagent", "review"),
        ])
    );
    let none = request_headers(HeaderMap::new(), None, HeaderMap::new(), None);
    assert_eq!(none, Some(HeaderMap::new()));
}

#[test]
fn later_headers_win() {
    let extra = headers(&[
        ("x-client-request-id", "mine"),
        ("x-openai-subagent", "mine"),
        ("x-both", "extra"),
        ("x-both", "extra too"),
    ]);
    let session = headers(&[
        ("x-both", "session"),
        ("x-both", "session too"),
        ("x-openai-subagent", "session"),
    ]);
    let all = request_headers(extra, Some("t"), session, Some("agent")).expect("headers");
    assert_eq!(
        all,
        headers(&[
            ("x-client-request-id", "t"),
            ("x-openai-subagent", "agent"),
            ("x-both", "session"),
            ("x-both", "session too"),
        ])
    );
    let extra = headers(&[("x-client-request-id", "mine")]);
    let session = headers(&[("x-client-request-id", "session")]);
    let all = request_headers(extra, Some("t"), session, None).expect("headers");
    assert_eq!(all, headers(&[("x-client-request-id", "session")]));
}

#[test]
fn texts_that_no_header_can_hold_are_left_out() {
    let extra = headers(&[("x-client-request-id", "mine")]);
    let all = request_headers(extra, Some("a\nb"), HeaderMap::new(), Some("\u{7f}"));
    assert_eq!(all, Some(headers(&[("x-client-request-id", "mine")])));
    let all = request_headers(HeaderMap::new(), Some("tab\there"), HeaderMap::new(), Some("né"));
    assert_eq!(
        all,
        Some(headers(&[("x-client-request-id", "tab\there"), ("x-openai-subagent", "né")]))
    );
}

#[test]
fn many_headers_are_taken() {
    let limit = MAX_HEADER_NAMES;
    let none = HeaderMap::new();
    let all = request_headers(many_headers("x", limit - 1), Some("t"), none.clone(), Some("a"));
    assert_eq!(all.map(|map| map.keys_len()), Some(limit + 1));
    let all = request_headers(many_headers("x", 8_000), None, many_headers("y", 8_000), None);
    let all = all.expect("headers");
    assert_eq!(all.keys_len(), 16_000);
    assert_eq!(all.get("x-7999"), Some(&HeaderValue::from_static("v")));
    assert_eq!(all.get("y-7999"), Some(&HeaderValue::from_static("v")));
    let same = request_headers(many_headers("x", 8_000), None, many_headers("x", 8_000), None);
    assert_eq!(same, Some(many_headers("x", 8_000)));
    let all = request_headers(none.clone(), None, many_headers("x", 24_576), None);
    assert_eq!(all.map(|map| map.keys_len()), Some(24_576));
    let accepting = accept_event_stream(many_headers("x", 20_000));
    assert_eq!(accepting.map(|map| map.keys_len()), Some(20_001));
}

#[test]
fn more_headers_than_a_map_holds_are_refused() {
    let none = HeaderMap::new();
    let full = many_headers("x", 24_576);
    assert_eq!(request_headers(full.clone(), Some("t"), none.clone(), None), None);
    assert_eq!(request_headers(full.clone(), None, none.clone(), Some("a")), None);
    assert_eq!(request_headers(full.clone(), None, headers(&[("y", "z")]), None), None);
    let (left, right) = (many_headers("x", 13_000), many_headers("y", 13_000));
    assert_eq!(request_headers(left, None, right, None), None);
    assert_eq!(request_headers(full.clone(), None, none, None), Some(full.clone()));
    assert_eq!(accept_event_stream(full), None);
}

#[test]
fn an_event_stream_is_asked_for() {
    let map = accept_event_stream(headers(&[("accept", "a"), ("accept", "b"), ("x-y", "z")]));
    assert_eq!(map, Some(headers(&[("accept", "text/event-stream"), ("x-y", "z")])));
}

#[test]
fn response_headers_are_read() {
    let map = headers(&[
        ("x-request-id", "req 1"),
        ("x-request-id", "req 2"),
        ("x-codex-turn-state", "state"),
    ]);
    assert_eq!(
        stream_headers(&map),
        StreamHeaders {
            upstream_request_id: Some("req 1".into()),
            turn_state: Some("state".into()),
        }
    );
    let nothing = StreamHeaders { upstream_request_id: None, turn_state: None };
    assert_eq!(stream_headers(&HeaderMap::new()), nothing);
    assert_eq!(stream_headers(&headers(&[("x-request-id", "né")])), nothing);
}
