//! From conversations to the messages of a chat.

use codex_api::chat::{
    ChatContentPart, ChatFunctionCall, ChatImageUrl, ChatMessage, ChatMessageContent, ChatToolCall,
};
use codex_api::content::{
    chat_image_detail, chat_message_content_from_content_items, chat_message_role,
    function_output_text, lines_or_none, reasoning_items_to_text, tool_message,
};
use codex_api::protocol::{
    ContentItem, EncodedItems, FunctionCallOutputBody, FunctionCallOutputPayload, ImageDetail,
    ReasoningItemContent, ResponseItem,
};
use codex_api::request::chat_messages_from_response_items;
use codex_api::tool_calls::collect_complete_tool_call_group;

fn message(role: &str, text: &str) -> ResponseItem {
    ResponseItem::Message {
        id: None,
        role: role.into(),
        content: vec![ContentItem::InputText { text: text.into() }],
        phase: None,
        reasoning_content: None,
    }
}

fn reasoning(text: &str) -> ResponseItem {
    ResponseItem::Reasoning {
        id: "r".into(),
        summary: vec![],
        content: Some(vec![ReasoningItemContent::ReasoningText { text: text.into() }]),
        encrypted_content: None,
    }
}

fn empty_reasoning() -> ResponseItem {
    ResponseItem::Reasoning {
        id: "r".into(),
        summary: vec!["a summary".into()],
        content: None,
        encrypted_content: Some("sealed".into()),
    }
}

fn call(call_id: &str, reasoning_content: Option<&str>) -> ResponseItem {
    ResponseItem::FunctionCall {
        id: None,
        name: "exec_command".into(),
        namespace: None,
        arguments: "{}".into(),
        call_id: call_id.into(),
        reasoning_content: reasoning_content.map(String::from),
    }
}

fn payload(text: &str) -> FunctionCallOutputPayload {
    FunctionCallOutputPayload { body: FunctionCallOutputBody::Text(text.into()), success: None }
}

fn output(call_id: &str, text: &str) -> ResponseItem {
    ResponseItem::FunctionCallOutput { call_id: call_id.into(), output: payload(text) }
}

fn said(role: &str, text: &str, reasoning_content: Option<&str>) -> ChatMessage {
    ChatMessage {
        role: role.into(),
        content: Some(ChatMessageContent::Text(text.into())),
        reasoning_content: reasoning_content.map(String::from),
        tool_calls: None,
        tool_call_id: None,
    }
}

fn called(ids: &[&str], reasoning_content: Option<&str>) -> ChatMessage {
    ChatMessage {
        role: "assistant".into(),
        content: None,
        reasoning_content: reasoning_content.map(String::from),
        tool_calls: Some(
            ids.iter()
                .map(|id| ChatToolCall {
                    id: id.to_string(),
                    kind: "function",
                    function: ChatFunctionCall {
                        name: "exec_command".into(),
                        arguments: "{}".into(),
                    },
                })
                .collect(),
        ),
        tool_call_id: None,
    }
}

fn answered(id: &str, text: &str) -> ChatMessage {
    ChatMessage {
        role: "tool".into(),
        content: Some(ChatMessageContent::Text(text.into())),
        reasoning_content: None,
        tool_calls: None,
        tool_call_id: Some(id.into()),
    }
}

fn convert(items: Vec<ResponseItem>) -> Vec<ChatMessage> {
    chat_messages_from_response_items(String::new(), items)
}

#[test]
fn reasoning_before_function_call_is_passed_as_reasoning_content() {
    // Simulate: [Reasoning, FunctionCall, FunctionCallOutput]
    let items = vec![
        ResponseItem::Reasoning {
            id: "r1".into(),
            summary: vec![],
            content: Some(vec![ReasoningItemContent::ReasoningText {
                text: "Let me check the time".into(),
            }]),
            encrypted_content: None,
        },
        ResponseItem::FunctionCall {
            id: None,
            name: "exec_command".into(),
            namespace: None,
            arguments: r#"{"cmd":"date"}"#.into(),
            call_id: "call_1".into(),
            reasoning_content: None,
        },
        ResponseItem::FunctionCallOutput {
            call_id: "call_1".into(),
            output: FunctionCallOutputPayload {
                body: FunctionCallOutputBody::Text("2026-05-21 13:38:39 HKT".into()),
                success: None,
            },
        },
    ];

    let messages = chat_messages_from_response_items(String::new(), items);

    // Should produce: tool role assistant message + tool result message
    assert_eq!(messages.len(), 2);

    let assistant = &messages[0];
    assert_eq!(assistant.role, "assistant");
    assert!(
        assistant.reasoning_content.is_some(),
        "assistant message should have reasoning_content"
    );
    assert_eq!(assistant.reasoning_content.as_deref(), Some("Let me check the time"));
}

#[test]
fn reasoning_after_message_is_passed_as_reasoning_content() {
    // Simulate the SSE parser output: [Message, Reasoning]
    let items = vec![
        ResponseItem::Message {
            id: None,
            role: "assistant".into(),
            content: vec![ContentItem::OutputText { text: "It is 13:38 HKT".into() }],
            phase: None,
            reasoning_content: None,
        },
        ResponseItem::Reasoning {
            id: "r1".into(),
            summary: vec![],
            content: Some(vec![ReasoningItemContent::ReasoningText {
                text: "The time is 13:38".into(),
            }]),
            encrypted_content: None,
        },
    ];

    let messages = chat_messages_from_response_items(String::new(), items);

    assert_eq!(messages.len(), 1);

    let assistant = &messages[0];
    assert_eq!(assistant.role, "assistant");
    assert!(
        assistant.reasoning_content.is_some(),
        "assistant message should have reasoning_content"
    );
    assert_eq!(assistant.reasoning_content.as_deref(), Some("The time is 13:38"));
}

#[test]
fn developer_speaks_as_system() {
    assert_eq!(chat_message_role("developer"), "system");
    assert_eq!(chat_message_role("Developer"), "Developer");
    assert_eq!(chat_message_role("user"), "user");
    assert_eq!(
        convert(vec![message("developer", "be brief")]),
        vec![said("system", "be brief", None)]
    );
}

#[test]
fn instructions_open_the_chat() {
    let items = vec![message("user", "hello")];
    assert_eq!(
        chat_messages_from_response_items("be kind".into(), items.clone()),
        vec![said("system", "be kind", None), said("user", "hello", None)]
    );
    assert_eq!(convert(items), vec![said("user", "hello", None)]);
    assert_eq!(convert(vec![]), vec![]);
}

#[test]
fn every_message_is_kept_in_order() {
    let items = vec![
        message("user", "one"),
        call("unanswered", None),
        message("assistant", "two"),
        ResponseItem::WebSearchCall,
        message("user", "three"),
    ];
    assert_eq!(
        convert(items),
        vec![
            said("user", "one", None),
            said("assistant", "two", None),
            said("user", "three", None),
        ]
    );
}

#[test]
fn reasoning_waits_for_the_assistant() {
    let items = vec![
        reasoning("why"),
        message("user", "go on"),
        message("assistant", "because"),
        message("assistant", "and so"),
    ];
    assert_eq!(
        convert(items),
        vec![
            said("user", "go on", None),
            said("assistant", "because", Some("why")),
            said("assistant", "and so", None),
        ]
    );
}

#[test]
fn later_reasoning_replaces_what_waits() {
    let items = vec![reasoning("first"), reasoning("second"), message("assistant", "so")];
    assert_eq!(convert(items), vec![said("assistant", "so", Some("second"))]);
    let items = vec![reasoning("first"), empty_reasoning(), message("assistant", "so")];
    assert_eq!(convert(items), vec![said("assistant", "so", Some("first"))]);
}

#[test]
fn reasoning_after_a_message_waits_where_the_message_has_some() {
    let items = vec![
        reasoning("before"),
        message("assistant", "one"),
        reasoning("after"),
        message("assistant", "two"),
    ];
    assert_eq!(
        convert(items),
        vec![
            said("assistant", "one", Some("before")),
            said("assistant", "two", Some("after")),
        ]
    );
}

#[test]
fn reasoning_after_a_message_is_taken_once() {
    let items =
        vec![message("assistant", "one"), reasoning("after"), message("assistant", "two")];
    assert_eq!(
        convert(items),
        vec![said("assistant", "one", Some("after")), said("assistant", "two", None)]
    );
}

#[test]
fn a_message_replays_the_reasoning_it_carries() {
    let carrying = ResponseItem::Message {
        id: Some("m".into()),
        role: "assistant".into(),
        content: vec![ContentItem::OutputText { text: "done".into() }],
        phase: None,
        reasoning_content: Some("own".into()),
    };
    assert_eq!(convert(vec![carrying.clone()]), vec![said("assistant", "done", Some("own"))]);
    assert_eq!(
        convert(vec![reasoning("before"), carrying.clone()]),
        vec![said("assistant", "done", Some("before\nown"))]
    );
    assert_eq!(
        convert(vec![carrying.clone(), reasoning("after"), message("assistant", "more")]),
        vec![said("assistant", "done", Some("own\nafter")), said("assistant", "more", None)]
    );
    assert_eq!(
        convert(vec![carrying.clone(), reasoning("after")]),
        vec![said("assistant", "done", Some("own\nafter"))]
    );
    assert_eq!(
        convert(vec![
            reasoning("before"),
            carrying,
            reasoning("after"),
            message("assistant", "more"),
        ]),
        vec![
            said("assistant", "done", Some("before\nown")),
            said("assistant", "more", Some("after")),
        ]
    );
}

#[test]
fn one_reasoning_text_goes_to_one_message() {
    let around = |before: &str, after: &str| {
        convert(vec![
            message("assistant", "early"),
            message(before, "before"),
            empty_reasoning(),
            message("user", "x"),
            reasoning("why"),
            ResponseItem::Compaction,
            message(after, "after"),
            message("assistant", "late"),
        ])
    };
    let texts = |messages: Vec<ChatMessage>| -> Vec<Option<String>> {
        messages.into_iter().map(|message| message.reasoning_content).collect()
    };
    let why = Some("why".to_string());
    assert_eq!(
        texts(around("user", "assistant")),
        vec![None, None, None, why.clone(), None]
    );
    assert_eq!(texts(around("assistant", "user")), vec![None, None, None, None, why.clone()]);
    let beside = vec![
        message("assistant", "one"),
        message("assistant", "two"),
        reasoning("why"),
        message("assistant", "three"),
    ];
    assert_eq!(texts(convert(beside)), vec![None, why, None]);
    assert_eq!(texts(convert(vec![message("user", "one"), reasoning("why")])), vec![None]);
}

#[test]
fn an_empty_text_is_no_reasoning_of_its_own() {
    let carrying = ResponseItem::Message {
        id: None,
        role: "assistant".into(),
        content: vec![ContentItem::OutputText { text: "done".into() }],
        phase: None,
        reasoning_content: Some("".into()),
    };
    assert_eq!(convert(vec![carrying.clone()]), vec![said("assistant", "done", None)]);
    assert_eq!(
        convert(vec![carrying, reasoning("after")]),
        vec![said("assistant", "done", Some("after"))]
    );
    let items = vec![call("a", Some("")), output("a", "one")];
    assert_eq!(convert(items), vec![called(&["a"], None), answered("a", "one")]);
    let items = vec![
        ResponseItem::CustomToolCall {
            call_id: "a".into(),
            name: "exec_command".into(),
            input: "{}".into(),
            reasoning_content: Some("".into()),
        },
        output("a", "one"),
    ];
    assert_eq!(convert(items), vec![called(&["a"], None), answered("a", "one")]);
}

#[test]
fn a_user_message_replays_no_reasoning() {
    let item = ResponseItem::Message {
        id: None,
        role: "user".into(),
        content: vec![ContentItem::InputText { text: "hi".into() }],
        phase: None,
        reasoning_content: Some("own".into()),
    };
    assert_eq!(convert(vec![item, reasoning("later")]), vec![said("user", "hi", None)]);
}

#[test]
fn a_group_of_calls_is_answered_in_the_order_of_the_calls() {
    let items = vec![
        call("a", None),
        call("b", None),
        output("b", "two"),
        output("a", "one"),
        message("user", "thanks"),
    ];
    assert_eq!(
        convert(items),
        vec![
            called(&["a", "b"], None),
            answered("a", "one"),
            answered("b", "two"),
            said("user", "thanks", None),
        ]
    );
}

#[test]
fn an_incomplete_group_is_left_out() {
    let items = vec![
        reasoning("lost with its calls"),
        call("a", None),
        call("b", None),
        output("a", "one"),
        message("assistant", "next"),
    ];
    assert_eq!(convert(items), vec![said("assistant", "next", None)]);
    assert_eq!(convert(vec![call("a", None)]), vec![]);
}

#[test]
fn an_output_of_no_call_ends_the_group() {
    let items = vec![call("a", None), output("z", "stray"), output("a", "one")];
    assert_eq!(convert(items), vec![]);
    assert_eq!(convert(vec![output("z", "stray")]), vec![]);
}

#[test]
fn calls_with_one_id_are_left_out() {
    let items = vec![call("a", None), call("a", None), output("a", "one"), output("a", "two")];
    assert_eq!(convert(items), vec![]);
}

#[test]
fn outputs_after_the_group_is_complete_are_passed_over() {
    let items = vec![call("a", None), output("a", "one"), output("a", "two")];
    assert_eq!(convert(items), vec![called(&["a"], None), answered("a", "one")]);
}

#[test]
fn the_last_output_of_a_call_counts() {
    let items = vec![
        call("a", None),
        call("b", None),
        output("a", "draft"),
        output("a", "final"),
        output("b", "two"),
    ];
    assert_eq!(
        convert(items),
        vec![called(&["a", "b"], None), answered("a", "final"), answered("b", "two")]
    );
}

#[test]
fn reasoning_of_a_group_is_gathered() {
    let items = vec![
        reasoning("before"),
        call("a", Some("on a")),
        reasoning("between"),
        call("b", Some("on b")),
        reasoning("behind"),
        output("a", "one"),
        reasoning("among the outputs"),
        output("b", "two"),
        message("assistant", "done"),
    ];
    assert_eq!(
        convert(items),
        vec![
            called(&["a", "b"], Some("before\non a\nbetween\non b\nbehind")),
            answered("a", "one"),
            answered("b", "two"),
            said("assistant", "done", None),
        ]
    );
}

#[test]
fn a_group_tells_where_it_ends() {
    let items = vec![
        message("user", "go"),
        call("a", None),
        output("a", "one"),
        message("user", "stop"),
    ];
    let (end, messages) = collect_complete_tool_call_group(&items, 1, Some("why".into()));
    assert_eq!(end, 3);
    assert_eq!(messages, vec![called(&["a"], Some("why")), answered("a", "one")]);
    let items = vec![call("a", None), call("b", None), output("b", "two"), message("user", "x")];
    let (end, messages) = collect_complete_tool_call_group(&items, 0, None);
    assert_eq!(end, 3);
    assert_eq!(messages, vec![]);
}

#[test]
fn custom_tool_calls_are_function_calls_in_a_chat() {
    let items = vec![
        ResponseItem::CustomToolCall {
            call_id: "c".into(),
            name: "apply_patch".into(),
            input: "*** Begin Patch".into(),
            reasoning_content: Some("patch it".into()),
        },
        ResponseItem::CustomToolCallOutput { call_id: "c".into(), output: payload("ok") },
    ];
    let messages = convert(items);
    assert_eq!(
        messages,
        vec![
            ChatMessage {
                role: "assistant".into(),
                content: None,
                reasoning_content: Some("patch it".into()),
                tool_calls: Some(vec![ChatToolCall {
                    id: "c".into(),
                    kind: "function",
                    function: ChatFunctionCall {
                        name: "apply_patch".into(),
                        arguments: "*** Begin Patch".into(),
                    },
                }]),
                tool_call_id: None,
            },
            answered("c", "ok"),
        ]
    );
}

#[test]
fn other_items_add_nothing() {
    let items = vec![
        ResponseItem::LocalShellCall,
        ResponseItem::ToolSearchCall,
        ResponseItem::ToolSearchOutput,
        ResponseItem::WebSearchCall,
        ResponseItem::ImageGenerationCall,
        ResponseItem::Compaction,
        ResponseItem::ContextCompaction,
        ResponseItem::CompactionTrigger,
        ResponseItem::Other,
        reasoning("alone"),
        output("z", "stray"),
    ];
    assert_eq!(convert(items), vec![]);
}

#[test]
fn texts_are_joined_with_line_feeds() {
    let content = vec![
        ContentItem::InputText { text: "one".into() },
        ContentItem::OutputText { text: "two".into() },
    ];
    assert_eq!(
        chat_message_content_from_content_items(&content),
        ChatMessageContent::Text("one\ntwo".into())
    );
    assert_eq!(
        chat_message_content_from_content_items(&vec![]),
        ChatMessageContent::Text("".into())
    );
}

#[test]
fn an_image_makes_every_item_a_part() {
    let content = vec![
        ContentItem::InputText { text: "look".into() },
        ContentItem::InputImage {
            image_url: "data:a".into(),
            detail: Some(ImageDetail::Original),
        },
        ContentItem::InputImage { image_url: "data:b".into(), detail: Some(ImageDetail::High) },
        ContentItem::InputImage { image_url: "data:c".into(), detail: None },
    ];
    let image = |url: &str, detail: Option<&str>| ChatContentPart::ImageUrl {
        image_url: ChatImageUrl { url: url.into(), detail: detail.map(String::from) },
    };
    assert_eq!(
        chat_message_content_from_content_items(&content),
        ChatMessageContent::Parts(vec![
            ChatContentPart::Text { text: "look".into() },
            image("data:a", Some("auto")),
            image("data:b", Some("high")),
            image("data:c", None),
        ])
    );
    assert_eq!(chat_image_detail(ImageDetail::Original), "auto");
    assert_eq!(chat_image_detail(ImageDetail::High), "high");
}

#[test]
fn reasoning_parts_are_joined() {
    let parts = vec![
        ReasoningItemContent::ReasoningText { text: "one".into() },
        ReasoningItemContent::Text { text: "two".into() },
    ];
    assert_eq!(reasoning_items_to_text(Some(&parts)), Some("one\ntwo".to_string()));
    assert_eq!(reasoning_items_to_text(Some(&vec![])), None);
    assert_eq!(reasoning_items_to_text(None), None);
    let blank = vec![ReasoningItemContent::Text { text: "".into() }];
    assert_eq!(reasoning_items_to_text(Some(&blank)), Some("".to_string()));
    assert_eq!(lines_or_none(&vec![]), None);
    assert_eq!(lines_or_none(&vec!["a".into(), "".into()]), Some("a\n".to_string()));
}

#[test]
fn tool_outputs_become_text() {
    assert_eq!(function_output_text(&payload("plain")), "plain");
    let encoded = |items: EncodedItems| FunctionCallOutputPayload {
        body: FunctionCallOutputBody::ContentItems(items),
        success: Some(true),
    };
    assert_eq!(
        function_output_text(&encoded(EncodedItems::Json("[{}]".into()))),
        "[{}]"
    );
    let failed = encoded(EncodedItems::Failed("no luck".into()));
    assert_eq!(function_output_text(&failed), "failed to serialize tool output: no luck");
    assert_eq!(
        tool_message("c".into(), &failed),
        answered("c", "failed to serialize tool output: no luck")
    );
}
