//! The pieces of a chat message: roles, texts, images and tool outputs.

use crate::chat::{
    ChatContentPart, ChatContentPartView, ChatImageUrl, ChatImageUrlView, ChatMessage,
    ChatMessageContent, ChatMessageContentView, ChatMessageView, ChatToolCallView,
};
use crate::protocol::{
    ContentItem, ContentItemView, EncodedItems, EncodedItemsView, FunctionCallOutputBody,
    FunctionCallOutputBodyView, FunctionCallOutputPayload, FunctionCallOutputPayloadView,
    ImageDetail, ReasoningItemContent, ReasoningItemContentView,
};
use crate::text::{join_lines, joined_lines, text_is, with_suffix};
use vstd::prelude::*;

verus! {

/// The optional text as a list of at most one text.
pub open spec fn listed(text: Option<Seq<char>>) -> Seq<Seq<char>> {
    match text {
        Some(chars) => seq![chars],
        None => Seq::empty(),
    }
}

/// The reasoning that a message or a call carries. An empty text is none.
pub open spec fn own_reasoning(carried: Option<Seq<char>>) -> Option<Seq<char>> {
    match carried {
        Some(text) if text.len() > 0 => Some(text),
        _ => None,
    }
}

/// The texts joined with line feeds; nothing where there are no texts.
pub open spec fn lines_of(texts: Seq<Seq<char>>) -> Option<Seq<char>> {
    if texts.len() == 0 {
        None
    } else {
        Some(joined_lines(texts))
    }
}

impl ReasoningItemContentView {
    /// The text of the part, of either kind.
    pub open spec fn text(self) -> Seq<char> {
        match self {
            ReasoningItemContentView::ReasoningText { text } => text,
            ReasoningItemContentView::Text { text } => text,
        }
    }
}

/// The text of a reasoning item: its parts joined with line feeds, where it has any.
pub open spec fn reasoning_text(content: Option<Seq<ReasoningItemContentView>>) -> Option<
    Seq<char>,
> {
    match content {
        Some(parts) => lines_of(parts.map_values(|part: ReasoningItemContentView| part.text())),
        None => None,
    }
}

/// The role that a chat message has in place of a conversation role. A chat knows no
/// developer: the developer speaks as the system.
pub open spec fn chat_role(role: Seq<char>) -> Seq<char> {
    if role == "developer"@ {
        "system"@
    } else {
        role
    }
}

/// The detail of an image, in the words of the chat API, which has no level `original`.
pub open spec fn detail_name(detail: ImageDetail) -> Seq<char> {
    match detail {
        ImageDetail::Original => "auto"@,
        ImageDetail::High => "high"@,
    }
}

impl ContentItemView {
    /// Whether the item is text, given or produced.
    pub open spec fn is_text(self) -> bool {
        !(self is InputImage)
    }

    /// The text of a text item.
    pub open spec fn text(self) -> Seq<char> {
        match self {
            ContentItemView::InputText { text } => text,
            ContentItemView::OutputText { text } => text,
            ContentItemView::InputImage { .. } => Seq::empty(),
        }
    }

    /// The content part that stands for the item in a chat message.
    pub open spec fn part(self) -> ChatContentPartView {
        match self {
            ContentItemView::InputImage { image_url, detail } => ChatContentPartView::ImageUrl {
                image_url: ChatImageUrlView {
                    url: image_url,
                    detail: match detail {
                        Some(detail) => Some(detail_name(detail)),
                        None => None,
                    },
                },
            },
            _ => ChatContentPartView::Text { text: self.text() },
        }
    }
}

/// The content of a chat message. Text alone becomes one text, the items joined with line
/// feeds; where there is an image, every item becomes a part of its own.
pub open spec fn chat_content(items: Seq<ContentItemView>) -> ChatMessageContentView {
    if forall|i: int| 0 <= i < items.len() ==> (#[trigger] items[i]).is_text() {
        ChatMessageContentView::Text(
            joined_lines(items.map_values(|item: ContentItemView| item.text())),
        )
    } else {
        ChatMessageContentView::Parts(items.map_values(|item: ContentItemView| item.part()))
    }
}

/// The text of a tool call's output.
pub open spec fn output_text(output: FunctionCallOutputPayloadView) -> Seq<char> {
    match output.body {
        FunctionCallOutputBodyView::Text(text) => text,
        FunctionCallOutputBodyView::ContentItems(EncodedItemsView::Json(encoding)) => encoding,
        FunctionCallOutputBodyView::ContentItems(EncodedItemsView::Failed(message)) => {
            "failed to serialize tool output: "@ + message
        },
    }
}

/// A message that says what was said, and calls no tool.
pub open spec fn spoken_message(
    role: Seq<char>,
    content: ChatMessageContentView,
    reasoning: Option<Seq<char>>,
) -> ChatMessageView {
    ChatMessageView {
        role,
        content: Some(content),
        reasoning_content: reasoning,
        tool_calls: None,
        tool_call_id: None,
    }
}

/// The message that hands a tool's output to the model.
pub open spec fn output_message(
    call_id: Seq<char>,
    output: FunctionCallOutputPayloadView,
) -> ChatMessageView {
    ChatMessageView {
        role: "tool"@,
        content: Some(ChatMessageContentView::Text(output_text(output))),
        reasoning_content: None,
        tool_calls: None,
        tool_call_id: Some(call_id),
    }
}

/// The message in which the assistant calls tools.
pub open spec fn calling_message(
    calls: Seq<ChatToolCallView>,
    reasoning: Option<Seq<char>>,
) -> ChatMessageView {
    ChatMessageView {
        role: "assistant"@,
        content: None,
        reasoning_content: reasoning,
        tool_calls: Some(calls),
        tool_call_id: None,
    }
}

/// Collects reasoning text from the parts of a reasoning item.
pub fn reasoning_items_to_text(content: Option<&Vec<ReasoningItemContent>>) -> (text: Option<
    String,
>)
    ensures
        text.deep_view() == reasoning_text(content.deep_view()),
{
    match content {
        None => None,
        Some(items) => {
            let mut texts: Vec<String> = Vec::new();
            let mut next: usize = 0;
            while next < items.len()
                invariant
                    next <= items.len(),
                    texts.len() == next,
                    forall|i: int| 0 <= i < next ==> texts[i]@ == items[i].deep_view().text(),
                decreases items.len() - next,
            {
                match &items[next] {
                    ReasoningItemContent::ReasoningText { text } => texts.push(text.clone()),
                    ReasoningItemContent::Text { text } => texts.push(text.clone()),
                }
                next += 1;
            }
            assert(texts.deep_view() == items.deep_view().map_values(
                |part: ReasoningItemContentView| part.text(),
            ));
            lines_or_none(&texts)
        },
    }
}

/// Joins the texts with line feeds, where there are any.
pub fn lines_or_none(texts: &Vec<String>) -> (lines: Option<String>)
    ensures
        lines.deep_view() == lines_of(texts.deep_view()),
{
    if texts.len() == 0 {
        None
    } else {
        Some(join_lines(texts))
    }
}

/// Maps a conversation role to a chat role.
pub fn chat_message_role(role: &str) -> (mapped: &str)
    ensures
        mapped@ == chat_role(role@),
{
    if text_is(role, "developer") {
        "system"
    } else {
        role
    }
}

/// Maps the detail of an image to the chat API's word for it.
pub fn chat_image_detail(detail: ImageDetail) -> (name: String)
    ensures
        name@ == detail_name(detail),
{
    match detail {
        ImageDetail::Original => "auto".to_string(),
        ImageDetail::High => "high".to_string(),
    }
}

/// Maps the content of a message.
pub fn chat_message_content_from_content_items(content: &Vec<ContentItem>) -> (mapped:
    ChatMessageContent)
    ensures
        mapped.deep_view() == chat_content(content.deep_view()),
{
    let mut text_parts: Vec<String> = Vec::new();
    let mut parts: Vec<ChatContentPart> = Vec::new();
    let mut all_text = true;
    let mut next: usize = 0;
    let ghost items = content.deep_view();
    while next < content.len()
        invariant
            next <= content.len(),
            items == content.deep_view(),
            parts.len() == next,
            forall|i: int| 0 <= i < next ==> parts[i].deep_view() == items[i].part(),
            all_text == (forall|i: int| 0 <= i < next ==> (#[trigger] items[i]).is_text()),
            all_text ==> text_parts.len() == next,
            all_text ==> forall|i: int| 0 <= i < next ==> text_parts[i]@ == items[i].text(),
        decreases content.len() - next,
    {
        assert(items[next as int] == content[next as int].deep_view());
        match &content[next] {
            ContentItem::InputText { text } => {
                text_parts.push(text.clone());
                parts.push(ChatContentPart::Text { text: text.clone() });
            },
            ContentItem::OutputText { text } => {
                text_parts.push(text.clone());
                parts.push(ChatContentPart::Text { text: text.clone() });
            },
            ContentItem::InputImage { image_url, detail } => {
                let detail = match detail {
                    Some(detail) => Some(chat_image_detail(*detail)),
                    None => None,
                };
                parts.push(
                    ChatContentPart::ImageUrl {
                        image_url: ChatImageUrl { url: image_url.clone(), detail },
                    },
                );
                all_text = false;
            },
        }
        next += 1;
    }
    if all_text {
        assert(text_parts.deep_view() == items.map_values(|item: ContentItemView| item.text()));
        ChatMessageContent::Text(join_lines(&text_parts))
    } else {
        assert(parts.deep_view() == items.map_values(|item: ContentItemView| item.part()));
        ChatMessageContent::Parts(parts)
    }
}

/// The text of a tool call's output.
pub fn function_output_text(output: &FunctionCallOutputPayload) -> (text: String)
    ensures
        text@ == output_text(output.deep_view()),
{
    match &output.body {
        FunctionCallOutputBody::Text(text) => text.clone(),
        FunctionCallOutputBody::ContentItems(EncodedItems::Json(encoding)) => encoding.clone(),
        FunctionCallOutputBody::ContentItems(EncodedItems::Failed(message)) => {
            with_suffix("failed to serialize tool output: ", message.as_str())
        },
    }
}

/// The message that hands a tool's output to the model.
pub fn tool_message(call_id: String, output: &FunctionCallOutputPayload) -> (message: ChatMessage)
    ensures
        message.deep_view() == output_message(call_id@, output.deep_view()),
{
    ChatMessage {
        role: "tool".to_string(),
        content: Some(ChatMessageContent::Text(function_output_text(output))),
        reasoning_content: None,
        tool_calls: None,
        tool_call_id: Some(call_id),
    }
}

} // verus!
