//! What holds of the content of chat messages: nothing that is said, shown or returned is lost.

use crate::chat::{
    ChatContentPartView, ChatMessageContentView, ChatMessageView, ChatToolCallView,
};
use crate::content::{
    calling_message, chat_content, chat_role, detail_name, lines_of, listed, output_message,
    output_text, own_reasoning, reasoning_text, spoken_message,
};
use crate::protocol::{
    ContentItemView, EncodedItemsView, FunctionCallOutputBodyView, FunctionCallOutputPayloadView,
    ImageDetail, ReasoningItemContentView,
};
use crate::text::joined_lines;
use vstd::prelude::*;

verus! {

/// The developer is the system in a chat, and everyone else is who they are.
pub proof fn law_roles(role: Seq<char>)
    ensures
        role == "developer"@ ==> chat_role(role) == "system"@,
        role != "developer"@ ==> chat_role(role) == role,
{
}

/// The detail of an image is `high` where a close look is asked for, and else left to the model.
pub proof fn law_details()
    ensures
        detail_name(ImageDetail::High) == "high"@,
        detail_name(ImageDetail::Original) == "auto"@,
{
}

/// Whether the item is an image.
pub open spec fn is_image(item: ContentItemView) -> bool {
    item is InputImage
}

/// The words of an item that is no image.
pub open spec fn words(item: ContentItemView) -> Seq<char> {
    match item {
        ContentItemView::InputText { text } => text,
        ContentItemView::OutputText { text } => text,
        ContentItemView::InputImage { .. } => Seq::empty(),
    }
}

/// Whether a part of a chat message shows the item: the same words, or the image with the same url
/// and the same detail, if it has one.
pub open spec fn shows(part: ChatContentPartView, item: ContentItemView) -> bool {
    match item {
        ContentItemView::InputText { text } => part == (ChatContentPartView::Text { text }),
        ContentItemView::OutputText { text } => part == (ChatContentPartView::Text { text }),
        ContentItemView::InputImage { image_url, detail } => {
            &&& part is ImageUrl
            &&& part->image_url.url == image_url
            &&& detail is None ==> part->image_url.detail is None
            &&& detail == Some(ImageDetail::High) ==> part->image_url.detail == Some("high"@)
            &&& detail == Some(ImageDetail::Original) ==> part->image_url.detail == Some("auto"@)
        },
    }
}

/// Nothing of a message's content is lost. Where an image stands among the items, at any position,
/// the content is one part per item, in order, and each part shows its item. Only where there is
/// no image is it one text, with the words of all items on lines of their own.
pub proof fn law_content_is_kept(items: Seq<ContentItemView>)
    ensures
        (exists|k: int| 0 <= k < items.len() && is_image(#[trigger] items[k])) ==> {
            &&& chat_content(items) is Parts
            &&& chat_content(items)->Parts_0.len() == items.len()
            &&& forall|k: int|
                0 <= k < items.len() ==> shows(
                    #[trigger] chat_content(items)->Parts_0[k],
                    items[k],
                )
        },
        (forall|k: int| 0 <= k < items.len() ==> !is_image(#[trigger] items[k])) ==> chat_content(
            items,
        ) == ChatMessageContentView::Text(
            joined_lines(Seq::new(items.len(), |k: int| words(items[k]))),
        ),
{
    if exists|k: int| 0 <= k < items.len() && is_image(#[trigger] items[k]) {
        let k = choose|k: int| 0 <= k < items.len() && is_image(#[trigger] items[k]);
        assert(!items[k].is_text());
    } else {
        assert forall|k: int| 0 <= k < items.len() implies (#[trigger] items[k]).is_text() by {
            assert(!is_image(items[k]));
        }
        assert(items.map_values(|item: ContentItemView| item.text()) == Seq::new(
            items.len(),
            |k: int| words(items[k]),
        ));
    }
}

/// The words of a part of a reasoning item.
pub open spec fn thought(part: ReasoningItemContentView) -> Seq<char> {
    match part {
        ReasoningItemContentView::ReasoningText { text } => text,
        ReasoningItemContentView::Text { text } => text,
    }
}

/// A reasoning item has a text exactly where it has parts: all of them, of either kind, on lines
/// of their own.
pub proof fn law_reasoning_is_kept(content: Option<Seq<ReasoningItemContentView>>)
    ensures
        content is None ==> reasoning_text(content) is None,
        content matches Some(parts) && parts.len() == 0 ==> reasoning_text(content) is None,
        content matches Some(parts) && parts.len() > 0 ==> reasoning_text(content) == Some(
            joined_lines(Seq::new(content->0.len(), |k: int| thought(content->0[k]))),
        ),
{
    if let Some(parts) = content {
        assert(parts.map_values(|part: ReasoningItemContentView| part.text()) == Seq::new(
            parts.len(),
            |k: int| thought(parts[k]),
        ));
    }
}

/// What a tool returned is what the model is told, whether the call succeeded, failed, or does not
/// say: its text as it is, its items as they are encoded, or why they could not be encoded.
pub proof fn law_output_is_kept(output: FunctionCallOutputPayloadView)
    ensures
        forall|text: Seq<char>|
            output.body == FunctionCallOutputBodyView::Text(text) ==> output_text(output) == text,
        forall|encoding: Seq<char>|
            output.body == FunctionCallOutputBodyView::ContentItems(
                EncodedItemsView::Json(encoding),
            ) ==> output_text(output) == encoding,
        forall|message: Seq<char>|
            output.body == FunctionCallOutputBodyView::ContentItems(
                EncodedItemsView::Failed(message),
            ) ==> output_text(output) == "failed to serialize tool output: "@ + message,
{
}

/// What is told of an output depends on its body alone.
pub proof fn law_success_flag_changes_nothing(
    body: FunctionCallOutputBodyView,
    one: Option<bool>,
    other: Option<bool>,
)
    ensures
        output_text(FunctionCallOutputPayloadView { body, success: one }) == output_text(
            FunctionCallOutputPayloadView { body, success: other },
        ),
{
}

/// The message that answers a call comes from the tool, names the call, tells what the call
/// returned, and nothing else.
pub proof fn law_answer_tells_the_output(
    call_id: Seq<char>,
    output: FunctionCallOutputPayloadView,
)
    ensures
        output_message(call_id, output) == (ChatMessageView {
            role: "tool"@,
            content: Some(
                ChatMessageContentView::Text(
                    match output.body {
                        FunctionCallOutputBodyView::Text(text) => text,
                        FunctionCallOutputBodyView::ContentItems(
                            EncodedItemsView::Json(encoding),
                        ) => encoding,
                        FunctionCallOutputBodyView::ContentItems(
                            EncodedItemsView::Failed(message),
                        ) => "failed to serialize tool output: "@ + message,
                    },
                ),
            ),
            reasoning_content: None,
            tool_calls: None,
            tool_call_id: Some(call_id),
        }),
{
}

/// A message that says something has its role, its content and its reasoning, and calls or answers
/// nothing.
pub proof fn law_spoken_message(
    role: Seq<char>,
    content: ChatMessageContentView,
    reasoning: Option<Seq<char>>,
)
    ensures
        spoken_message(role, content, reasoning) == (ChatMessageView {
            role,
            content: Some(content),
            reasoning_content: reasoning,
            tool_calls: None,
            tool_call_id: None,
        }),
{
}

/// A message that calls tools is the assistant's, has the calls and their reasoning, and says
/// nothing.
pub proof fn law_calling_message(calls: Seq<ChatToolCallView>, reasoning: Option<Seq<char>>)
    ensures
        calling_message(calls, reasoning) == (ChatMessageView {
            role: "assistant"@,
            content: None,
            reasoning_content: reasoning,
            tool_calls: Some(calls),
            tool_call_id: None,
        }),
{
}

/// Reasoning that an item carries counts exactly where it is not empty, as it is.
pub proof fn law_own_reasoning(carried: Option<Seq<char>>)
    ensures
        own_reasoning(carried) is Some <==> carried is Some && carried->0.len() > 0,
        own_reasoning(carried) is Some ==> own_reasoning(carried) == carried,
{
}

/// Reasoning texts go out on lines of their own; none goes out exactly where there is none.
pub proof fn law_lines_of(texts: Seq<Seq<char>>, text: Seq<char>)
    ensures
        lines_of(texts) is Some <==> texts.len() > 0,
        texts.len() > 0 ==> lines_of(texts) == Some(joined_lines(texts)),
        listed(Some(text)) == seq![text],
        listed(None) == Seq::<Seq<char>>::empty(),
{
}

} // verus!
