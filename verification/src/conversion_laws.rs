//! What each item of a conversation adds to a chat, and what a chat request takes over.

use crate::chat::{ChatMessageContentView, ChatMessageView};
use crate::content::{chat_content, listed, own_reasoning, reasoning_text};
use crate::group_laws::calls_a_tool;
use crate::json::Json;
use crate::protocol::{ResponseItemView, ResponsesApiRequestView};
use crate::request::{chat_messages, chat_request, messages_from};
use crate::text::joined_lines;
use crate::tool_calls::{call_group, lemma_group_advances};
use crate::tools::chat_tools;
use vstd::prelude::*;

verus! {

/// A chat is the instructions, as a message of the system, where there are any, and then what the
/// items become, from the first on and with no reasoning waiting.
pub proof fn law_chat_begins(instructions: Seq<char>, items: Seq<ResponseItemView>)
    ensures
        instructions.len() == 0 ==> chat_messages(instructions, items) == messages_from(
            items,
            0,
            None,
        ),
        instructions.len() > 0 ==> chat_messages(instructions, items) == seq![
            ChatMessageView {
                role: "system"@,
                content: Some(ChatMessageContentView::Text(instructions)),
                reasoning_content: None,
                tool_calls: None,
                tool_call_id: None,
            },
        ] + messages_from(items, 0, None),
{
    let rest = messages_from(items, 0, None);
    assert(Seq::<ChatMessageView>::empty() + rest == rest);
}

/// Behind the last item nothing is added, whatever was waiting.
pub proof fn law_chat_ends(items: Seq<ResponseItemView>, i: int, pending: Option<Seq<char>>)
    requires
        i >= items.len(),
    ensures
        messages_from(items, i, pending).len() == 0,
{
}

/// A reasoning item adds no message. Its text waits, in place of what waited before; without a
/// text what waited goes on waiting.
pub proof fn law_reasoning_item_waits(
    items: Seq<ResponseItemView>,
    i: int,
    pending: Option<Seq<char>>,
)
    requires
        0 <= i < items.len(),
        items[i] is Reasoning,
    ensures
        reasoning_text(items[i]->Reasoning_content) is Some ==> messages_from(items, i, pending)
            == messages_from(items, i + 1, reasoning_text(items[i]->Reasoning_content)),
        reasoning_text(items[i]->Reasoning_content) is None ==> messages_from(items, i, pending)
            == messages_from(items, i + 1, pending),
{
}

/// A message of anyone but the assistant adds one message, from the system where it is the
/// developer's and else from the same role, with its content and without reasoning. What waited
/// goes on waiting.
pub proof fn law_message_of_others(
    items: Seq<ResponseItemView>,
    i: int,
    pending: Option<Seq<char>>,
)
    requires
        0 <= i < items.len(),
        items[i] is Message,
        items[i]->Message_role != "assistant"@,
    ensures
        messages_from(items, i, pending) == seq![
            ChatMessageView {
                role: if items[i]->Message_role == "developer"@ {
                    "system"@
                } else {
                    items[i]->Message_role
                },
                content: Some(chat_content(items[i]->Message_content)),
                reasoning_content: None,
                tool_calls: None,
                tool_call_id: None,
            },
        ] + messages_from(items, i + 1, pending),
{
    reveal_strlit("system");
    reveal_strlit("assistant");
    assert("system"@.len() != "assistant"@.len());
}

/// The text of the reasoning item directly behind position `i`, if there is one and it has a text.
pub open spec fn text_behind(items: Seq<ResponseItemView>, i: int) -> Option<Seq<char>> {
    if 0 <= i && i + 1 < items.len() && items[i + 1] is Reasoning {
        reasoning_text(items[i + 1]->Reasoning_content)
    } else {
        None
    }
}

/// The texts that are there, in order.
pub open spec fn those_given(texts: Seq<Option<Seq<char>>>) -> Seq<Seq<char>>
    decreases texts.len(),
{
    if texts.len() == 0 {
        Seq::empty()
    } else {
        match texts.last() {
            Some(text) => those_given(texts.drop_last()).push(text),
            None => those_given(texts.drop_last()),
        }
    }
}

/// A message of the assistant adds one message, with its content. The reasoning that was waiting
/// goes with it and then its own; where none was waiting, its own and then that of the reasoning
/// item directly behind it, which is then used up. Nothing waits after it.
pub proof fn law_message_of_the_assistant(
    items: Seq<ResponseItemView>,
    i: int,
    pending: Option<Seq<char>>,
)
    requires
        0 <= i < items.len(),
        items[i] is Message,
        items[i]->Message_role == "assistant"@,
    ensures
        ({
            let behind = if pending is None {
                text_behind(items, i)
            } else {
                None
            };
            let texts = those_given(
                seq![pending, own_reasoning(items[i]->Message_reasoning_content), behind],
            );
            messages_from(items, i, pending) == seq![
                ChatMessageView {
                    role: "assistant"@,
                    content: Some(chat_content(items[i]->Message_content)),
                    reasoning_content: if texts.len() == 0 {
                        None
                    } else {
                        Some(joined_lines(texts))
                    },
                    tool_calls: None,
                    tool_call_id: None,
                },
            ] + messages_from(
                items,
                if behind is Some {
                    i + 2
                } else {
                    i + 1
                },
                None,
            )
        }),
{
    reveal_strlit("developer");
    reveal_strlit("assistant");
    assert("developer"@[0] != "assistant"@[0]);
    let own = own_reasoning(items[i]->Message_reasoning_content);
    let behind = if pending is None {
        text_behind(items, i)
    } else {
        None
    };
    let texts = seq![pending, own, behind];
    reveal_with_fuel(those_given, 4);
    assert(texts.drop_last() == seq![pending, own]);
    assert(texts.drop_last().drop_last() == seq![pending]);
    assert(texts.drop_last().drop_last().drop_last() == Seq::<Option<Seq<char>>>::empty());
    assert(listed(pending) + listed(own) + listed(behind) == those_given(texts));
}

/// A tool call adds the messages of the group that it starts, with the reasoning that was waiting,
/// and the conversation goes on behind the group with nothing waiting.
pub proof fn law_call_adds_its_group(
    items: Seq<ResponseItemView>,
    i: int,
    pending: Option<Seq<char>>,
)
    requires
        0 <= i < items.len(),
        calls_a_tool(items[i]),
    ensures
        i < call_group(items, i).end <= items.len(),
        messages_from(items, i, pending) == call_group(items, i).messages(pending) + messages_from(
            items,
            call_group(items, i).end,
            None,
        ),
{
    lemma_group_advances(items, i);
}

/// Any other item adds nothing, and what waited goes on waiting.
pub proof fn law_other_item_is_passed_over(
    items: Seq<ResponseItemView>,
    i: int,
    pending: Option<Seq<char>>,
)
    requires
        0 <= i < items.len(),
        !(items[i] is Message) && !(items[i] is Reasoning) && !calls_a_tool(items[i]),
    ensures
        messages_from(items, i, pending) == messages_from(items, i + 1, pending),
{
}

/// A chat request takes the model, the choice of tools, the leave to call them in parallel, the
/// service tier and the cache key over as they are. It asks for a stream that reports its usage,
/// and asks the model to think, with the effort that is set, exactly where reasoning is set.
pub proof fn law_request_is_taken_over(request: ResponsesApiRequestView)
    ensures
        ({
            let chat = chat_request(request);
            &&& chat.model == request.model
            &&& chat.messages == chat_messages(request.instructions, request.input)
            &&& chat.tools == chat_tools(request.tools)
            &&& chat.tool_choice == request.tool_choice
            &&& chat.parallel_tool_calls == Some(request.parallel_tool_calls)
            &&& chat.stream
            &&& chat.stream_options.include_usage
            &&& request.reasoning is None ==> chat.reasoning_effort is None && chat.thinking is None
            &&& request.reasoning is Some ==> chat.reasoning_effort == request.reasoning->0.effort
            &&& request.reasoning is Some ==> chat.thinking == Some(
                Json::Object(seq![("type"@, Json::String("enabled"@))]),
            )
            &&& chat.service_tier == request.service_tier
            &&& chat.prompt_cache_key == request.prompt_cache_key
        }),
{
}

} // verus!
