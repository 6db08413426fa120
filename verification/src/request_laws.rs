//! What holds of every converted conversation.

use crate::chat::{ChatMessageContentView, ChatMessageView};
use crate::content::{
    calling_message, chat_content, chat_role, lines_of, listed, output_message, own_reasoning,
    reasoning_text, spoken_message,
};
use crate::protocol::ResponseItemView;
use crate::request::{
    after_message, chat_messages, message_reasoning, messages_from, opening,
};
use crate::tool_calls::{
    answers, call_group, call_ids, call_run_end, calls_between, lemma_all_answered,
    lemma_call_run_end, lemma_group_advances, lemma_output_run_end, lemma_outputs_known,
    output_run_end,
};
use vstd::prelude::*;

verus! {

/// Whether the message answers a tool call with this id, and does nothing else.
pub open spec fn is_answer_to(message: ChatMessageView, id: Seq<char>) -> bool {
    &&& message.role == "tool"@
    &&& message.tool_call_id == Some(id)
    &&& message.tool_calls is None
}

/// Whether the message at a position, where it calls tools, is the assistant's, calls at least
/// one, gives each call an id of its own, and is followed by one answer to each call, in the order
/// of the calls.
pub open spec fn calls_answered_at(messages: Seq<ChatMessageView>, j: int) -> bool {
    messages[j].tool_calls matches Some(calls) ==> {
        &&& messages[j].role == "assistant"@
        &&& messages[j].tool_call_id is None
        &&& calls.len() > 0
        &&& call_ids(calls).no_duplicates()
        &&& j + calls.len() < messages.len()
        &&& forall|k: int|
            0 <= k < calls.len() ==> is_answer_to(#[trigger] messages[j + 1 + k], calls[k].id)
    }
}

/// Whether the message at position `i` made the call that the message at position `j` answers.
pub open spec fn answers_call_of(messages: Seq<ChatMessageView>, i: int, j: int) -> bool {
    &&& 0 <= i < j
    &&& messages[i].tool_calls matches Some(calls) && j - i - 1 < calls.len() && is_answer_to(
        messages[j],
        calls[j - i - 1].id,
    )
}

/// What holds of a chat that an endpoint accepts.
pub open spec fn acceptable(messages: Seq<ChatMessageView>) -> bool {
    &&& forall|j: int| 0 <= j < messages.len() ==> #[trigger] calls_answered_at(messages, j)
    &&& forall|j: int|
        0 <= j < messages.len() && (#[trigger] messages[j]).tool_call_id is Some ==> exists|i: int|
            answers_call_of(messages, i, j)
    &&& forall|j: int|
        0 <= j < messages.len() ==> (#[trigger] messages[j]).role != "developer"@ && (
        messages[j].reasoning_content is Some ==> messages[j].role == "assistant"@)
    &&& forall|j: int|
        0 <= j < messages.len() && (#[trigger] messages[j]).tool_calls is None
            ==> messages[j].content is Some
}

/// Two acceptable chats, one after the other, are an acceptable chat.
proof fn lemma_acceptable_concat(first: Seq<ChatMessageView>, second: Seq<ChatMessageView>)
    requires
        acceptable(first),
        acceptable(second),
    ensures
        acceptable(first + second),
{
    let all = first + second;
    assert forall|j: int| 0 <= j < all.len() implies #[trigger] calls_answered_at(all, j) by {
        if j < first.len() {
            assert(calls_answered_at(first, j));
            if let Some(calls) = first[j].tool_calls {
                assert forall|k: int| 0 <= k < calls.len() implies is_answer_to(
                    #[trigger] all[j + 1 + k],
                    calls[k].id,
                ) by {
                    assert(all[j + 1 + k] == first[j + 1 + k]);
                }
            }
        } else {
            let at = j - first.len();
            assert(calls_answered_at(second, at));
            if let Some(calls) = second[at].tool_calls {
                assert forall|k: int| 0 <= k < calls.len() implies is_answer_to(
                    #[trigger] all[j + 1 + k],
                    calls[k].id,
                ) by {
                    assert(all[j + 1 + k] == second[at + 1 + k]);
                }
            }
        }
    }
    assert forall|j: int| 0 <= j < all.len() && (#[trigger] all[j]).tool_call_id is Some implies exists|
        i: int,
    | answers_call_of(all, i, j) by {
        if j < first.len() {
            let i = choose|i: int| answers_call_of(first, i, j);
            assert(all[j] == first[j]);
            assert(answers_call_of(all, i, j));
        } else {
            let at = j - first.len();
            assert(all[j] == second[at]);
            let i = choose|i: int| answers_call_of(second, i, at);
            assert(answers_call_of(all, i + first.len(), j));
        }
    }
}

/// A message that only says something is an acceptable chat.
proof fn lemma_acceptable_spoken(
    role: Seq<char>,
    content: ChatMessageContentView,
    reasoning: Option<Seq<char>>,
)
    requires
        role != "developer"@,
        reasoning is Some ==> role == "assistant"@,
    ensures
        acceptable(seq![spoken_message(role, content, reasoning)]),
{
    let chat = seq![spoken_message(role, content, reasoning)];
    assert(chat[0] == spoken_message(role, content, reasoning));
    assert forall|j: int| 0 <= j < chat.len() implies #[trigger] calls_answered_at(chat, j) by {
        assert(chat[j] == chat[0]);
    }
}

/// The outputs of a group are outputs of its calls.
proof fn lemma_group_outputs(items: Seq<ResponseItemView>, i: int)
    requires
        0 <= i <= items.len(),
    ensures
        call_group(items, i).outputs.dom().finite(),
        call_group(items, i).outputs.dom().subset_of(
            call_ids(call_group(items, i).calls).to_set(),
        ),
{
    lemma_call_run_end(items, i);
    let run_end = call_run_end(items, i);
    let ids = call_ids(calls_between(items, i, run_end));
    lemma_output_run_end(items, ids, run_end, run_end);
    lemma_outputs_known(items, ids, run_end, output_run_end(items, ids, run_end, run_end));
}

/// A run that starts with a call has a call.
proof fn lemma_run_has_a_call(items: Seq<ResponseItemView>, i: int, hi: int)
    requires
        items[i].call() is Some,
        i < hi,
    ensures
        calls_between(items, i, hi).len() > 0,
    decreases hi - i,
{
    if i + 1 < hi {
        lemma_run_has_a_call(items, i, hi - 1);
    }
}

/// The messages of a group are an acceptable chat.
proof fn lemma_acceptable_group(
    items: Seq<ResponseItemView>,
    i: int,
    preceding: Option<Seq<char>>,
)
    requires
        0 <= i < items.len(),
        items[i].call() is Some,
    ensures
        acceptable(call_group(items, i).messages(preceding)),
{
    reveal_strlit("tool");
    reveal_strlit("assistant");
    reveal_strlit("developer");
    let group = call_group(items, i);
    let chat = group.messages(preceding);
    if group.complete() {
        let ids = call_ids(group.calls);
        lemma_call_run_end(items, i);
        lemma_run_has_a_call(items, i, call_run_end(items, i));
        lemma_group_outputs(items, i);
        lemma_all_answered(ids, group.outputs);
        assert(chat[0] == calling_message(
            group.calls,
            lines_of(listed(preceding) + group.reasoning),
        ));
        assert forall|k: int| 0 <= k < ids.len() implies #[trigger] chat[1 + k] == output_message(
            group.calls[k].id,
            group.outputs[group.calls[k].id],
        ) by {
            assert(ids[k] == group.calls[k].id);
        }
        assert forall|j: int| 0 <= j < chat.len() implies #[trigger] calls_answered_at(chat, j) by {
            if j > 0 {
                assert(chat[1 + (j - 1)] == chat[j]);
            }
        }
        assert forall|j: int|
            0 <= j < chat.len() && (#[trigger] chat[j]).tool_call_id is Some implies exists|i: int|
            answers_call_of(chat, i, j) by {
            assert(j > 0);
            assert(chat[1 + (j - 1)] == chat[j]);
            assert(answers_call_of(chat, 0, j));
        }
        assert forall|j: int| 0 <= j < chat.len() implies (#[trigger] chat[j]).role != "developer"@
            && (chat[j].reasoning_content is Some ==> chat[j].role == "assistant"@) by {
            if j > 0 {
                assert(chat[1 + (j - 1)] == chat[j]);
            }
            assert("tool"@.len() == 4);
            assert("assistant"@[0] == 'a');
            assert("developer"@[0] == 'd');
        }
    }
}

/// The messages from a position on are an acceptable chat.
proof fn lemma_acceptable_from(items: Seq<ResponseItemView>, i: int, pending: Option<Seq<char>>)
    ensures
        acceptable(messages_from(items, i, pending)),
    decreases items.len() - i,
{
    if 0 <= i < items.len() {
        match items[i] {
            ResponseItemView::Reasoning { content, .. } => {
                let text = reasoning_text(content);
                lemma_acceptable_from(items, i + 1, if text is Some { text } else { pending });
            },
            ResponseItemView::Message { role, content, reasoning_content, .. } => {
                let speaker = chat_role(role);
                let said = chat_content(content);
                reveal_strlit("developer");
                reveal_strlit("system");
                assert("developer"@[0] != "system"@[0]);
                assert(speaker != "developer"@);
                let (reasoning, next, left) = if speaker != "assistant"@ {
                    (None, i + 1, pending)
                } else {
                    (
                        message_reasoning(items, i, pending, reasoning_content),
                        after_message(items, i, pending),
                        None,
                    )
                };
                lemma_acceptable_spoken(speaker, said, reasoning);
                lemma_acceptable_from(items, next, left);
                lemma_acceptable_concat(
                    seq![spoken_message(speaker, said, reasoning)],
                    messages_from(items, next, left),
                );
            },
            ResponseItemView::FunctionCall { .. } | ResponseItemView::CustomToolCall { .. } => {
                let group = call_group(items, i);
                lemma_group_advances(items, i);
                lemma_acceptable_group(items, i, pending);
                lemma_acceptable_from(items, group.end, None);
                lemma_acceptable_concat(
                    group.messages(pending),
                    messages_from(items, group.end, None),
                );
            },
            _ => {
                lemma_acceptable_from(items, i + 1, pending);
            },
        }
    }
}

/// The messages of a conversation are an acceptable chat.
proof fn lemma_acceptable_chat(instructions: Seq<char>, items: Seq<ResponseItemView>)
    ensures
        acceptable(chat_messages(instructions, items)),
{
    lemma_acceptable_from(items, 0, None);
    if instructions.len() > 0 {
        reveal_strlit("developer");
        reveal_strlit("system");
        assert("developer"@[0] != "system"@[0]);
        lemma_acceptable_spoken("system"@, ChatMessageContentView::Text(instructions), None);
    }
    lemma_acceptable_concat(opening(instructions), messages_from(items, 0, None));
}

/// A message that calls tools is the assistant's, calls at least one, and gives each call an id of
/// its own. It is followed directly by one answer to each of its calls, in the order of the calls.
/// The answers come from the role `tool`.
pub proof fn law_every_call_is_answered(
    instructions: Seq<char>,
    items: Seq<ResponseItemView>,
    j: int,
)
    requires
        0 <= j < chat_messages(instructions, items).len(),
    ensures
        calls_answered_at(chat_messages(instructions, items), j),
{
    lemma_acceptable_chat(instructions, items);
}

/// A message that answers a tool call stands among the answers that follow the message which made
/// the call, and among those of no other message.
pub proof fn law_every_answer_has_its_call(
    instructions: Seq<char>,
    items: Seq<ResponseItemView>,
    j: int,
)
    requires
        0 <= j < chat_messages(instructions, items).len(),
        chat_messages(instructions, items)[j].tool_call_id is Some,
    ensures
        exists|i: int| answers_call_of(chat_messages(instructions, items), i, j),
        forall|i: int, other: int|
            answers_call_of(chat_messages(instructions, items), i, j) && answers_call_of(
                chat_messages(instructions, items),
                other,
                j,
            ) ==> i == other,
{
    let messages = chat_messages(instructions, items);
    lemma_acceptable_chat(instructions, items);
    assert forall|i: int, other: int|
        answers_call_of(messages, i, j) && answers_call_of(messages, other, j) implies i == other by {
        if i < other {
            lemma_blocks_are_apart(messages, i, other, j);
        } else if other < i {
            lemma_blocks_are_apart(messages, other, i, j);
        }
    }
}

/// No answer stands among those of two messages.
proof fn lemma_blocks_are_apart(messages: Seq<ChatMessageView>, i: int, other: int, j: int)
    requires
        acceptable(messages),
        0 <= j < messages.len(),
        i < other,
        answers_call_of(messages, i, j),
    ensures
        !answers_call_of(messages, other, j),
{
    if other < j {
        assert(calls_answered_at(messages, i));
        let calls = messages[i].tool_calls->0;
        assert(is_answer_to(messages[i + 1 + (other - i - 1)], calls[other - i - 1].id));
    }
}

/// No message of a chat is the developer's.
pub proof fn law_no_developer(instructions: Seq<char>, items: Seq<ResponseItemView>, j: int)
    requires
        0 <= j < chat_messages(instructions, items).len(),
    ensures
        chat_messages(instructions, items)[j].role != "developer"@,
{
    lemma_acceptable_chat(instructions, items);
}

/// Only the assistant's messages carry reasoning.
pub proof fn law_only_the_assistant_reasons(
    instructions: Seq<char>,
    items: Seq<ResponseItemView>,
    j: int,
)
    requires
        0 <= j < chat_messages(instructions, items).len(),
        chat_messages(instructions, items)[j].reasoning_content is Some,
    ensures
        chat_messages(instructions, items)[j].role == "assistant"@,
{
    lemma_acceptable_chat(instructions, items);
}

/// Every message that calls no tool says something. So a chat holds nothing but what is said, calls
/// of tools, and their answers.
pub proof fn law_every_other_message_says_something(
    instructions: Seq<char>,
    items: Seq<ResponseItemView>,
    j: int,
)
    requires
        0 <= j < chat_messages(instructions, items).len(),
        chat_messages(instructions, items)[j].tool_calls is None,
    ensures
        chat_messages(instructions, items)[j].content is Some,
{
    lemma_acceptable_chat(instructions, items);
}

/// A run of tool calls becomes messages exactly where its calls have distinct ids and an output
/// was found for every one of them. Else it becomes nothing at all.
pub proof fn law_group_is_complete_or_absent(
    items: Seq<ResponseItemView>,
    i: int,
    preceding: Option<Seq<char>>,
)
    requires
        0 <= i <= items.len(),
    ensures
        ({
            let group = call_group(items, i);
            let ids = call_ids(group.calls);
            let answered = ids.no_duplicates() && forall|k: int|
                0 <= k < ids.len() ==> group.outputs.contains_key(#[trigger] ids[k]);
            if answered {
                group.messages(preceding).len() == 1 + ids.len()
            } else {
                group.messages(preceding).len() == 0
            }
        }),
{
    let group = call_group(items, i);
    let ids = call_ids(group.calls);
    lemma_group_outputs(items, i);
    lemma_all_answered(ids, group.outputs);
    if forall|k: int| 0 <= k < ids.len() ==> group.outputs.contains_key(#[trigger] ids[k]) {
        assert(ids.to_set().subset_of(group.outputs.dom()));
        assert(group.outputs.dom() == ids.to_set());
    }
    if group.outputs.dom() == ids.to_set() {
        assert forall|k: int| 0 <= k < ids.len() implies group.outputs.contains_key(
            #[trigger] ids[k],
        ) by {
            assert(ids.to_set().contains(ids[k]));
        }
    }
}

/// What a message says, where it only says something: who says it, and what.
pub open spec fn said_by(message: ChatMessageView) -> Seq<(Seq<char>, ChatMessageContentView)> {
    match message.content {
        Some(content) if message.tool_calls is None && message.tool_call_id is None => seq![
            (message.role, content),
        ],
        _ => Seq::empty(),
    }
}

/// What the messages say, in order, apart from tool calls and their answers.
pub open spec fn said_in_chat(messages: Seq<ChatMessageView>) -> Seq<
    (Seq<char>, ChatMessageContentView),
>
    decreases messages.len(),
{
    if messages.len() == 0 {
        Seq::empty()
    } else {
        said_by(messages[0]) + said_in_chat(messages.drop_first())
    }
}

/// What the message items from position `i` on say, in the words of a chat.
pub open spec fn said_from(items: Seq<ResponseItemView>, i: int) -> Seq<
    (Seq<char>, ChatMessageContentView),
>
    decreases items.len() - i,
{
    if i < 0 || i >= items.len() {
        Seq::empty()
    } else {
        match items[i] {
            ResponseItemView::Message { role, content, .. } => seq![
                (chat_role(role), chat_content(content)),
            ] + said_from(items, i + 1),
            _ => said_from(items, i + 1),
        }
    }
}

/// What two chats say, one after the other.
proof fn lemma_said_concat(first: Seq<ChatMessageView>, second: Seq<ChatMessageView>)
    ensures
        said_in_chat(first + second) == said_in_chat(first) + said_in_chat(second),
    decreases first.len(),
{
    let all = first + second;
    if first.len() == 0 {
        assert(all == second);
        assert(said_in_chat(first) + said_in_chat(second) == said_in_chat(second));
    } else {
        assert(all.drop_first() == first.drop_first() + second);
        lemma_said_concat(first.drop_first(), second);
        assert(said_by(first[0]) + (said_in_chat(first.drop_first()) + said_in_chat(second)) == (
        said_by(first[0]) + said_in_chat(first.drop_first())) + said_in_chat(second));
    }
}

/// What one message and then more messages say.
proof fn lemma_said_cons(message: ChatMessageView, rest: Seq<ChatMessageView>)
    ensures
        said_in_chat(seq![message] + rest) == said_by(message) + said_in_chat(rest),
{
    let all = seq![message] + rest;
    assert(all[0] == message);
    assert(all.drop_first() == rest);
}

/// Messages none of which only says something say nothing.
proof fn lemma_said_nothing(messages: Seq<ChatMessageView>)
    requires
        forall|j: int| 0 <= j < messages.len() ==> said_by(#[trigger] messages[j]).len() == 0,
    ensures
        said_in_chat(messages) == Seq::<(Seq<char>, ChatMessageContentView)>::empty(),
    decreases messages.len(),
{
    if messages.len() > 0 {
        lemma_said_nothing(messages.drop_first());
        assert(said_by(messages[0]).len() == 0);
    }
}

/// Positions that hold no message say nothing.
proof fn lemma_said_skip(items: Seq<ResponseItemView>, lo: int, hi: int)
    requires
        0 <= lo <= hi <= items.len(),
        forall|k: int| lo <= k < hi ==> !(#[trigger] items[k] is Message),
    ensures
        said_from(items, lo) == said_from(items, hi),
    decreases hi - lo,
{
    if lo < hi {
        assert(!(items[lo] is Message));
        lemma_said_skip(items, lo + 1, hi);
    }
}

/// A group of calls and outputs holds no message.
proof fn lemma_group_holds_no_message(items: Seq<ResponseItemView>, i: int)
    requires
        0 <= i < items.len(),
        items[i].call() is Some,
    ensures
        forall|k: int| i <= k < call_group(items, i).end ==> !(#[trigger] items[k] is Message),
{
    lemma_call_run_end(items, i);
    let run_end = call_run_end(items, i);
    let ids = call_ids(calls_between(items, i, run_end));
    lemma_output_run_end(items, ids, run_end, run_end);
    assert forall|k: int| i <= k < call_group(items, i).end implies !(
    #[trigger] items[k] is Message) by {
        if k < run_end {
            assert(items[k].in_call_run());
        } else {
            assert(items[k].in_output_run(ids));
        }
    }
}

/// The messages from a position on say what the items from there on say.
proof fn lemma_said_from(items: Seq<ResponseItemView>, i: int, pending: Option<Seq<char>>)
    ensures
        said_in_chat(messages_from(items, i, pending)) == said_from(items, i),
    decreases items.len() - i,
{
    if 0 <= i < items.len() {
        match items[i] {
            ResponseItemView::Reasoning { content, .. } => {
                let text = reasoning_text(content);
                lemma_said_from(items, i + 1, if text is Some { text } else { pending });
            },
            ResponseItemView::Message { role, content, reasoning_content, .. } => {
                let speaker = chat_role(role);
                let said = chat_content(content);
                let (reasoning, next, left) = if speaker != "assistant"@ {
                    (None, i + 1, pending)
                } else {
                    (
                        message_reasoning(items, i, pending, reasoning_content),
                        after_message(items, i, pending),
                        None,
                    )
                };
                lemma_said_from(items, next, left);
                lemma_said_cons(
                    spoken_message(speaker, said, reasoning),
                    messages_from(items, next, left),
                );
                lemma_said_skip(items, i + 1, next);
            },
            ResponseItemView::FunctionCall { .. } | ResponseItemView::CustomToolCall { .. } => {
                let group = call_group(items, i);
                let messages = group.messages(pending);
                lemma_group_advances(items, i);
                lemma_group_holds_no_message(items, i);
                lemma_said_skip(items, i, group.end);
                lemma_said_from(items, group.end, None);
                lemma_said_concat(messages, messages_from(items, group.end, None));
                lemma_said_nothing(messages);
                assert(said_in_chat(messages) + said_from(items, group.end) == said_from(
                    items,
                    group.end,
                ));
            },
            _ => {
                lemma_said_from(items, i + 1, pending);
            },
        }
    }
}

/// Nothing that was said is lost, added or reordered: apart from tool calls and their answers, a
/// chat holds the instructions, where there are any, and then every message of the conversation.
pub proof fn law_every_message_is_kept(instructions: Seq<char>, items: Seq<ResponseItemView>)
    ensures
        said_in_chat(chat_messages(instructions, items)) == (if instructions.len() == 0 {
            Seq::empty()
        } else {
            seq![("system"@, ChatMessageContentView::Text(instructions))]
        }) + said_from(items, 0),
{
    lemma_said_concat(opening(instructions), messages_from(items, 0, None));
    lemma_said_from(items, 0, None);
    if instructions.len() > 0 {
        let message = spoken_message(
            "system"@,
            ChatMessageContentView::Text(instructions),
            None,
        );
        lemma_said_cons(message, Seq::empty());
        assert(seq![message] + Seq::<ChatMessageView>::empty() == opening(instructions));
        assert(said_by(message) + Seq::<(Seq<char>, ChatMessageContentView)>::empty() == said_by(
            message,
        ));
    }
}

/// Reasoning directly before a message of the assistant goes with that message, ahead of the
/// reasoning that the message carries itself.
pub proof fn law_reasoning_before_a_message(
    items: Seq<ResponseItemView>,
    i: int,
    pending: Option<Seq<char>>,
)
    requires
        0 <= i && i + 1 < items.len(),
        items[i] is Reasoning,
        items[i].reasoning() is Some,
        items[i + 1] is Message,
        items[i + 1]->Message_role == "assistant"@,
    ensures
        messages_from(items, i, pending) == seq![
            spoken_message(
                "assistant"@,
                chat_content(items[i + 1]->Message_content),
                lines_of(
                    listed(items[i].reasoning()) + listed(
                        own_reasoning(items[i + 1]->Message_reasoning_content),
                    ),
                ),
            ),
        ] + messages_from(items, i + 2, None),
{
    reveal_strlit("developer");
    reveal_strlit("assistant");
    assert("developer"@[0] != "assistant"@[0]);
    let text = items[i].reasoning();
    let own = own_reasoning(items[i + 1]->Message_reasoning_content);
    assert(listed(text) + listed(own) + listed(None) == listed(text) + listed(own));
    assert(messages_from(items, i, pending) == messages_from(items, i + 1, text));
}

/// Reasoning directly after a message of the assistant goes with that message, behind the
/// reasoning that the message carries itself, where no reasoning item was waiting before it.
pub proof fn law_reasoning_after_a_message(items: Seq<ResponseItemView>, i: int)
    requires
        0 <= i && i + 1 < items.len(),
        items[i] is Message,
        items[i]->Message_role == "assistant"@,
        items[i + 1] is Reasoning,
        items[i + 1].reasoning() is Some,
    ensures
        messages_from(items, i, None) == seq![
            spoken_message(
                "assistant"@,
                chat_content(items[i]->Message_content),
                lines_of(
                    listed(own_reasoning(items[i]->Message_reasoning_content)) + listed(
                        items[i + 1].reasoning(),
                    ),
                ),
            ),
        ] + messages_from(items, i + 2, None),
{
    reveal_strlit("developer");
    reveal_strlit("assistant");
    assert("developer"@[0] != "assistant"@[0]);
    let own = own_reasoning(items[i]->Message_reasoning_content);
    assert(listed(None) + listed(own) == listed(own));
}

/// Reasoning directly before a run of tool calls goes with the calls, ahead of the reasoning
/// among them.
pub proof fn law_reasoning_before_calls(
    items: Seq<ResponseItemView>,
    i: int,
    pending: Option<Seq<char>>,
)
    requires
        0 <= i && i + 1 < items.len(),
        items[i] is Reasoning,
        items[i].reasoning() is Some,
        items[i + 1].call() is Some,
        call_group(items, i + 1).complete(),
    ensures
        ({
            let group = call_group(items, i + 1);
            let messages = messages_from(items, i, pending);
            &&& messages.len() > group.calls.len()
            &&& messages[0] == calling_message(
                group.calls,
                lines_of(seq![items[i].reasoning()->0] + group.reasoning),
            )
            &&& messages.subrange(1, 1 + group.calls.len() as int) == answers(
                call_ids(group.calls),
                group.outputs,
            )
        }),
{
    let group = call_group(items, i + 1);
    let text = items[i].reasoning();
    assert(messages_from(items, i, pending) == messages_from(items, i + 1, text));
    assert(messages_from(items, i + 1, text) == group.messages(text) + messages_from(
        items,
        group.end,
        None,
    ));
}

/// Items that take no part in a chat add nothing to it.
pub proof fn law_other_items_add_nothing(instructions: Seq<char>, items: Seq<ResponseItemView>)
    requires
        forall|k: int|
            0 <= k < items.len() ==> !(#[trigger] items[k] is Message) && items[k].call() is None,
    ensures
        chat_messages(instructions, items) == opening(instructions),
{
    lemma_nothing_from(items, 0, None);
    assert(opening(instructions) + Seq::<ChatMessageView>::empty() == opening(instructions));
}

/// Where there are neither messages nor calls from a position on, there are no chat messages.
proof fn lemma_nothing_from(items: Seq<ResponseItemView>, i: int, pending: Option<Seq<char>>)
    requires
        0 <= i,
        forall|k: int|
            0 <= k < items.len() ==> !(#[trigger] items[k] is Message) && items[k].call() is None,
    ensures
        messages_from(items, i, pending) == Seq::<ChatMessageView>::empty(),
    decreases items.len() - i,
{
    if i < items.len() {
        assert(!(items[i] is Message) && items[i].call() is None);
        lemma_nothing_from(items, i + 1, pending);
        if let ResponseItemView::Reasoning { content, .. } = items[i] {
            lemma_nothing_from(items, i + 1, reasoning_text(content));
        }
    }
}

} // verus!
