//! Which message takes the reasoning of a conversation.

use crate::chat::ChatMessageView;
use crate::content::{
    calling_message, chat_content, chat_role, lines_of, listed, own_reasoning, reasoning_text,
    spoken_message,
};
use crate::protocol::ResponseItemView;
use crate::request::{
    after_message, chat_messages, message_reasoning, messages_from, opening, reasoning_after,
    reasoning_behind,
};
use crate::text::joined_lines;
use crate::tool_calls::{
    call_group, call_ids, call_run_end, lemma_call_run_end, lemma_group_advances,
    lemma_output_run_end, reasoning_between,
};
use vstd::prelude::*;

verus! {

/// Whether the item is a message of the assistant.
pub open spec fn is_assistants(item: ResponseItemView) -> bool {
    item matches ResponseItemView::Message { role, .. } && role == "assistant"@
}

/// The position of the first message of the assistant from position `i` on.
pub open spec fn next_of_assistant(items: Seq<ResponseItemView>, i: int) -> Option<int>
    decreases items.len() - i,
{
    if i < 0 || i >= items.len() {
        None
    } else if is_assistants(items[i]) {
        Some(i)
    } else {
        next_of_assistant(items, i + 1)
    }
}

/// The position of the message that takes the reasoning at position `r`: the assistant's message
/// directly before it, else the assistant's first message after it.
pub open spec fn taker(items: Seq<ResponseItemView>, r: int) -> Option<int> {
    if r > 0 && is_assistants(items[r - 1]) {
        Some(r - 1)
    } else {
        next_of_assistant(items, r + 1)
    }
}

/// The message items from position `i` on, in the words of a chat: the one at position `at` with
/// this reasoning, all others without any.
pub open spec fn spoken_from(
    items: Seq<ResponseItemView>,
    i: int,
    at: Option<int>,
    text: Seq<char>,
) -> Seq<ChatMessageView>
    decreases items.len() - i,
{
    if i < 0 || i >= items.len() {
        Seq::empty()
    } else {
        match items[i] {
            ResponseItemView::Message { role, content, .. } => seq![
                spoken_message(
                    chat_role(role),
                    chat_content(content),
                    if at == Some(i) {
                        Some(text)
                    } else {
                        None
                    },
                ),
            ] + spoken_from(items, i + 1, at, text),
            _ => spoken_from(items, i + 1, at, text),
        }
    }
}

/// Whether the item neither calls a tool nor brings reasoning. What a message of anyone but the
/// assistant carries does not count.
pub open spec fn brings_no_reasoning(item: ResponseItemView) -> bool {
    &&& item.call() is None
    &&& item is Reasoning ==> item.reasoning() is None
    &&& is_assistants(item) ==> own_reasoning(item->Message_reasoning_content) is None
}

/// The messages that carry reasoning.
pub open spec fn with_reasoning(messages: Seq<ChatMessageView>) -> Seq<ChatMessageView> {
    messages.filter(|message: ChatMessageView| message.reasoning_content is Some)
}

/// The assistant keeps its role in a chat, and nobody else gets it.
proof fn lemma_assistants_role(role: Seq<char>)
    ensures
        chat_role(role) == "assistant"@ <==> role == "assistant"@,
{
    reveal_strlit("developer");
    reveal_strlit("assistant");
    reveal_strlit("system");
    assert("developer"@[0] != "assistant"@[0]);
    assert("system"@[0] != "assistant"@[0]);
}

/// After the reasoning: with the reasoning still waiting, the assistant's next message takes it;
/// without, no message has any.
proof fn lemma_after(
    items: Seq<ResponseItemView>,
    i: int,
    pending: Option<Seq<char>>,
    text: Seq<char>,
)
    requires
        0 <= i,
        forall|k: int| i <= k < items.len() ==> brings_no_reasoning(#[trigger] items[k]),
        pending is None || pending == Some(text),
    ensures
        messages_from(items, i, pending) == spoken_from(
            items,
            i,
            if pending is Some {
                next_of_assistant(items, i)
            } else {
                None
            },
            text,
        ),
    decreases items.len() - i,
{
    if i < items.len() {
        let item = items[i];
        assert(brings_no_reasoning(item));
        lemma_after(items, i + 1, pending, text);
        if let ResponseItemView::Message { role, reasoning_content, .. } = item {
            lemma_assistants_role(role);
            if is_assistants(item) {
                lemma_after(items, i + 1, None, text);
                assert(listed(pending) + listed(None) + listed(None) == listed(pending));
                if i + 1 < items.len() {
                    assert(brings_no_reasoning(items[i + 1]));
                }
                assert(reasoning_after(items, i) is None);
                assert(message_reasoning(items, i, pending, reasoning_content) == pending);
                lemma_taken_before(items, i + 1, Some(i), text);
            } else {
                lemma_next_is_later(items, i + 1);
            }
        }
    }
}

/// The assistant's next message does not stand before where it is looked for.
proof fn lemma_next_is_later(items: Seq<ResponseItemView>, i: int)
    ensures
        next_of_assistant(items, i) matches Some(at) ==> i <= at < items.len() && is_assistants(
            items[at],
        ),
    decreases items.len() - i,
{
    if 0 <= i < items.len() && !is_assistants(items[i]) {
        lemma_next_is_later(items, i + 1);
    }
}

/// A message before a position has no part in what comes from there on.
proof fn lemma_taken_before(
    items: Seq<ResponseItemView>,
    i: int,
    at: Option<int>,
    text: Seq<char>,
)
    requires
        at matches Some(k) && k < i,
    ensures
        spoken_from(items, i, at, text) == spoken_from(items, i, None, text),
    decreases items.len() - i,
{
    if 0 <= i < items.len() {
        lemma_taken_before(items, i + 1, at, text);
    }
}

/// Up to the reasoning: nothing waits.
proof fn lemma_up_to(items: Seq<ResponseItemView>, i: int, r: int)
    requires
        0 <= i <= r < items.len(),
        items[r] is Reasoning,
        items[r].reasoning() is Some,
        forall|k: int|
            i <= k < items.len() && k != r ==> brings_no_reasoning(#[trigger] items[k]),
        r > i || r == 0 || !is_assistants(items[r - 1]),
    ensures
        messages_from(items, i, None) == spoken_from(
            items,
            i,
            taker(items, r),
            items[r].reasoning()->0,
        ),
    decreases r - i,
{
    let text = items[r].reasoning()->0;
    let at = taker(items, r);
    if i == r {
        lemma_after(items, r + 1, Some(text), text);
    } else {
        let item = items[i];
        assert(brings_no_reasoning(item));
        lemma_next_is_later(items, r + 1);
        if let ResponseItemView::Message { role, .. } = item {
            lemma_assistants_role(role);
            let after = reasoning_after(items, i);
            assert(listed(None) + listed(None) + listed(after) == listed(after));
            if i + 1 == r && is_assistants(item) {
                assert(reasoning_after(items, i) == Some(text));
                lemma_after(items, i + 2, None, text);
                lemma_taken_before(items, i + 2, at, text);
                assert(spoken_from(items, i + 1, at, text) == spoken_from(items, i + 2, at, text));
            } else {
                lemma_up_to(items, i + 1, r);
                if is_assistants(item) {
                    assert(brings_no_reasoning(items[i + 1]));
                    assert(reasoning_after(items, i) is None);
                }
            }
        } else {
            lemma_up_to(items, i + 1, r);
        }
    }
}

/// Which of the messages from a position on carry reasoning.
proof fn lemma_with_reasoning(
    items: Seq<ResponseItemView>,
    i: int,
    at: Option<int>,
    text: Seq<char>,
)
    requires
        0 <= i,
        at matches Some(k) ==> 0 <= k < items.len() && is_assistants(items[k]),
    ensures
        with_reasoning(spoken_from(items, i, at, text)) == match at {
            Some(k) if i <= k => seq![
                spoken_message("assistant"@, chat_content(items[k]->Message_content), Some(text)),
            ],
            _ => Seq::empty(),
        },
    decreases items.len() - i,
{
    let all = spoken_from(items, i, at, text);
    if i < items.len() {
        lemma_with_reasoning(items, i + 1, at, text);
        if let ResponseItemView::Message { role, content, .. } = items[i] {
            lemma_assistants_role(role);
            let rest = spoken_from(items, i + 1, at, text);
            let kept = |message: ChatMessageView| message.reasoning_content is Some;
            Seq::filter_distributes_over_add(seq![all[0]], rest, kept);
            reveal_with_fuel(Seq::filter, 2);
            assert(seq![all[0]] + rest == all);
            assert(seq![all[0]].drop_last() == Seq::<ChatMessageView>::empty());
            assert(seq![all[0]].filter(kept) == if kept(all[0]) {
                seq![all[0]]
            } else {
                Seq::empty()
            });
        }
    } else {
        reveal(Seq::filter);
    }
}

/// Where a conversation without tool calls has one reasoning text, exactly one message takes it,
/// as it is: the assistant's message directly before it, else the assistant's first message after
/// it. No other message has reasoning, and where there is no such message none has.
pub proof fn law_reasoning_goes_to_one_message(
    instructions: Seq<char>,
    items: Seq<ResponseItemView>,
    r: int,
)
    requires
        0 <= r < items.len(),
        items[r] is Reasoning,
        items[r].reasoning() is Some,
        forall|k: int|
            0 <= k < items.len() && k != r ==> brings_no_reasoning(#[trigger] items[k]),
    ensures
        ({
            let text = items[r].reasoning()->0;
            let chat = chat_messages(instructions, items);
            &&& chat == opening(instructions) + spoken_from(items, 0, taker(items, r), text)
            &&& with_reasoning(chat) == match taker(items, r) {
                Some(k) => seq![
                    spoken_message(
                        "assistant"@,
                        chat_content(items[k]->Message_content),
                        Some(text),
                    ),
                ],
                None => Seq::empty(),
            }
        }),
{
    let text = items[r].reasoning()->0;
    let at = taker(items, r);
    let start = opening(instructions);
    let kept = |message: ChatMessageView| message.reasoning_content is Some;
    lemma_up_to(items, 0, r);
    lemma_next_is_later(items, r + 1);
    lemma_with_reasoning(items, 0, at, text);
    Seq::filter_distributes_over_add(start, spoken_from(items, 0, at, text), kept);
    reveal_with_fuel(Seq::filter, 2);
    if start.len() > 0 {
        assert(start.drop_last() == Seq::<ChatMessageView>::empty());
    }
    assert(start.filter(kept) == Seq::<ChatMessageView>::empty());
}

/// Whether a run of tool calls starts with the call at position `s`: no call stands before it in
/// the same run.
pub open spec fn starts_run(items: Seq<ResponseItemView>, s: int) -> bool {
    &&& items[s].call() is Some
    &&& forall|p: int|
        0 <= p < s && (#[trigger] items[p]).call() is Some ==> call_run_end(items, p) <= s
}

/// The position of the first call in the run that holds the call at position `best`, where the
/// items after position `p` are already looked at.
pub open spec fn first_call(items: Seq<ResponseItemView>, p: int, best: int) -> int
    decreases p + 1,
{
    if p < 0 || !items[p].in_call_run() {
        best
    } else {
        first_call(
            items,
            p - 1,
            if items[p].call() is Some {
                p
            } else {
                best
            },
        )
    }
}

/// Where the run of tool calls that holds the call at position `k` starts.
pub open spec fn run_start(items: Seq<ResponseItemView>, k: int) -> int {
    first_call(items, k - 1, k)
}

/// Whether the chat is some messages and then those that the items from position `s` on become.
pub open spec fn reaches(
    chat: Seq<ChatMessageView>,
    items: Seq<ResponseItemView>,
    s: int,
    pending: Option<Seq<char>>,
) -> bool {
    messages_from(items, s, pending).is_suffix_of(chat)
}

/// Some messages before a chat that reaches a position.
proof fn lemma_reaches_behind(
    head: Seq<ChatMessageView>,
    rest: Seq<ChatMessageView>,
    items: Seq<ResponseItemView>,
    s: int,
    pending: Option<Seq<char>>,
)
    requires
        reaches(rest, items, s, pending),
    ensures
        reaches(head + rest, items, s, pending),
{
    let tail = messages_from(items, s, pending);
    let all = head + rest;
    assert(all.subrange(all.len() - tail.len(), all.len() as int) == rest.subrange(
        rest.len() - tail.len(),
        rest.len() as int,
    ));
}

/// The conversation is gone through message by message and run by run.
proof fn lemma_reached(
    items: Seq<ResponseItemView>,
    i: int,
    pending: Option<Seq<char>>,
    s: int,
) -> (left: Option<Seq<char>>)
    requires
        0 <= i <= s < items.len(),
        items[s] is Message || starts_run(items, s),
    ensures
        reaches(messages_from(items, i, pending), items, s, left),
    decreases s - i,
{
    let chat = messages_from(items, i, pending);
    if i == s {
        assert(chat.subrange(0, chat.len() as int) == chat);
        pending
    } else {
        match items[i] {
            ResponseItemView::Reasoning { content, .. } => {
                let text = reasoning_text(content);
                lemma_reached(items, i + 1, if text is Some { text } else { pending }, s)
            },
            ResponseItemView::Message { role, content, reasoning_content, .. } => {
                let speaker = chat_role(role);
                let said = chat_content(content);
                let (reasoning, next, waiting) = if speaker != "assistant"@ {
                    (None, i + 1, pending)
                } else {
                    (
                        message_reasoning(items, i, pending, reasoning_content),
                        after_message(items, i, pending),
                        None,
                    )
                };
                let left = lemma_reached(items, next, waiting, s);
                lemma_reaches_behind(
                    seq![spoken_message(speaker, said, reasoning)],
                    messages_from(items, next, waiting),
                    items,
                    s,
                    left,
                );
                left
            },
            ResponseItemView::FunctionCall { .. } | ResponseItemView::CustomToolCall { .. } => {
                let group = call_group(items, i);
                let run_end = call_run_end(items, i);
                let ids = call_ids(group.calls);
                lemma_call_run_end(items, i);
                lemma_output_run_end(items, ids, run_end, run_end);
                lemma_group_advances(items, i);
                if run_end > s {
                    assert(items[s].in_call_run());
                    assert(items[i].call() is Some);
                }
                if group.end > s {
                    assert(items[s].in_output_run(ids));
                }
                let left = lemma_reached(items, group.end, None, s);
                lemma_reaches_behind(
                    group.messages(pending),
                    messages_from(items, group.end, None),
                    items,
                    s,
                    left,
                );
                left
            },
            _ => lemma_reached(items, i + 1, pending, s),
        }
    }
}

/// Every message, and every run of tool calls, is come to with some reasoning waiting or none: the
/// chat ends with the messages that the items from there on become.
pub proof fn law_every_item_is_reached(
    instructions: Seq<char>,
    items: Seq<ResponseItemView>,
    s: int,
) -> (left: Option<Seq<char>>)
    requires
        0 <= s < items.len(),
        items[s] is Message || starts_run(items, s),
    ensures
        reaches(chat_messages(instructions, items), items, s, left),
{
    let left = lemma_reached(items, 0, None, s);
    lemma_reaches_behind(opening(instructions), messages_from(items, 0, None), items, s, left);
    left
}

/// A run ends no earlier for a call that stands earlier in it.
proof fn lemma_same_run(items: Seq<ResponseItemView>, p: int, k: int)
    requires
        0 <= p <= k < items.len(),
        forall|q: int| p <= q < k ==> (#[trigger] items[q]).in_call_run(),
    ensures
        call_run_end(items, p) == call_run_end(items, k),
    decreases k - p,
{
    if p < k {
        assert(items[p].in_call_run());
        lemma_same_run(items, p + 1, k);
    }
}

/// The search for the first call of a run finds it.
proof fn lemma_first_call(items: Seq<ResponseItemView>, p: int, best: int)
    requires
        -1 <= p < best < items.len(),
        items[best].call() is Some,
        forall|q: int|
            p < q < best ==> (#[trigger] items[q]).in_call_run() && items[q].call() is None,
    ensures
        ({
            let s = first_call(items, p, best);
            &&& 0 <= s <= best
            &&& starts_run(items, s)
            &&& forall|q: int| s <= q < best ==> (#[trigger] items[q]).in_call_run()
        }),
    decreases p + 1,
{
    if p < 0 || !items[p].in_call_run() {
        assert forall|q: int| 0 <= q < best && (#[trigger] items[q]).call() is Some implies
            call_run_end(items, q) <= best by {
            lemma_call_run_end(items, q);
            if call_run_end(items, q) > best {
                assert(q <= p);
                assert(items[p].in_call_run());
            }
        }
    } else if items[p].call() is Some {
        lemma_first_call(items, p - 1, p);
        let s = first_call(items, p - 1, p);
        assert forall|q: int| s <= q < best implies (#[trigger] items[q]).in_call_run() by {}
    } else {
        lemma_first_call(items, p - 1, best);
    }
}

/// Every call is in a run that starts with a call.
pub proof fn law_every_call_is_in_a_run(items: Seq<ResponseItemView>, k: int)
    requires
        0 <= k < items.len(),
        items[k].call() is Some,
    ensures
        0 <= run_start(items, k) <= k < call_run_end(items, run_start(items, k)),
        starts_run(items, run_start(items, k)),
{
    lemma_first_call(items, k - 1, k);
    lemma_same_run(items, run_start(items, k), k);
    lemma_call_run_end(items, k);
}

/// Whether a text stands, as it is, within another.
pub open spec fn holds(whole: Seq<char>, part: Seq<char>) -> bool {
    exists|at: int| #[trigger] stands_at(whole, part, at)
}

/// Whether a text stands at a position of another.
pub open spec fn stands_at(whole: Seq<char>, part: Seq<char>, at: int) -> bool {
    &&& 0 <= at && at + part.len() <= whole.len()
    &&& whole.subrange(at, at + part.len()) == part
}

/// Joined texts hold each of them.
proof fn lemma_joined_holds(texts: Seq<Seq<char>>, k: int)
    requires
        0 <= k < texts.len(),
    ensures
        holds(joined_lines(texts), texts[k]),
    decreases texts.len(),
{
    let whole = joined_lines(texts);
    let part = texts[k];
    if texts.len() == 1 {
        assert(whole.subrange(0, part.len() as int) == part);
        assert(stands_at(whole, part, 0));
    } else if k == texts.len() - 1 {
        let at = whole.len() - part.len();
        assert(whole.subrange(at, at + part.len()) == part);
        assert(stands_at(whole, part, at));
    } else {
        let shorter = texts.drop_last();
        lemma_joined_holds(shorter, k);
        let at = choose|at: int| #[trigger] stands_at(joined_lines(shorter), shorter[k], at);
        assert(stands_at(joined_lines(shorter), part, at));
        assert(whole.subrange(at, at + part.len()) == joined_lines(shorter).subrange(
            at,
            at + part.len(),
        ));
        assert(stands_at(whole, part, at));
    }
}

/// Whether a message of the chat has reasoning that holds this text.
pub open spec fn goes_out(chat: Seq<ChatMessageView>, text: Seq<char>) -> bool {
    exists|m: int|
        0 <= m < chat.len() && (#[trigger] chat[m]).reasoning_content is Some && holds(
            chat[m].reasoning_content->0,
            text,
        )
}

/// What goes out with the end of a chat goes out with the chat.
proof fn lemma_goes_out(chat: Seq<ChatMessageView>, tail: Seq<ChatMessageView>, text: Seq<char>)
    requires
        tail.is_suffix_of(chat),
        goes_out(tail, text),
    ensures
        goes_out(chat, text),
{
    let m = choose|m: int|
        0 <= m < tail.len() && (#[trigger] tail[m]).reasoning_content is Some && holds(
            tail[m].reasoning_content->0,
            text,
        );
    let at = chat.len() - tail.len();
    assert(chat.subrange(at, chat.len() as int)[m] == chat[at + m]);
    assert(chat[at + m] == tail[m]);
}

/// The reasoning that a message of the assistant carries goes out, whatever reasoning was waiting
/// before it and whatever stands around it.
pub proof fn law_own_reasoning_of_a_message_goes_out(
    instructions: Seq<char>,
    items: Seq<ResponseItemView>,
    k: int,
)
    requires
        0 <= k < items.len(),
        is_assistants(items[k]),
        own_reasoning(items[k]->Message_reasoning_content) is Some,
    ensures
        goes_out(
            chat_messages(instructions, items),
            own_reasoning(items[k]->Message_reasoning_content)->0,
        ),
{
    let chat = chat_messages(instructions, items);
    let own = own_reasoning(items[k]->Message_reasoning_content);
    let left = law_every_item_is_reached(instructions, items, k);
    let tail = messages_from(items, k, left);
    let texts = listed(left) + listed(own) + listed(reasoning_behind(items, k, left));
    let at = listed(left).len() as int;
    lemma_assistants_role(items[k]->Message_role);
    assert(texts[at] == own->0);
    lemma_joined_holds(texts, at);
    assert(tail[0].reasoning_content == Some(joined_lines(texts)));
    assert(goes_out(tail, own->0));
    lemma_goes_out(chat, tail, own->0);
}

/// The reasoning of an item between two positions is among the reasoning texts there.
proof fn lemma_reasoning_is_among(items: Seq<ResponseItemView>, lo: int, hi: int, k: int) -> (at:
    int)
    requires
        lo <= k < hi,
        items[k].reasoning() is Some,
    ensures
        0 <= at < reasoning_between(items, lo, hi).len(),
        reasoning_between(items, lo, hi)[at] == items[k].reasoning()->0,
    decreases hi - lo,
{
    if k == hi - 1 {
        reasoning_between(items, lo, hi - 1).len() as int
    } else {
        lemma_reasoning_is_among(items, lo, hi - 1, k)
    }
}

/// The reasoning that a tool call carries goes out, whatever reasoning was waiting before the call
/// and whatever stands around it, where the calls of its run have all their outputs.
pub proof fn law_own_reasoning_of_a_call_goes_out(
    instructions: Seq<char>,
    items: Seq<ResponseItemView>,
    k: int,
)
    requires
        0 <= k < items.len(),
        items[k].call() is Some,
        items[k].reasoning() is Some,
        call_group(items, run_start(items, k)).complete(),
    ensures
        goes_out(chat_messages(instructions, items), items[k].reasoning()->0),
{
    let chat = chat_messages(instructions, items);
    let text = items[k].reasoning()->0;
    let s = run_start(items, k);
    law_every_call_is_in_a_run(items, k);
    let left = law_every_item_is_reached(instructions, items, s);
    let tail = messages_from(items, s, left);
    let group = call_group(items, s);
    let at = lemma_reasoning_is_among(items, s, call_run_end(items, s), k);
    let texts = listed(left) + group.reasoning;
    assert(texts[listed(left).len() + at] == text);
    lemma_joined_holds(texts, listed(left).len() + at);
    assert(tail == group.messages(left) + messages_from(items, group.end, None));
    assert(tail[0] == calling_message(group.calls, lines_of(texts)));
    assert(goes_out(tail, text));
    lemma_goes_out(chat, tail, text);
}

} // verus!
