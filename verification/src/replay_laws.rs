//! A response that was streamed goes back to the model in the next request.

use crate::chat::{
    ChatFunctionCallView, ChatMessageContentView, ChatMessageView, ChatToolCallView,
};
use crate::content::{
    calling_message, chat_content, lines_of, listed, own_reasoning, spoken_message,
};
use crate::protocol::{ContentItemView, ResponseEventView, ResponseItemView};
use crate::reasoning_laws::{law_every_item_is_reached, starts_run};
use crate::request::{after_message, chat_messages, message_reasoning, messages_from};
use crate::stream::{
    assistant_item, call_item, calls_from, finish_calls, ChatCompletionStateView,
};
use crate::stream_laws::{finished_id, law_named_calls_are_finished, named};
use crate::text::joined_lines;
use crate::tool_calls::{
    answers, call_group, call_ids, call_run_end, calls_between, lemma_all_answered,
    lemma_outputs_known, output_run_end, outputs_between, reasoning_between,
};
use vstd::prelude::*;

verus! {

/// A finished message goes back with its text and its reasoning, and with what reasoning was
/// waiting before it or stands behind it.
pub proof fn law_message_is_replayed(
    items: Seq<ResponseItemView>,
    i: int,
    id: Option<Seq<char>>,
    text: Seq<char>,
    reasoning: Option<Seq<char>>,
    pending: Option<Seq<char>>,
)
    requires
        0 <= i < items.len(),
        items[i] == assistant_item(id, seq![ContentItemView::OutputText { text }], reasoning),
    ensures
        messages_from(items, i, pending) == seq![
            spoken_message(
                "assistant"@,
                ChatMessageContentView::Text(text),
                message_reasoning(items, i, pending, reasoning),
            ),
        ] + messages_from(items, after_message(items, i, pending), None),
{
    reveal_strlit("developer");
    reveal_strlit("assistant");
    assert("developer"@[0] != "assistant"@[0]);
    let content = seq![ContentItemView::OutputText { text }];
    let texts = content.map_values(|item: ContentItemView| item.text());
    assert(texts == seq![text]);
    assert(joined_lines(texts) == text);
    assert(chat_content(content) == ChatMessageContentView::Text(text));
}

/// Whether the items from position `i` on are these calls, with this reasoning, and their outputs
/// stand from position `first` up to position `end`. Reasoning items may stand before the outputs
/// and among them. The outputs may come in any order, and a call may have several; `end` is where
/// every call has one for the first time.
pub open spec fn answered_at(
    items: Seq<ResponseItemView>,
    i: int,
    calls: Seq<ChatToolCallView>,
    reasoning: Option<Seq<char>>,
    first: int,
    end: int,
) -> bool {
    let ids = call_ids(calls);
    &&& 0 <= i && i + calls.len() <= first < end <= items.len()
    &&& ids.no_duplicates()
    &&& own_reasoning(reasoning) == reasoning
    &&& forall|k: int|
        0 <= k < calls.len() ==> items[i + k] == call_item(
            calls[k].function.name,
            calls[k].function.arguments,
            (#[trigger] calls[k]).id,
            reasoning,
        ) && calls[k].kind == "function"@
    &&& forall|p: int| i + calls.len() <= p < first ==> (#[trigger] items[p]) is Reasoning
    &&& items[first].output() is Some
    &&& forall|p: int| first <= p < end ==> (#[trigger] items[p]).in_output_run(ids)
    &&& outputs_between(items, first, end).dom() == ids.to_set()
    &&& outputs_between(items, first, end - 1).dom() != ids.to_set()
}

/// As many times the reasoning as there are calls; none where there is no reasoning.
pub open spec fn repeated(reasoning: Option<Seq<char>>, times: nat) -> Seq<Seq<char>> {
    match reasoning {
        Some(text) => Seq::new(times, |k: int| text),
        None => Seq::empty(),
    }
}

/// A run of calls ends at the first item that cannot stand in it.
proof fn lemma_run_ends(items: Seq<ResponseItemView>, i: int, end: int)
    requires
        0 <= i <= end < items.len(),
        forall|p: int| i <= p < end ==> (#[trigger] items[p]).in_call_run(),
        !items[end].in_call_run(),
    ensures
        call_run_end(items, i) == end,
    decreases end - i,
{
    if i < end {
        assert(items[i].in_call_run());
        lemma_run_ends(items, i + 1, end);
    }
}

/// The first `k` calls and their reasoning.
proof fn lemma_calls_so_far(
    items: Seq<ResponseItemView>,
    i: int,
    calls: Seq<ChatToolCallView>,
    reasoning: Option<Seq<char>>,
    first: int,
    end: int,
    k: int,
)
    requires
        answered_at(items, i, calls, reasoning, first, end),
        0 <= k <= calls.len(),
    ensures
        calls_between(items, i, i + k) == calls.take(k),
        reasoning_between(items, i, i + k) == repeated(reasoning, k as nat),
    decreases k,
{
    if k > 0 {
        lemma_calls_so_far(items, i, calls, reasoning, first, end, k - 1);
        let call = calls[k - 1];
        assert(items[i + (k - 1)] == call_item(
            call.function.name,
            call.function.arguments,
            call.id,
            reasoning,
        ));
        assert(items[i + k - 1].call() == Some(call));
        assert(calls.take(k) == calls.take(k - 1).push(call));
        assert(reasoning_between(items, i, i + k) == repeated(reasoning, (k - 1) as nat) + listed(
            reasoning,
        ));
    }
}

/// Reasoning items after the calls add their reasoning, and no calls.
proof fn lemma_reasoning_after_calls(items: Seq<ResponseItemView>, i: int, lo: int, hi: int)
    requires
        i <= lo <= hi,
        forall|p: int| lo <= p < hi ==> (#[trigger] items[p]) is Reasoning,
    ensures
        calls_between(items, i, hi) == calls_between(items, i, lo),
        reasoning_between(items, i, hi) == reasoning_between(items, i, lo) + reasoning_between(
            items,
            lo,
            hi,
        ),
    decreases hi - lo,
{
    if lo < hi {
        lemma_reasoning_after_calls(items, i, lo, hi - 1);
        assert(items[hi - 1] is Reasoning);
    } else {
        assert(reasoning_between(items, i, lo) + reasoning_between(items, lo, hi)
            == reasoning_between(items, i, lo));
    }
}

/// Outputs that were found stay found.
proof fn lemma_outputs_stay(items: Seq<ResponseItemView>, lo: int, mid: int, hi: int)
    requires
        lo <= mid <= hi,
    ensures
        outputs_between(items, lo, mid).dom().subset_of(outputs_between(items, lo, hi).dom()),
    decreases hi - mid,
{
    if mid < hi {
        lemma_outputs_stay(items, lo, mid, hi - 1);
    }
}

/// The search for outputs ends where every call has one.
proof fn lemma_run_of_outputs(
    items: Seq<ResponseItemView>,
    i: int,
    calls: Seq<ChatToolCallView>,
    reasoning: Option<Seq<char>>,
    first: int,
    end: int,
    p: int,
)
    requires
        answered_at(items, i, calls, reasoning, first, end),
        first <= p <= end,
    ensures
        output_run_end(items, call_ids(calls), first, p) == end,
    decreases end - p,
{
    let ids = call_ids(calls);
    let found = outputs_between(items, first, p);
    lemma_outputs_known(items, ids, first, p);
    lemma_all_answered(ids, found);
    if p < end {
        lemma_run_of_outputs(items, i, calls, reasoning, first, end, p + 1);
        assert(items[p].in_output_run(ids));
        if found.dom() == ids.to_set() {
            lemma_outputs_stay(items, first, p, end - 1);
            lemma_outputs_known(items, ids, first, end - 1);
            assert(outputs_between(items, first, end - 1).dom() == ids.to_set());
        }
    }
}

/// Finished tool calls go back, once each has its output, as one message with all the calls, and
/// one message per call with its output, in the order of the calls. The first message has the
/// reasoning that waited, then that of each call, then that of the reasoning items before the
/// outputs. Where a call has several outputs, the last counts.
pub proof fn law_calls_are_replayed(
    items: Seq<ResponseItemView>,
    i: int,
    calls: Seq<ChatToolCallView>,
    reasoning: Option<Seq<char>>,
    first: int,
    end: int,
    pending: Option<Seq<char>>,
)
    requires
        answered_at(items, i, calls, reasoning, first, end),
        calls.len() > 0,
    ensures
        messages_from(items, i, pending) == replayed_group(
            items,
            calls,
            listed(pending) + repeated(reasoning, calls.len()) + reasoning_between(
                items,
                i + calls.len(),
                first,
            ),
            first,
            end,
        ) + messages_from(items, end, None),
{
    let n = calls.len() as int;
    let ids = call_ids(calls);
    let after = i + n;
    assert forall|p: int| i <= p < first implies (#[trigger] items[p]).in_call_run() by {
        if p < after {
            let call = calls[p - i];
            assert(items[i + (p - i)] == call_item(
                call.function.name,
                call.function.arguments,
                call.id,
                reasoning,
            ));
        }
    }
    lemma_run_ends(items, i, first);
    lemma_calls_so_far(items, i, calls, reasoning, first, end, n);
    lemma_reasoning_after_calls(items, i, after, first);
    lemma_run_of_outputs(items, i, calls, reasoning, first, end, first);
    lemma_outputs_known(items, ids, first, end);
    lemma_all_answered(ids, outputs_between(items, first, end));
    assert(calls.take(n) == calls);
    assert(items[i + 0] == call_item(
        calls[0].function.name,
        calls[0].function.arguments,
        calls[0].id,
        reasoning,
    ));
    let group = call_group(items, i);
    assert(group.calls == calls);
    assert(group.end == end);
    let texts = repeated(reasoning, calls.len()) + reasoning_between(items, after, first);
    assert(group.reasoning == texts);
    assert(listed(pending) + texts == listed(pending) + repeated(reasoning, calls.len())
        + reasoning_between(items, after, first));
    assert(messages_from(items, i, pending) == group.messages(pending) + messages_from(
        items,
        group.end,
        None,
    ));
}

/// The messages that stand for calls whose outputs stand from position `first` up to position
/// `end`, with these reasoning texts.
pub open spec fn replayed_group(
    items: Seq<ResponseItemView>,
    calls: Seq<ChatToolCallView>,
    texts: Seq<Seq<char>>,
    first: int,
    end: int,
) -> Seq<ChatMessageView> {
    seq![calling_message(calls, lines_of(texts))] + answers(
        call_ids(calls),
        outputs_between(items, first, end),
    )
}

/// The items that a finished response adds to the conversation.
pub open spec fn finished_items(state: ChatCompletionStateView) -> Seq<ResponseItemView> {
    state.finish().events.drop_last().map_values(
        |event: ResponseEventView| event->OutputItemDone_0,
    )
}

/// The tool calls of a finished response, in the words of a chat.
pub open spec fn finished_calls(state: ChatCompletionStateView) -> Seq<ChatToolCallView> {
    let calls = named(calls_from(state.tool_calls, 0));
    Seq::new(
        calls.len(),
        |k: int|
            ChatToolCallView {
                id: finished_id(state.fallback_id_counter, calls, k),
                kind: "function"@,
                function: ChatFunctionCallView {
                    name: calls[k].name->0,
                    arguments: calls[k].arguments,
                },
            },
    )
}

/// Whether the conversation holds the items of a finished response from position `i` on and then,
/// where it has tool calls, their outputs from position `first` up to position `end`. Reasoning
/// items may stand before the outputs and among them. The outputs may come in any order, and a
/// call may have several; `end` is where every call has one for the first time.
pub open spec fn response_at(
    state: ChatCompletionStateView,
    items: Seq<ResponseItemView>,
    i: int,
    first: int,
    end: int,
) -> bool {
    let calls = finished_calls(state);
    let done = i + finished_items(state).len();
    &&& 0 <= i && done <= items.len()
    &&& items.subrange(i, done) == finished_items(state)
    &&& calls.len() > 0 ==> answered_at(
        items,
        i + state.finish_message().len(),
        calls,
        state.reasoning(),
        first,
        end,
    )
}

/// The messages that a conversation becomes from the tool calls of a finished response on, where
/// it has any and they stand at position `i`.
pub open spec fn replayed_calls(
    state: ChatCompletionStateView,
    items: Seq<ResponseItemView>,
    i: int,
    pending: Option<Seq<char>>,
    first: int,
    end: int,
) -> Seq<ChatMessageView> {
    let calls = finished_calls(state);
    let texts = listed(pending) + repeated(state.reasoning(), calls.len()) + reasoning_between(
        items,
        i + calls.len(),
        first,
    );
    if calls.len() == 0 {
        messages_from(items, i, pending)
    } else {
        replayed_group(items, calls, texts, first, end) + messages_from(items, end, None)
    }
}

/// The messages that a conversation becomes from a finished response on, which stands at position
/// `i`: where it has a text, a message with the text, and with the reasoning of the response among
/// what else was waiting before it or stands behind it; where it has tool calls, a message with
/// the calls, and with that reasoning once for each call, and the outputs.
pub open spec fn replayed(
    state: ChatCompletionStateView,
    items: Seq<ResponseItemView>,
    i: int,
    pending: Option<Seq<char>>,
    first: int,
    end: int,
) -> Seq<ChatMessageView> {
    if state.assistant_text.len() == 0 {
        replayed_calls(state, items, i, pending, first, end)
    } else {
        seq![
            spoken_message(
                "assistant"@,
                ChatMessageContentView::Text(state.assistant_text),
                message_reasoning(items, i, pending, state.reasoning()),
            ),
        ] + replayed_calls(state, items, after_message(items, i, pending), None, first, end)
    }
}

/// A finished response goes back to the model in the next request, with its text, its tool calls
/// and their outputs, and its reasoning, whatever reasoning was waiting before it.
pub proof fn law_response_is_replayed(
    state: ChatCompletionStateView,
    items: Seq<ResponseItemView>,
    i: int,
    pending: Option<Seq<char>>,
    first: int,
    end: int,
)
    requires
        response_at(state, items, i, first, end),
    ensures
        messages_from(items, i, pending) == replayed(state, items, i, pending, first, end),
{
    let calls = finished_calls(state);
    let reasoning = state.reasoning();
    let message = state.finish_message();
    let start = i + message.len();
    lemma_finished_items(state);
    let waiting = if message.len() > 0 {
        None
    } else {
        pending
    };
    if calls.len() > 0 {
        law_calls_are_replayed(items, start, calls, reasoning, first, end, waiting);
    }
    if message.len() > 0 {
        let done = i + finished_items(state).len();
        assert(items.subrange(i, done)[0] == items[i]);
        if calls.len() > 0 {
            assert(items[start + 0] == call_item(
                calls[0].function.name,
                calls[0].function.arguments,
                calls[0].id,
                reasoning,
            ));
        }
        law_message_is_replayed(
            items,
            i,
            state.assistant_item_id,
            state.assistant_text,
            reasoning,
            pending,
        );
    }
}

/// A finished response adds its message, where it has one, and then one item per call.
proof fn lemma_finished_items(state: ChatCompletionStateView)
    ensures
        finished_items(state).len() == state.finish_message().len() + finished_calls(state).len(),
        state.finish_message().len() > 0 ==> finished_items(state)[0] == assistant_item(
            state.assistant_item_id,
            seq![ContentItemView::OutputText { text: state.assistant_text }],
            state.reasoning(),
        ),
        forall|k: int|
            0 <= k < finished_calls(state).len() ==> finished_items(
                state,
            )[state.finish_message().len() + k] == call_item(
                finished_calls(state)[k].function.name,
                finished_calls(state)[k].function.arguments,
                (#[trigger] finished_calls(state)[k]).id,
                state.reasoning(),
            ),
{
    let tool_calls = calls_from(state.tool_calls, 0);
    let message = state.finish_message();
    let calls = finish_calls(state.fallback_id_counter, tool_calls, state.reasoning()).1;
    let events = state.finish().events.drop_last();
    law_named_calls_are_finished(state.fallback_id_counter, tool_calls, state.reasoning());
    assert(events == message + calls);
}

/// A chat holds the response that a conversation holds, as it is replayed: the chat ends with the
/// messages that the conversation becomes from the response on, for some reasoning that was
/// waiting before it or none. A response without a text must not stand in the run of earlier tool
/// calls.
pub proof fn law_chat_holds_the_response(
    instructions: Seq<char>,
    state: ChatCompletionStateView,
    items: Seq<ResponseItemView>,
    i: int,
    first: int,
    end: int,
) -> (pending: Option<Seq<char>>)
    requires
        response_at(state, items, i, first, end),
        finished_items(state).len() > 0,
        state.assistant_text.len() > 0 || starts_run(items, i),
    ensures
        replayed(state, items, i, pending, first, end).is_suffix_of(
            chat_messages(instructions, items),
        ),
{
    lemma_finished_items(state);
    let done = i + finished_items(state).len();
    assert(items.subrange(i, done)[0] == items[i]);
    let pending = law_every_item_is_reached(instructions, items, i);
    law_response_is_replayed(state, items, i, pending, first, end);
    pending
}

} // verus!
