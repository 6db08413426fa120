//! What holds of a run of tool calls and of the outputs that follow it.

use crate::chat::{ChatMessageContentView, ChatMessageView, ChatToolCallView};
use crate::content::{listed, output_message, own_reasoning, reasoning_text};
use crate::protocol::{
    EncodedItemsView, FunctionCallOutputBodyView, FunctionCallOutputPayloadView, ResponseItemView,
};
use crate::text::joined_lines;
use crate::tool_calls::{
    answers, call_group, call_ids, call_run_end, calls_between, lemma_all_answered,
    lemma_call_run_end, lemma_output_run_end, lemma_outputs_known, output_run_end,
    outputs_between, reasoning_between,
};
use vstd::prelude::*;

verus! {

/// Whether the item calls a tool.
pub open spec fn calls_a_tool(item: ResponseItemView) -> bool {
    item is FunctionCall || item is CustomToolCall
}

/// Whether the item is an output of the call with this id.
pub open spec fn is_output_of(item: ResponseItemView, id: Seq<char>) -> bool {
    match item {
        ResponseItemView::FunctionCallOutput { call_id, .. } => call_id == id,
        ResponseItemView::CustomToolCallOutput { call_id, .. } => call_id == id,
        _ => false,
    }
}

/// The output that an output item holds.
pub open spec fn output_in(item: ResponseItemView) -> FunctionCallOutputPayloadView {
    match item {
        ResponseItemView::FunctionCallOutput { output, .. } => output,
        ResponseItemView::CustomToolCallOutput { output, .. } => output,
        _ => arbitrary(),
    }
}

/// A call keeps its id, its name and what it passes, and is a call of a function in a chat. No
/// other item is a call.
pub proof fn law_call_is_kept(item: ResponseItemView)
    ensures
        item.call() is Some <==> calls_a_tool(item),
        item.call() matches Some(call) ==> call.kind == "function"@,
        item matches ResponseItemView::FunctionCall { name, arguments, call_id, .. }
            ==> item.call() is Some && item.call()->0.id == call_id && item.call()->0.function.name
            == name && item.call()->0.function.arguments == arguments,
        item matches ResponseItemView::CustomToolCall { name, input, call_id, .. }
            ==> item.call() is Some && item.call()->0.id == call_id && item.call()->0.function.name
            == name && item.call()->0.function.arguments == input,
{
}

/// An output keeps the id of its call and what the call returned. No other item is an output.
pub proof fn law_output_item_is_kept(item: ResponseItemView)
    ensures
        item.output() is Some <==> item is FunctionCallOutput || item is CustomToolCallOutput,
        forall|id: Seq<char>| #[trigger]
            is_output_of(item, id) <==> item.output() is Some && (item.output()->0).0 == id,
        item.output() is Some ==> (item.output()->0).1 == output_in(item),
{
}

/// The reasoning of an item is what a call carries, unless it is empty, or what a reasoning item
/// says. No other item has reasoning for a call.
pub proof fn law_reasoning_of_an_item(item: ResponseItemView)
    ensures
        match item {
            ResponseItemView::FunctionCall { reasoning_content, .. } => item.reasoning()
                == own_reasoning(reasoning_content),
            ResponseItemView::CustomToolCall { reasoning_content, .. } => item.reasoning()
                == own_reasoning(reasoning_content),
            ResponseItemView::Reasoning { content, .. } => item.reasoning() == reasoning_text(
                content,
            ),
            _ => item.reasoning() is None,
        },
{
}

/// A run of calls goes on as long as there are calls and reasoning items, and ends before the
/// first item that is neither.
pub proof fn law_run_of_calls(items: Seq<ResponseItemView>, s: int)
    requires
        0 <= s <= items.len(),
    ensures
        s <= call_run_end(items, s) <= items.len(),
        forall|p: int|
            s <= p < call_run_end(items, s) ==> calls_a_tool(#[trigger] items[p])
                || items[p] is Reasoning,
        call_run_end(items, s) < items.len() ==> !calls_a_tool(items[call_run_end(items, s)])
            && !(items[call_run_end(items, s)] is Reasoning),
    decreases items.len() - s,
{
    if s < items.len() && items[s].in_call_run() {
        law_run_of_calls(items, s + 1);
    }
}

/// The calls of a stretch are those of its first part and then those of its second, and a single
/// item gives its call, if it is one.
pub proof fn law_calls_of_a_stretch(items: Seq<ResponseItemView>, lo: int, mid: int, hi: int)
    requires
        lo <= mid <= hi,
    ensures
        calls_between(items, lo, hi) == calls_between(items, lo, mid) + calls_between(
            items,
            mid,
            hi,
        ),
        calls_between(items, lo, lo + 1) == if calls_a_tool(items[lo]) {
            seq![items[lo].call()->0]
        } else {
            Seq::empty()
        },
        calls_between(items, lo, lo) == Seq::<ChatToolCallView>::empty(),
    decreases hi - mid,
{
    reveal_with_fuel(calls_between, 2);
    assert(items[(lo + 1) - 1] == items[lo]);
    if mid < hi {
        law_calls_of_a_stretch(items, lo, mid, hi - 1);
    }
}

/// The reasoning texts of a stretch are those of its first part and then those of its second, and
/// a single item gives its reasoning, if it has any.
pub proof fn law_reasoning_of_a_stretch(items: Seq<ResponseItemView>, lo: int, mid: int, hi: int)
    requires
        lo <= mid <= hi,
    ensures
        reasoning_between(items, lo, hi) == reasoning_between(items, lo, mid) + reasoning_between(
            items,
            mid,
            hi,
        ),
        reasoning_between(items, lo, lo + 1) == match items[lo].reasoning() {
            Some(text) => seq![text],
            None => Seq::empty(),
        },
        reasoning_between(items, lo, lo) == Seq::<Seq<char>>::empty(),
    decreases hi - mid,
{
    reveal_with_fuel(reasoning_between, 2);
    assert(items[(lo + 1) - 1] == items[lo]);
    if mid < hi {
        law_reasoning_of_a_stretch(items, lo, mid, hi - 1);
    }
}

/// Whether the output of a call that counts stands at position `p`: the last one in the stretch.
pub open spec fn last_output_at(
    items: Seq<ResponseItemView>,
    lo: int,
    hi: int,
    id: Seq<char>,
    p: int,
) -> bool {
    &&& lo <= p < hi
    &&& is_output_of(items[p], id)
    &&& forall|q: int| p < q < hi ==> !is_output_of(#[trigger] items[q], id)
}

/// A call has an output in a stretch exactly where an output item with its id stands there, and
/// the last of them counts.
pub proof fn law_outputs_of_a_stretch(
    items: Seq<ResponseItemView>,
    lo: int,
    hi: int,
    id: Seq<char>,
)
    requires
        lo <= hi,
    ensures
        outputs_between(items, lo, hi).contains_key(id) <==> exists|p: int|
            lo <= p < hi && is_output_of(#[trigger] items[p], id),
        forall|p: int| #[trigger]
            last_output_at(items, lo, hi, id, p) ==> outputs_between(items, lo, hi).contains_key(id)
                && outputs_between(items, lo, hi)[id] == output_in(items[p]),
    decreases hi - lo,
{
    if lo < hi {
        law_outputs_of_a_stretch(items, lo, hi - 1, id);
        let last = items[hi - 1];
        let earlier = outputs_between(items, lo, hi - 1);
        if earlier.contains_key(id) {
            let p = choose|p: int| lo <= p < hi - 1 && is_output_of(#[trigger] items[p], id);
            assert(is_output_of(items[p], id));
        }
        assert forall|p: int| #[trigger] last_output_at(items, lo, hi, id, p) implies
            outputs_between(items, lo, hi).contains_key(id) && outputs_between(items, lo, hi)[id]
            == output_in(items[p]) by {
            if p < hi - 1 {
                assert(!is_output_of(items[hi - 1], id));
                assert(last_output_at(items, lo, hi - 1, id, p));
            }
        }
        if is_output_of(last, id) {
            assert(is_output_of(items[hi - 1], id));
        }
    }
}

/// The search for outputs goes over outputs of the calls and reasoning items, while some call has
/// none yet, and stops where every call has one, at the end, or before any other item.
pub proof fn law_search_for_outputs(
    items: Seq<ResponseItemView>,
    ids: Seq<Seq<char>>,
    lo: int,
    i: int,
)
    requires
        0 <= lo <= i <= items.len(),
    ensures
        ({
            let end = output_run_end(items, ids, lo, i);
            &&& i <= end <= items.len()
            &&& forall|p: int|
                i <= p < end ==> {
                    &&& (#[trigger] items[p]) is Reasoning || exists|k: int|
                        0 <= k < ids.len() && is_output_of(items[p], #[trigger] ids[k])
                    &&& outputs_between(items, lo, p).len() < ids.len()
                }
            &&& end < items.len() && outputs_between(items, lo, end).len() < ids.len() ==> {
                &&& !(items[end] is Reasoning)
                &&& forall|k: int| 0 <= k < ids.len() ==> !is_output_of(items[end], #[trigger] ids[k])
            }
        }),
    decreases items.len() - i,
{
    if i < items.len() && outputs_between(items, lo, i).len() < ids.len()
        && items[i].in_output_run(ids) {
        law_search_for_outputs(items, ids, lo, i + 1);
        if !(items[i] is Reasoning) {
            let id = (items[i].output()->0).0;
            let k = ids.index_of(id);
            assert(is_output_of(items[i], ids[k]));
        }
    } else if i < items.len() && outputs_between(items, lo, i).len() < ids.len() {
        assert forall|k: int| 0 <= k < ids.len() implies !is_output_of(
            items[i],
            #[trigger] ids[k],
        ) by {
            assert(ids.contains(ids[k]));
        }
    }
}

/// What is told of an output.
pub open spec fn told_of(output: FunctionCallOutputPayloadView) -> Seq<char> {
    match output.body {
        FunctionCallOutputBodyView::Text(text) => text,
        FunctionCallOutputBodyView::ContentItems(EncodedItemsView::Json(encoding)) => encoding,
        FunctionCallOutputBodyView::ContentItems(EncodedItemsView::Failed(message)) => {
            "failed to serialize tool output: "@ + message
        },
    }
}

/// Whether no two calls have the same id.
pub open spec fn ids_differ(calls: Seq<ChatToolCallView>) -> bool {
    forall|j: int, k: int|
        0 <= j < k < calls.len() ==> (#[trigger] calls[j]).id != (#[trigger] calls[k]).id
}

/// A group starts with its calls, gathers their reasoning, and ends where the search for their
/// outputs ends. Where the calls have ids of their own and each has an output, the group becomes
/// one message of the assistant with all the calls in order and with the reasoning that was
/// waiting and that of the run on lines of their own, and then one message per call, in order, in
/// which the tool tells the last output of the call. Else it becomes nothing.
pub proof fn law_what_a_group_becomes(
    items: Seq<ResponseItemView>,
    s: int,
    pending: Option<Seq<char>>,
)
    requires
        0 <= s <= items.len(),
    ensures
        ({
            let group = call_group(items, s);
            let first = call_run_end(items, s);
            let calls = calls_between(items, s, first);
            let ids = Seq::new(calls.len(), |k: int| calls[k].id);
            let end = output_run_end(items, ids, first, first);
            let messages = group.messages(pending);
            let texts = (match pending {
                Some(text) => seq![text],
                None => Seq::empty(),
            }) + reasoning_between(items, s, first);
            &&& group.end == end
            &&& if ids_differ(calls) && forall|k: int|
                0 <= k < calls.len() ==> exists|p: int|
                    first <= p < end && is_output_of(#[trigger] items[p], (#[trigger] calls[k]).id) {
                &&& messages.len() == 1 + calls.len()
                &&& messages[0].role == "assistant"@
                &&& messages[0].content is None
                &&& messages[0].tool_calls == Some(calls)
                &&& messages[0].tool_call_id is None
                &&& messages[0].reasoning_content == if texts.len() == 0 {
                    None
                } else {
                    Some(joined_lines(texts))
                }
                &&& forall|k: int, p: int|
                    0 <= k < calls.len() && #[trigger] last_output_at(
                        items,
                        first,
                        end,
                        (#[trigger] calls[k]).id,
                        p,
                    ) ==> messages[1 + k] == (ChatMessageView {
                        role: "tool"@,
                        content: Some(ChatMessageContentView::Text(told_of(output_in(items[p])))),
                        reasoning_content: None,
                        tool_calls: None,
                        tool_call_id: Some(calls[k].id),
                    })
            } else {
                messages.len() == 0
            }
        }),
{
    let group = call_group(items, s);
    let first = call_run_end(items, s);
    let calls = calls_between(items, s, first);
    let ids = call_ids(calls);
    let end = output_run_end(items, ids, first, first);
    let found = outputs_between(items, first, end);
    let messages = group.messages(pending);
    assert(ids == Seq::new(calls.len(), |k: int| calls[k].id));
    lemma_call_run_end(items, s);
    lemma_output_run_end(items, ids, first, first);
    lemma_outputs_known(items, ids, first, end);
    lemma_all_answered(ids, found);
    let answered = forall|k: int|
        0 <= k < calls.len() ==> exists|p: int|
            first <= p < end && is_output_of(#[trigger] items[p], (#[trigger] calls[k]).id);
    assert forall|k: int| 0 <= k < calls.len() implies (found.contains_key(
        (#[trigger] calls[k]).id,
    ) <==> exists|p: int| first <= p < end && is_output_of(#[trigger] items[p], calls[k].id)) by {
        law_outputs_of_a_stretch(items, first, end, calls[k].id);
    }
    if ids_differ(calls) && answered {
        assert(ids.no_duplicates()) by {
            assert forall|j: int, k: int|
                0 <= j < ids.len() && 0 <= k < ids.len() && j != k implies ids[j] != ids[k] by {
                assert(ids[j] == calls[j].id && ids[k] == calls[k].id);
                if j < k {
                    assert(calls[j].id != calls[k].id);
                } else {
                    assert(calls[k].id != calls[j].id);
                }
            }
        }
        assert(found.dom() == ids.to_set()) by {
            assert forall|id: Seq<char>| ids.to_set().contains(id) implies found.dom().contains(
                id,
            ) by {
                let k = ids.index_of(id);
                assert(ids[k] == calls[k].id);
            }
        }
        assert(group.complete());
        assert forall|k: int, p: int|
            0 <= k < calls.len() && #[trigger] last_output_at(
                items,
                first,
                end,
                (#[trigger] calls[k]).id,
                p,
            ) implies messages[1 + k] == (ChatMessageView {
            role: "tool"@,
            content: Some(ChatMessageContentView::Text(told_of(output_in(items[p])))),
            reasoning_content: None,
            tool_calls: None,
            tool_call_id: Some(calls[k].id),
        }) by {
            law_outputs_of_a_stretch(items, first, end, calls[k].id);
            assert(ids[k] == calls[k].id);
            assert(answers(ids, found)[k] == output_message(ids[k], found[ids[k]]));
            assert(messages[1 + k] == answers(ids, found)[k]);
        }
    } else if group.complete() {
        assert forall|k: int| 0 <= k < calls.len() implies exists|p: int|
            first <= p < end && is_output_of(#[trigger] items[p], (#[trigger] calls[k]).id) by {
            assert(ids[k] == calls[k].id);
            assert(ids.to_set().contains(ids[k]));
        }
        assert forall|j: int, k: int| 0 <= j < k < calls.len() implies (#[trigger] calls[j]).id != (
        #[trigger] calls[k]).id by {
            assert(ids[j] == calls[j].id && ids[k] == calls[k].id);
        }
    }
}

/// Behind the end of a conversation there are no calls: a group that is looked for there ends where
/// it starts, and becomes one message of the assistant with no calls and what reasoning was
/// waiting.
pub proof fn law_group_behind_the_end(
    items: Seq<ResponseItemView>,
    s: int,
    pending: Option<Seq<char>>,
)
    requires
        s >= items.len(),
    ensures
        call_group(items, s).end == s,
        call_group(items, s).messages(pending) == seq![
            ChatMessageView {
                role: "assistant"@,
                content: None,
                reasoning_content: pending,
                tool_calls: Some(Seq::empty()),
                tool_call_id: None,
            },
        ],
{
    let group = call_group(items, s);
    let ids = call_ids(group.calls);
    assert(ids == Seq::<Seq<char>>::empty());
    assert(group.outputs.len() == 0);
    if let Some(text) = pending {
        assert(listed(pending) + group.reasoning == seq![text]);
    } else {
        assert(listed(pending) + group.reasoning == Seq::<Seq<char>>::empty());
    }
    assert(group.messages(pending)[0].reasoning_content == pending);
    assert(answers(ids, group.outputs) == Seq::<ChatMessageView>::empty());
    assert(group.messages(pending) == seq![group.messages(pending)[0]]);
}

} // verus!
