//! Runs of tool calls and the outputs that follow them.
//!
//! A chat may call tools only where every call is answered: the message with the calls is
//! followed by one message per call, with that call's output. A run of calls in a conversation
//! becomes such a group of messages where the conversation holds all the outputs, and is left
//! out where it does not.

use crate::chat::{
    ChatFunctionCall, ChatFunctionCallView, ChatMessage, ChatMessageView, ChatToolCall,
    ChatToolCallView,
};
use crate::content::{
    calling_message, lines_of, lines_or_none, listed, output_message, own_reasoning,
    reasoning_items_to_text, reasoning_text, tool_message,
};
use crate::protocol::{
    FunctionCallOutputPayload, FunctionCallOutputPayloadView, ResponseItem, ResponseItemView,
};
use vstd::hash_map::StringHashMap;
use vstd::prelude::*;

verus! {

broadcast use vstd::hash_map::group_hash_map_axioms;

impl ResponseItemView {
    /// The chat's tool call for a call item.
    pub open spec fn call(self) -> Option<ChatToolCallView> {
        match self {
            ResponseItemView::FunctionCall { name, arguments, call_id, .. } => Some(
                ChatToolCallView {
                    id: call_id,
                    kind: "function"@,
                    function: ChatFunctionCallView { name, arguments },
                },
            ),
            ResponseItemView::CustomToolCall { call_id, name, input, .. } => Some(
                ChatToolCallView {
                    id: call_id,
                    kind: "function"@,
                    function: ChatFunctionCallView { name, arguments: input },
                },
            ),
            _ => None,
        }
    }

    /// The call id and the output of an output item.
    pub open spec fn output(self) -> Option<(Seq<char>, FunctionCallOutputPayloadView)> {
        match self {
            ResponseItemView::FunctionCallOutput { call_id, output } => Some((call_id, output)),
            ResponseItemView::CustomToolCallOutput { call_id, output } => Some((call_id, output)),
            _ => None,
        }
    }

    /// The reasoning that a call carries or that a reasoning item is.
    pub open spec fn reasoning(self) -> Option<Seq<char>> {
        match self {
            ResponseItemView::FunctionCall { reasoning_content, .. } => own_reasoning(
                reasoning_content,
            ),
            ResponseItemView::CustomToolCall { reasoning_content, .. } => own_reasoning(
                reasoning_content,
            ),
            ResponseItemView::Reasoning { content, .. } => reasoning_text(content),
            _ => None,
        }
    }

    /// Whether the item can stand in a run of calls: a call, or reasoning between calls.
    pub open spec fn in_call_run(self) -> bool {
        self.call() is Some || self is Reasoning
    }

    /// Whether the item can stand among the outputs of these calls: an output of one of them,
    /// or reasoning.
    pub open spec fn in_output_run(self, ids: Seq<Seq<char>>) -> bool {
        ||| self is Reasoning
        ||| self.output() matches Some((id, _)) && ids.contains(id)
    }
}

/// Where the run of calls that holds position `i` ends.
pub open spec fn call_run_end(items: Seq<ResponseItemView>, i: int) -> int
    decreases items.len() - i,
{
    if 0 <= i < items.len() && items[i].in_call_run() {
        call_run_end(items, i + 1)
    } else {
        i
    }
}

/// The calls from position `lo` up to position `hi`, in order.
pub open spec fn calls_between(items: Seq<ResponseItemView>, lo: int, hi: int) -> Seq<
    ChatToolCallView,
>
    decreases hi - lo,
{
    if lo >= hi {
        Seq::empty()
    } else {
        match items[hi - 1].call() {
            Some(call) => calls_between(items, lo, hi - 1).push(call),
            None => calls_between(items, lo, hi - 1),
        }
    }
}

/// The reasoning texts from position `lo` up to position `hi`, in order.
pub open spec fn reasoning_between(items: Seq<ResponseItemView>, lo: int, hi: int) -> Seq<
    Seq<char>,
>
    decreases hi - lo,
{
    if lo >= hi {
        Seq::empty()
    } else {
        reasoning_between(items, lo, hi - 1) + listed(items[hi - 1].reasoning())
    }
}

/// The ids of the calls, in order.
pub open spec fn call_ids(calls: Seq<ChatToolCallView>) -> Seq<Seq<char>> {
    calls.map_values(|call: ChatToolCallView| call.id)
}

/// The outputs from position `lo` up to position `hi`, by call id. Where a call has several, the
/// last counts.
pub open spec fn outputs_between(items: Seq<ResponseItemView>, lo: int, hi: int) -> Map<
    Seq<char>,
    FunctionCallOutputPayloadView,
>
    decreases hi - lo,
{
    if lo >= hi {
        Map::empty()
    } else {
        match items[hi - 1].output() {
            Some((id, output)) => outputs_between(items, lo, hi - 1).insert(id, output),
            None => outputs_between(items, lo, hi - 1),
        }
    }
}

/// Where the outputs of the calls end. The search starts at `lo`, stands at `i`, and stops once
/// it has as many outputs as there are calls, or at an item that is neither an output of one of
/// the calls nor reasoning.
pub open spec fn output_run_end(
    items: Seq<ResponseItemView>,
    ids: Seq<Seq<char>>,
    lo: int,
    i: int,
) -> int
    decreases items.len() - i,
{
    if 0 <= i < items.len() && outputs_between(items, lo, i).len() < ids.len()
        && items[i].in_output_run(ids) {
        output_run_end(items, ids, lo, i + 1)
    } else {
        i
    }
}

/// The answers to the calls, in the order of the calls.
pub open spec fn answers(
    ids: Seq<Seq<char>>,
    outputs: Map<Seq<char>, FunctionCallOutputPayloadView>,
) -> Seq<ChatMessageView> {
    ids.map_values(|id: Seq<char>| output_message(id, outputs[id]))
}

/// A run of tool calls with the outputs that follow it.
pub struct CallGroup {
    /// The calls of the run.
    pub calls: Seq<ChatToolCallView>,
    /// The reasoning texts among the calls.
    pub reasoning: Seq<Seq<char>>,
    /// The outputs that were found, by call id.
    pub outputs: Map<Seq<char>, FunctionCallOutputPayloadView>,
    /// The position after the group.
    pub end: int,
}

impl CallGroup {
    /// Whether every call has an output of its own.
    pub open spec fn complete(self) -> bool {
        self.outputs.len() == self.calls.len()
    }

    /// The messages that stand for the group in a chat, with the reasoning that preceded it.
    pub open spec fn messages(self, preceding: Option<Seq<char>>) -> Seq<ChatMessageView> {
        if self.complete() {
            seq![calling_message(self.calls, lines_of(listed(preceding) + self.reasoning))]
                + answers(call_ids(self.calls), self.outputs)
        } else {
            Seq::empty()
        }
    }
}

/// The group that starts at a position.
pub open spec fn call_group(items: Seq<ResponseItemView>, start: int) -> CallGroup {
    let run_end = call_run_end(items, start);
    let calls = calls_between(items, start, run_end);
    let end = output_run_end(items, call_ids(calls), run_end, run_end);
    CallGroup {
        calls,
        reasoning: reasoning_between(items, start, run_end),
        outputs: outputs_between(items, run_end, end),
        end,
    }
}

/// A run of calls ends no earlier than where it is looked at.
pub proof fn lemma_call_run_end(items: Seq<ResponseItemView>, i: int)
    requires
        0 <= i <= items.len(),
    ensures
        i <= call_run_end(items, i) <= items.len(),
        i < items.len() && items[i].in_call_run() ==> i < call_run_end(items, i),
        forall|k: int| i <= k < call_run_end(items, i) ==> (#[trigger] items[k]).in_call_run(),
    decreases items.len() - i,
{
    if i < items.len() && items[i].in_call_run() {
        lemma_call_run_end(items, i + 1);
    }
}

/// The outputs of a run end no earlier than where they are looked for.
pub proof fn lemma_output_run_end(
    items: Seq<ResponseItemView>,
    ids: Seq<Seq<char>>,
    lo: int,
    i: int,
)
    requires
        0 <= i <= items.len(),
    ensures
        i <= output_run_end(items, ids, lo, i) <= items.len(),
        forall|k: int|
            i <= k < output_run_end(items, ids, lo, i) ==> (#[trigger] items[k]).in_output_run(ids),
    decreases items.len() - i,
{
    if output_run_end(items, ids, lo, i) != i {
        lemma_output_run_end(items, ids, lo, i + 1);
    }
}

/// A group that starts with a call ends after that call.
pub proof fn lemma_group_advances(items: Seq<ResponseItemView>, i: int)
    requires
        0 <= i < items.len(),
        items[i].call() is Some,
    ensures
        i < call_group(items, i).end <= items.len(),
{
    lemma_call_run_end(items, i);
    let run_end = call_run_end(items, i);
    lemma_output_run_end(
        items,
        call_ids(calls_between(items, i, run_end)),
        run_end,
        run_end,
    );
}

/// The outputs found among the outputs of some calls are outputs of those calls.
pub proof fn lemma_outputs_known(
    items: Seq<ResponseItemView>,
    ids: Seq<Seq<char>>,
    lo: int,
    hi: int,
)
    requires
        lo <= hi,
        forall|i: int| lo <= i < hi ==> (#[trigger] items[i]).in_output_run(ids),
    ensures
        outputs_between(items, lo, hi).dom().finite(),
        outputs_between(items, lo, hi).dom().subset_of(ids.to_set()),
    decreases hi - lo,
{
    if lo < hi {
        lemma_outputs_known(items, ids, lo, hi - 1);
        assert(items[hi - 1].in_output_run(ids));
    }
}

/// As many outputs as calls, all of them outputs of those calls: then the calls have distinct
/// ids and each has an output.
pub proof fn lemma_all_answered(
    ids: Seq<Seq<char>>,
    outputs: Map<Seq<char>, FunctionCallOutputPayloadView>,
)
    requires
        outputs.dom().finite(),
        outputs.dom().subset_of(ids.to_set()),
    ensures
        outputs.len() <= ids.len(),
        outputs.len() == ids.len() <==> ids.no_duplicates() && outputs.dom() == ids.to_set(),
{
    ids.lemma_cardinality_of_set();
    vstd::set_lib::lemma_len_subset(outputs.dom(), ids.to_set());
    if outputs.len() == ids.len() {
        vstd::set_lib::lemma_subset_equality(outputs.dom(), ids.to_set());
        ids.lemma_no_dup_set_cardinality();
    }
    if ids.no_duplicates() {
        ids.unique_seq_to_set();
    }
}

/// Whether the id is one of the ids.
fn has_id(ids: &Vec<String>, id: &String) -> (found: bool)
    ensures
        found == ids.deep_view().contains(id@),
{
    let mut next: usize = 0;
    while next < ids.len()
        invariant
            next <= ids.len(),
            forall|i: int| 0 <= i < next ==> ids[i]@ != id@,
        decreases ids.len() - next,
    {
        if ids[next] == *id {
            assert(ids.deep_view()[next as int] == id@);
            return true;
        }
        next += 1;
    }
    false
}

/// Collects the run of tool calls that starts at a position, with its outputs, and tells where
/// the conversation goes on. A run with an unanswered call gives no messages.
pub fn collect_complete_tool_call_group(
    input: &Vec<ResponseItem>,
    start_idx: usize,
    preceding_reasoning: Option<String>,
) -> (collected: (usize, Vec<ChatMessage>))
    ensures
        collected.0 == call_group(input.deep_view(), start_idx as int).end,
        collected.1.deep_view() == call_group(input.deep_view(), start_idx as int).messages(
            preceding_reasoning.deep_view(),
        ),
        start_idx <= input.len() ==> start_idx <= collected.0 <= input.len(),
{
    let ghost items = input.deep_view();
    let ghost preceding = preceding_reasoning.deep_view();
    let ghost start = start_idx as int;
    let mut idx = start_idx;
    let mut calls: Vec<ChatToolCall> = Vec::new();
    let mut ids: Vec<String> = Vec::new();
    let mut reasoning: Vec<String> = Vec::new();
    if let Some(text) = preceding_reasoning {
        reasoning.push(text);
    }
    assert(reasoning.deep_view() == listed(preceding) + reasoning_between(items, start, start));
    while idx < input.len()
        invariant
            items == input.deep_view(),
            start == start_idx,
            start_idx <= idx,
            start_idx <= input.len() ==> idx <= input.len(),
            call_run_end(items, start) == call_run_end(items, idx as int),
            calls.deep_view() == calls_between(items, start, idx as int),
            ids.deep_view() == call_ids(calls.deep_view()),
            reasoning.deep_view() == listed(preceding) + reasoning_between(
                items,
                start,
                idx as int,
            ),
        ensures
            call_run_end(items, start) == idx,
        decreases input.len() - idx,
    {
        let ghost before = reasoning.deep_view();
        let ghost calls_before = calls.deep_view();
        assert(items[idx as int] == input[idx as int].deep_view());
        match &input[idx] {
            ResponseItem::FunctionCall { name, arguments, call_id, reasoning_content, .. } => {
                ids.push(call_id.clone());
                calls.push(
                    ChatToolCall {
                        id: call_id.clone(),
                        kind: "function",
                        function: ChatFunctionCall {
                            name: name.clone(),
                            arguments: arguments.clone(),
                        },
                    },
                );
                if let Some(text) = reasoning_content {
                    if !text.as_str().is_empty() {
                        reasoning.push(text.clone());
                    }
                }
            },
            ResponseItem::CustomToolCall { call_id, name, input: tool_input, reasoning_content } => {
                ids.push(call_id.clone());
                calls.push(
                    ChatToolCall {
                        id: call_id.clone(),
                        kind: "function",
                        function: ChatFunctionCall {
                            name: name.clone(),
                            arguments: tool_input.clone(),
                        },
                    },
                );
                if let Some(text) = reasoning_content {
                    if !text.as_str().is_empty() {
                        reasoning.push(text.clone());
                    }
                }
            },
            ResponseItem::Reasoning { content, .. } => {
                if let Some(text) = reasoning_items_to_text(content.as_ref()) {
                    reasoning.push(text);
                }
            },
            _ => {
                break;
            },
        }
        proof {
            assert(reasoning.deep_view() == before + listed(items[idx as int].reasoning()));
            if let Some(call) = items[idx as int].call() {
                assert(calls.deep_view() == calls_before.push(call));
                assert(call_ids(calls.deep_view()) == call_ids(calls_before).push(call.id));
            }
        }
        idx += 1;
    }

    let ghost run_end = idx as int;
    let ghost known = ids.deep_view();
    let mut scan_idx = idx;
    let mut outputs: StringHashMap<&FunctionCallOutputPayload> = StringHashMap::new();
    assert(outputs@.dom() == outputs_between(items, run_end, run_end).dom());
    while scan_idx < input.len() && outputs.len() < ids.len()
        invariant
            items == input.deep_view(),
            known == ids.deep_view(),
            run_end <= scan_idx,
            start_idx <= input.len() ==> scan_idx <= input.len(),
            output_run_end(items, known, run_end, run_end) == output_run_end(
                items,
                known,
                run_end,
                scan_idx as int,
            ),
            forall|i: int|
                run_end <= i < scan_idx ==> (#[trigger] items[i]).in_output_run(known),
            outputs@.dom() == outputs_between(items, run_end, scan_idx as int).dom(),
            forall|id: Seq<char>| #[trigger]
                outputs@.contains_key(id) ==> outputs@[id].deep_view() == outputs_between(
                    items,
                    run_end,
                    scan_idx as int,
                )[id],
        ensures
            output_run_end(items, known, run_end, run_end) == scan_idx,
        decreases input.len() - scan_idx,
    {
        assert(items[scan_idx as int] == input[scan_idx as int].deep_view());
        match &input[scan_idx] {
            ResponseItem::FunctionCallOutput { call_id, output } => {
                if !has_id(&ids, call_id) {
                    break;
                }
                outputs.insert(call_id.clone(), output);
            },
            ResponseItem::CustomToolCallOutput { call_id, output } => {
                if !has_id(&ids, call_id) {
                    break;
                }
                outputs.insert(call_id.clone(), output);
            },
            ResponseItem::Reasoning { .. } => {},
            _ => {
                break;
            },
        }
        scan_idx += 1;
    }
    if outputs.len() != ids.len() {
        return (scan_idx, Vec::new());
    }
    let ghost found = outputs_between(items, run_end, scan_idx as int);
    let ghost call_models = calls.deep_view();
    proof {
        lemma_outputs_known(items, known, run_end, scan_idx as int);
        lemma_all_answered(known, found);
    }
    let mut messages: Vec<ChatMessage> = Vec::new();
    messages.push(
        ChatMessage {
            role: "assistant".to_string(),
            content: None,
            reasoning_content: lines_or_none(&reasoning),
            tool_calls: Some(calls),
            tool_call_id: None,
        },
    );
    let ghost head = messages.deep_view();
    let mut next: usize = 0;
    while next < ids.len()
        invariant
            next <= ids.len(),
            known == ids.deep_view(),
            found.dom() == known.to_set(),
            outputs@.dom() == found.dom(),
            forall|id: Seq<char>| #[trigger]
                outputs@.contains_key(id) ==> outputs@[id].deep_view() == found[id],
            messages.deep_view() == head + answers(known, found).take(next as int),
        decreases ids.len() - next,
    {
        let ghost before = messages.deep_view();
        assert(known[next as int] == ids[next as int]@);
        assert(known.to_set().contains(known[next as int]));
        if let Some(output) = outputs.get(ids[next].as_str()) {
            messages.push(tool_message(ids[next].clone(), *output));
        }
        proof {
            let all = answers(known, found);
            assert(messages.deep_view() == before.push(all[next as int]));
            assert(all.take(next + 1) == all.take(next as int).push(all[next as int]));
        }
        next += 1;
    }
    proof {
        assert(answers(known, found).take(known.len() as int) == answers(known, found));
        assert(head == seq![
            calling_message(call_models, lines_of(listed(preceding) + reasoning_between(
                items,
                start,
                run_end,
            ))),
        ]);
    }
    (scan_idx, messages)
}

} // verus!
