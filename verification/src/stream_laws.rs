//! What holds of a streamed response as a whole.

use crate::protocol::{ContentItemView, ResponseEventView, TokenUsage};
use crate::stream::{
    assistant_item, call_item, calls_from, finish_calls, first_of, list_or_empty, made_up_call_id,
    token_usage, ChatChoiceView, ChatChunkView, ChatCompletionStateView, ChatDeltaToolCallView,
    ChatDeltaView, Progress, ToolCallView,
};
use crate::text::{decimal, digit};
use vstd::prelude::*;

verus! {

/// Takes up the chunks of a stream, one after the other.
pub open spec fn add_chunks(
    state: ChatCompletionStateView,
    chunks: Seq<ChatChunkView>,
) -> Progress
    decreases chunks.len(),
{
    if chunks.len() == 0 {
        Progress { state, events: Seq::empty() }
    } else {
        let earlier = add_chunks(state, chunks.drop_last());
        let last = earlier.state.add_chunk(chunks.last());
        Progress { state: last.state, events: earlier.events + last.events }
    }
}

/// The deltas of the alternatives.
pub open spec fn deltas_of(choices: Seq<ChatChoiceView>) -> Seq<ChatDeltaView> {
    choices.map_values(|choice: ChatChoiceView| choice.delta)
}

/// The deltas of the chunks, in order.
pub open spec fn deltas_in(chunks: Seq<ChatChunkView>) -> Seq<ChatDeltaView>
    decreases chunks.len(),
{
    if chunks.len() == 0 {
        Seq::empty()
    } else {
        deltas_in(chunks.drop_last()) + deltas_of(list_or_empty(chunks.last().choices))
    }
}

/// The first id that the chunks give.
pub open spec fn first_id(chunks: Seq<ChatChunkView>) -> Option<Seq<char>>
    decreases chunks.len(),
{
    if chunks.len() == 0 {
        None
    } else {
        first_of(first_id(chunks.drop_last()), chunks.last().id)
    }
}

/// The last usage that the chunks report.
pub open spec fn last_usage(chunks: Seq<ChatChunkView>) -> Option<TokenUsage>
    decreases chunks.len(),
{
    if chunks.len() == 0 {
        None
    } else {
        match chunks.last().usage {
            Some(usage) => Some(token_usage(usage)),
            None => last_usage(chunks.drop_last()),
        }
    }
}

/// The text of the message in the deltas.
pub open spec fn text_in(deltas: Seq<ChatDeltaView>) -> Seq<char>
    decreases deltas.len(),
{
    if deltas.len() == 0 {
        Seq::empty()
    } else {
        text_in(deltas.drop_last()) + list_or_empty(deltas.last().content)
    }
}

/// The reasoning in the deltas.
pub open spec fn reasoning_in(deltas: Seq<ChatDeltaView>) -> Seq<char>
    decreases deltas.len(),
{
    if deltas.len() == 0 {
        Seq::empty()
    } else {
        reasoning_in(deltas.drop_last()) + list_or_empty(deltas.last().reasoning_content)
    }
}

/// The pieces of tool calls in the deltas.
pub open spec fn pieces_in(deltas: Seq<ChatDeltaView>) -> Seq<ChatDeltaToolCallView>
    decreases deltas.len(),
{
    if deltas.len() == 0 {
        Seq::empty()
    } else {
        pieces_in(deltas.drop_last()) + list_or_empty(deltas.last().tool_calls)
    }
}

/// Whether a piece belongs to the tool call with an index.
pub open spec fn mentioned(pieces: Seq<ChatDeltaToolCallView>, index: usize) -> bool {
    exists|k: int| 0 <= k < pieces.len() && (#[trigger] pieces[k]).index == index
}

/// The last id that the pieces give the tool call with an index.
pub open spec fn last_call_id(pieces: Seq<ChatDeltaToolCallView>, index: usize) -> Option<
    Seq<char>,
>
    decreases pieces.len(),
{
    if pieces.len() == 0 {
        None
    } else if pieces.last().index == index && pieces.last().id is Some {
        pieces.last().id
    } else {
        last_call_id(pieces.drop_last(), index)
    }
}

/// The last name that the pieces give the tool call with an index.
pub open spec fn last_name(pieces: Seq<ChatDeltaToolCallView>, index: usize) -> Option<Seq<char>>
    decreases pieces.len(),
{
    if pieces.len() == 0 {
        None
    } else {
        match pieces.last().function {
            Some(function) if pieces.last().index == index && function.name is Some => {
                function.name
            },
            _ => last_name(pieces.drop_last(), index),
        }
    }
}

/// The arguments that the pieces give the tool call with an index, one after the other.
pub open spec fn arguments_in(pieces: Seq<ChatDeltaToolCallView>, index: usize) -> Seq<char>
    decreases pieces.len(),
{
    if pieces.len() == 0 {
        Seq::empty()
    } else {
        match pieces.last().function {
            Some(function) if pieces.last().index == index => {
                arguments_in(pieces.drop_last(), index) + list_or_empty(function.arguments)
            },
            _ => arguments_in(pieces.drop_last(), index),
        }
    }
}

/// Whether the tool calls are what the pieces say.
pub open spec fn calls_told(
    calls: Map<usize, ToolCallView>,
    pieces: Seq<ChatDeltaToolCallView>,
) -> bool {
    forall|index: usize|
        {
            &&& #[trigger] calls.contains_key(index) <==> mentioned(pieces, index)
            &&& calls.contains_key(index) ==> calls[index] == (ToolCallView {
                id: last_call_id(pieces, index),
                name: last_name(pieces, index),
                arguments: arguments_in(pieces, index),
            })
        }
}

/// Whether the state is what the deltas say.
pub open spec fn told(state: ChatCompletionStateView, deltas: Seq<ChatDeltaView>) -> bool {
    &&& state.assistant_text == text_in(deltas)
    &&& state.reasoning_content == reasoning_in(deltas)
    &&& calls_told(state.tool_calls, pieces_in(deltas))
}

/// Nothing is said of a tool call that no piece belongs to.
pub proof fn lemma_not_mentioned(pieces: Seq<ChatDeltaToolCallView>, index: usize)
    requires
        !mentioned(pieces, index),
    ensures
        last_call_id(pieces, index) is None,
        last_name(pieces, index) is None,
        arguments_in(pieces, index) == Seq::<char>::empty(),
    decreases pieces.len(),
{
    if pieces.len() > 0 {
        let earlier = pieces.drop_last();
        assert(pieces[pieces.len() - 1].index != index);
        if mentioned(earlier, index) {
            let k = choose|k: int| 0 <= k < earlier.len() && (#[trigger] earlier[k]).index == index;
            assert(pieces[k].index == index);
        }
        lemma_not_mentioned(earlier, index);
    }
}

/// One more piece of a tool call.
proof fn lemma_piece_told(
    state: ChatCompletionStateView,
    pieces: Seq<ChatDeltaToolCallView>,
    piece: ChatDeltaToolCallView,
)
    requires
        calls_told(state.tool_calls, pieces),
    ensures
        calls_told(state.add_tool_call(piece).state.tool_calls, pieces.push(piece)),
{
    let after = state.add_tool_call(piece).state.tool_calls;
    let all = pieces.push(piece);
    assert(all.drop_last() == pieces);
    assert forall|index: usize|
        {
            &&& #[trigger] after.contains_key(index) <==> mentioned(all, index)
            &&& after.contains_key(index) ==> after[index] == (ToolCallView {
                id: last_call_id(all, index),
                name: last_name(all, index),
                arguments: arguments_in(all, index),
            })
        } by {
        assert(state.tool_calls.contains_key(index) <==> mentioned(pieces, index));
        assert(all[pieces.len() as int] == piece);
        if mentioned(pieces, index) {
            let k = choose|k: int| 0 <= k < pieces.len() && (#[trigger] pieces[k]).index == index;
            assert(all[k] == pieces[k]);
        } else {
            lemma_not_mentioned(pieces, index);
        }
        assert(arguments_in(pieces, index) + Seq::<char>::empty() == arguments_in(pieces, index));
        if mentioned(all, index) && index != piece.index {
            let k = choose|k: int| 0 <= k < all.len() && (#[trigger] all[k]).index == index;
            assert(pieces[k] == all[k]);
        }
    }
}

/// More pieces of tool calls.
pub proof fn lemma_pieces_told(
    state: ChatCompletionStateView,
    pieces: Seq<ChatDeltaToolCallView>,
    more: Seq<ChatDeltaToolCallView>,
)
    requires
        calls_told(state.tool_calls, pieces),
    ensures
        calls_told(state.add_tool_calls(more).state.tool_calls, pieces + more),
        state.add_tool_calls(more).state == (ChatCompletionStateView {
            tool_calls: state.add_tool_calls(more).state.tool_calls,
            ..state
        }),
    decreases more.len(),
{
    if more.len() == 0 {
        assert(pieces + more == pieces);
    } else {
        lemma_pieces_told(state, pieces, more.drop_last());
        lemma_piece_told(
            state.add_tool_calls(more.drop_last()).state,
            pieces + more.drop_last(),
            more.last(),
        );
        assert((pieces + more.drop_last()).push(more.last()) == pieces + more);
    }
}

/// One more delta.
proof fn lemma_delta_told(
    state: ChatCompletionStateView,
    deltas: Seq<ChatDeltaView>,
    delta: ChatDeltaView,
)
    requires
        told(state, deltas),
    ensures
        told(state.add_delta(delta).state, deltas.push(delta)),
        state.add_delta(delta).state.response_id == state.response_id,
        state.add_delta(delta).state.usage == state.usage,
        state.add_delta(delta).state.fallback_id_counter == state.fallback_id_counter,
{
    let all = deltas.push(delta);
    assert(all.drop_last() == deltas);
    let spoken = state.add_reasoning(delta.reasoning_content).add_content(delta.content).state;
    lemma_pieces_told(spoken, pieces_in(deltas), list_or_empty(delta.tool_calls));
    assert(text_in(deltas) + Seq::<char>::empty() == text_in(deltas));
    assert(spoken.assistant_text == text_in(all));
}

/// More deltas.
pub proof fn lemma_choices_told(
    state: ChatCompletionStateView,
    deltas: Seq<ChatDeltaView>,
    choices: Seq<ChatChoiceView>,
)
    requires
        told(state, deltas),
    ensures
        told(state.add_choices(choices).state, deltas + deltas_of(choices)),
        state.add_choices(choices).state.response_id == state.response_id,
        state.add_choices(choices).state.usage == state.usage,
        state.add_choices(choices).state.fallback_id_counter == state.fallback_id_counter,
    decreases choices.len(),
{
    if choices.len() == 0 {
        assert(deltas + deltas_of(choices) == deltas);
    } else {
        let earlier = choices.drop_last();
        lemma_choices_told(state, deltas, earlier);
        lemma_delta_told(
            state.add_choices(earlier).state,
            deltas + deltas_of(earlier),
            choices.last().delta,
        );
        assert((deltas + deltas_of(earlier)).push(choices.last().delta) == deltas + deltas_of(
            choices,
        ));
    }
}

/// What a stream has said depends on what its chunks say together, not on how it is cut into
/// chunks: the texts are put together, the first id stays, the last usage counts, and of each
/// tool call the last id and name count and the arguments are put together.
pub proof fn law_what_a_stream_says(chunks: Seq<ChatChunkView>)
    ensures
        ({
            let state = add_chunks(ChatCompletionStateView::initial(), chunks).state;
            &&& told(state, deltas_in(chunks))
            &&& state.response_id == first_id(chunks)
            &&& state.usage == last_usage(chunks)
            &&& state.fallback_id_counter == 0
        }),
    decreases chunks.len(),
{
    let initial = ChatCompletionStateView::initial();
    if chunks.len() > 0 {
        let earlier = add_chunks(initial, chunks.drop_last()).state;
        law_what_a_stream_says(chunks.drop_last());
        lemma_choices_told(
            earlier.note(chunks.last()),
            deltas_in(chunks.drop_last()),
            list_or_empty(chunks.last().choices),
        );
    }
}

/// The text that the events pass on.
pub open spec fn text_passed_on(events: Seq<ResponseEventView>) -> Seq<char>
    decreases events.len(),
{
    if events.len() == 0 {
        Seq::empty()
    } else {
        match events.last() {
            ResponseEventView::OutputTextDelta(text) => text_passed_on(events.drop_last()) + text,
            _ => text_passed_on(events.drop_last()),
        }
    }
}

/// Whether the event comes while the response goes on: the start of an item, or a piece of text
/// or of arguments.
pub open spec fn on_the_way(event: ResponseEventView) -> bool {
    event is OutputItemAdded || event is OutputTextDelta || event is ToolCallInputDelta
}

/// Whether the message item with this id is started at position `p` and nowhere else, and all
/// text comes after that.
pub open spec fn started_at(events: Seq<ResponseEventView>, id: Seq<char>, p: int) -> bool {
    &&& 0 <= p < events.len()
    &&& events[p] == ResponseEventView::OutputItemAdded(
        assistant_item(Some(id), Seq::empty(), None),
    )
    &&& forall|k: int|
        0 <= k < events.len() && k != p ==> !(#[trigger] events[k] is OutputItemAdded)
    &&& forall|k: int| 0 <= k < p ==> !(#[trigger] events[k] is OutputTextDelta)
}

/// Whether the message item with this id is started, once, before all text.
pub open spec fn started(events: Seq<ResponseEventView>, id: Seq<char>) -> bool {
    exists|p: int| started_at(events, id, p)
}

/// Whether the events that led to a state fit it: the text that was passed on is the text of the
/// state, and the message item was started once, under the id that the state holds, before any
/// text. Without a text no item was started.
pub open spec fn fits(state: ChatCompletionStateView, events: Seq<ResponseEventView>) -> bool {
    &&& forall|k: int| 0 <= k < events.len() ==> on_the_way(#[trigger] events[k])
    &&& text_passed_on(events) == state.assistant_text
    &&& match state.assistant_item_id {
        Some(id) => state.assistant_text.len() > 0 && started(events, id),
        None => state.assistant_text.len() == 0 && forall|k: int|
            0 <= k < events.len() ==> (#[trigger] events[k]) is ToolCallInputDelta,
    }
}

/// A piece of arguments changes nothing about the message.
proof fn lemma_input_delta_fits(
    state: ChatCompletionStateView,
    events: Seq<ResponseEventView>,
    piece: ChatDeltaToolCallView,
)
    requires
        fits(state, events),
    ensures
        fits(state.add_tool_call(piece).state, events + state.add_tool_call(piece).events),
{
    let more = state.add_tool_call(piece).events;
    let all = events + more;
    if more.len() == 0 {
        assert(all == events);
    } else {
        assert(all.drop_last() == events);
        assert(all.last() is ToolCallInputDelta);
        assert forall|k: int| 0 <= k < all.len() implies #[trigger] all[k] == (if k < events.len() {
            events[k]
        } else {
            all.last()
        }) by {}
        if let Some(id) = state.assistant_item_id {
            let p = choose|p: int| started_at(events, id, p);
            assert(started_at(all, id, p));
        }
    }
}

/// Pieces of arguments change nothing about the message.
proof fn lemma_input_deltas_fit(
    state: ChatCompletionStateView,
    events: Seq<ResponseEventView>,
    pieces: Seq<ChatDeltaToolCallView>,
)
    requires
        fits(state, events),
    ensures
        fits(state.add_tool_calls(pieces).state, events + state.add_tool_calls(pieces).events),
    decreases pieces.len(),
{
    if pieces.len() == 0 {
        assert(events + state.add_tool_calls(pieces).events == events);
    } else {
        let earlier = state.add_tool_calls(pieces.drop_last());
        lemma_input_deltas_fit(state, events, pieces.drop_last());
        lemma_input_delta_fits(earlier.state, events + earlier.events, pieces.last());
        assert(events + state.add_tool_calls(pieces).events == (events + earlier.events)
            + earlier.state.add_tool_call(pieces.last()).events);
    }
}

/// A piece of text is passed on, after the item has been started.
proof fn lemma_content_fits(
    state: ChatCompletionStateView,
    events: Seq<ResponseEventView>,
    content: Option<Seq<char>>,
)
    requires
        fits(state, events),
    ensures
        fits(state.add_content(content).state, events + state.add_content(content).events),
{
    let progress = state.add_content(content);
    let all = events + progress.events;
    let text = list_or_empty(content);
    if text.len() == 0 {
        assert(all == events);
    } else {
        let started = events + state.start_item().events;
        let id = state.item_id();
        assert(all.drop_last() == started);
        assert(all.last() == ResponseEventView::OutputTextDelta(text));
        if state.assistant_item_id is Some {
            assert(started == events);
            let p = choose|p: int| started_at(events, id, p);
            assert forall|k: int| 0 <= k < all.len() implies #[trigger] all[k] == (if k
                < events.len() {
                events[k]
            } else {
                all.last()
            }) by {}
            assert(started_at(all, id, p));
        } else {
            let p = events.len() as int;
            assert(started.drop_last() == events);
            assert forall|k: int| 0 <= k < events.len() implies #[trigger] all[k] == events[k] by {}
            assert(all[p] == started.last());
            assert(started.last() is OutputItemAdded);
            assert(text_passed_on(started) == text_passed_on(events));
            assert(all[p + 1] == all.last());
            assert(started_at(all, id, p));
        }
        assert(text_passed_on(all) == progress.state.assistant_text);
        assert(progress.state.assistant_text.len() > 0);
        assert forall|k: int| 0 <= k < all.len() implies on_the_way(#[trigger] all[k]) by {
            if k < events.len() {
                assert(on_the_way(events[k]));
            }
        }
    }
}

/// A delta keeps events and state in step.
proof fn lemma_delta_fits(
    state: ChatCompletionStateView,
    events: Seq<ResponseEventView>,
    delta: ChatDeltaView,
)
    requires
        fits(state, events),
    ensures
        fits(state.add_delta(delta).state, events + state.add_delta(delta).events),
{
    let reasoned = state.add_reasoning(delta.reasoning_content);
    let spoken = reasoned.add_content(delta.content);
    let pieces = list_or_empty(delta.tool_calls);
    assert(fits(reasoned, events));
    lemma_content_fits(reasoned, events, delta.content);
    lemma_input_deltas_fit(spoken.state, events + spoken.events, pieces);
    assert(events + state.add_delta(delta).events == (events + spoken.events)
        + spoken.state.add_tool_calls(pieces).events);
}

/// Alternatives keep events and state in step.
proof fn lemma_choices_fit(
    state: ChatCompletionStateView,
    events: Seq<ResponseEventView>,
    choices: Seq<ChatChoiceView>,
)
    requires
        fits(state, events),
    ensures
        fits(state.add_choices(choices).state, events + state.add_choices(choices).events),
    decreases choices.len(),
{
    if choices.len() == 0 {
        assert(events + state.add_choices(choices).events == events);
    } else {
        let earlier = state.add_choices(choices.drop_last());
        lemma_choices_fit(state, events, choices.drop_last());
        lemma_delta_fits(earlier.state, events + earlier.events, choices.last().delta);
        assert(events + state.add_choices(choices).events == (events + earlier.events)
            + earlier.state.add_delta(choices.last().delta).events);
    }
}

/// While a response goes on, its events fit its state: the text is passed on as it comes, and the
/// message item is started once, before any text, where there is a text at all.
pub proof fn law_events_fit_the_state(chunks: Seq<ChatChunkView>)
    ensures
        ({
            let body = add_chunks(ChatCompletionStateView::initial(), chunks);
            fits(body.state, body.events)
        }),
    decreases chunks.len(),
{
    let initial = ChatCompletionStateView::initial();
    if chunks.len() > 0 {
        let earlier = add_chunks(initial, chunks.drop_last());
        law_events_fit_the_state(chunks.drop_last());
        lemma_choices_fit(
            earlier.state.note(chunks.last()),
            earlier.events,
            list_or_empty(chunks.last().choices),
        );
    }
}

/// The streamed message is one item: where the stream has a text, the item that is finished has
/// the id under which it was started, and its text is the text that was passed on, which is the
/// text of the deltas. Where the stream has no text, no message is started or finished.
pub proof fn law_message_is_one_item(chunks: Seq<ChatChunkView>)
    ensures
        ({
            let body = add_chunks(ChatCompletionStateView::initial(), chunks);
            let text = text_in(deltas_in(chunks));
            &&& text_passed_on(body.events) == text
            &&& text.len() > 0 ==> exists|id: Seq<char>|
                {
                    &&& #[trigger] started(body.events, id)
                    &&& body.state.finish_message() == seq![
                        ResponseEventView::OutputItemDone(
                            assistant_item(
                                Some(id),
                                seq![ContentItemView::OutputText { text }],
                                body.state.reasoning(),
                            ),
                        ),
                    ]
                }
            &&& text.len() == 0 ==> body.state.finish_message().len() == 0 && forall|k: int|
                0 <= k < body.events.len() ==> (#[trigger] body.events[k]) is ToolCallInputDelta
        }),
{
    let body = add_chunks(ChatCompletionStateView::initial(), chunks);
    law_what_a_stream_says(chunks);
    law_events_fit_the_state(chunks);
    if let Some(id) = body.state.assistant_item_id {
        assert(started(body.events, id));
    }
}

/// The pieces of arguments that the events pass on, in order.
pub open spec fn arguments_passed_on(events: Seq<ResponseEventView>) -> Seq<Seq<char>>
    decreases events.len(),
{
    if events.len() == 0 {
        Seq::empty()
    } else {
        match events.last() {
            ResponseEventView::ToolCallInputDelta { delta, .. } => arguments_passed_on(
                events.drop_last(),
            ).push(delta),
            _ => arguments_passed_on(events.drop_last()),
        }
    }
}

/// The arguments that a piece of a tool call gives.
pub open spec fn piece_arguments(piece: ChatDeltaToolCallView) -> Seq<char> {
    match piece.function {
        Some(function) => list_or_empty(function.arguments),
        None => Seq::empty(),
    }
}

/// The arguments that the pieces give, in order, apart from empty ones.
pub open spec fn arguments_given(pieces: Seq<ChatDeltaToolCallView>) -> Seq<Seq<char>>
    decreases pieces.len(),
{
    if pieces.len() == 0 {
        Seq::empty()
    } else if piece_arguments(pieces.last()).len() > 0 {
        arguments_given(pieces.drop_last()).push(piece_arguments(pieces.last()))
    } else {
        arguments_given(pieces.drop_last())
    }
}

/// Arguments that two runs of events pass on.
proof fn lemma_passed_on_concat(first: Seq<ResponseEventView>, second: Seq<ResponseEventView>)
    ensures
        arguments_passed_on(first + second) == arguments_passed_on(first) + arguments_passed_on(
            second,
        ),
    decreases second.len(),
{
    let all = first + second;
    if second.len() == 0 {
        assert(all == first);
    } else {
        assert(all.drop_last() == first + second.drop_last());
        lemma_passed_on_concat(first, second.drop_last());
    }
}

/// Arguments that two runs of pieces give.
proof fn lemma_given_concat(
    first: Seq<ChatDeltaToolCallView>,
    second: Seq<ChatDeltaToolCallView>,
)
    ensures
        arguments_given(first + second) == arguments_given(first) + arguments_given(second),
    decreases second.len(),
{
    let all = first + second;
    if second.len() == 0 {
        assert(all == first);
    } else {
        assert(all.drop_last() == first + second.drop_last());
        lemma_given_concat(first, second.drop_last());
    }
}

/// Pieces of tool calls pass on their arguments.
proof fn lemma_pieces_pass_on(state: ChatCompletionStateView, pieces: Seq<ChatDeltaToolCallView>)
    ensures
        arguments_passed_on(state.add_tool_calls(pieces).events) == arguments_given(pieces),
    decreases pieces.len(),
{
    if pieces.len() > 0 {
        let earlier = state.add_tool_calls(pieces.drop_last());
        let more = earlier.state.add_tool_call(pieces.last()).events;
        lemma_pieces_pass_on(state, pieces.drop_last());
        lemma_passed_on_concat(earlier.events, more);
        reveal_with_fuel(arguments_passed_on, 2);
    }
}

/// Alternatives pass on the arguments of their pieces.
proof fn lemma_choices_pass_on(state: ChatCompletionStateView, choices: Seq<ChatChoiceView>)
    ensures
        arguments_passed_on(state.add_choices(choices).events) == arguments_given(
            pieces_in(deltas_of(choices)),
        ),
    decreases choices.len(),
{
    if choices.len() > 0 {
        let delta = choices.last().delta;
        let pieces = list_or_empty(delta.tool_calls);
        let earlier = state.add_choices(choices.drop_last());
        let spoken = earlier.state.add_reasoning(delta.reasoning_content).add_content(
            delta.content,
        );
        let called = spoken.state.add_tool_calls(pieces);
        lemma_choices_pass_on(state, choices.drop_last());
        reveal_with_fuel(arguments_passed_on, 3);
        assert(arguments_passed_on(spoken.events) == Seq::<Seq<char>>::empty());
        lemma_pieces_pass_on(spoken.state, pieces);
        lemma_passed_on_concat(spoken.events, called.events);
        lemma_passed_on_concat(earlier.events, spoken.events + called.events);
        assert(deltas_of(choices).drop_last() == deltas_of(choices.drop_last()));
        lemma_given_concat(pieces_in(deltas_of(choices.drop_last())), pieces);
    }
}

/// The pieces in two runs of deltas.
proof fn lemma_pieces_concat(first: Seq<ChatDeltaView>, second: Seq<ChatDeltaView>)
    ensures
        pieces_in(first + second) == pieces_in(first) + pieces_in(second),
    decreases second.len(),
{
    let all = first + second;
    if second.len() == 0 {
        assert(all == first);
    } else {
        assert(all.drop_last() == first + second.drop_last());
        lemma_pieces_concat(first, second.drop_last());
    }
}

/// The arguments of tool calls are passed on as they come: every piece that is not empty, in
/// order, and nothing else.
pub proof fn law_arguments_are_passed_on(chunks: Seq<ChatChunkView>)
    ensures
        arguments_passed_on(add_chunks(ChatCompletionStateView::initial(), chunks).events)
            == arguments_given(pieces_in(deltas_in(chunks))),
    decreases chunks.len(),
{
    if chunks.len() > 0 {
        let earlier = add_chunks(ChatCompletionStateView::initial(), chunks.drop_last());
        let choices = list_or_empty(chunks.last().choices);
        let noted = earlier.state.note(chunks.last());
        law_arguments_are_passed_on(chunks.drop_last());
        lemma_choices_pass_on(noted, choices);
        lemma_passed_on_concat(earlier.events, noted.add_choices(choices).events);
        lemma_pieces_concat(deltas_in(chunks.drop_last()), deltas_of(choices));
        lemma_given_concat(
            pieces_in(deltas_in(chunks.drop_last())),
            pieces_in(deltas_of(choices)),
        );
    }
}

/// The indexes of tool calls from `i` on, in ascending order.
pub open spec fn indexes_from(calls: Map<usize, ToolCallView>, i: int) -> Seq<usize>
    decreases usize::MAX - i + 1,
{
    if i < 0 || i > usize::MAX {
        Seq::empty()
    } else if calls.contains_key(i as usize) {
        seq![i as usize] + indexes_from(calls, i + 1)
    } else {
        indexes_from(calls, i + 1)
    }
}

/// The indexes from `i` on are those of the calls, ascending.
proof fn lemma_indexes_from(calls: Map<usize, ToolCallView>, i: int)
    requires
        0 <= i <= usize::MAX + 1,
    ensures
        calls_from(calls, i) == indexes_from(calls, i).map_values(|index: usize| calls[index]),
        forall|j: int, k: int|
            0 <= j < k < indexes_from(calls, i).len() ==> indexes_from(calls, i)[j]
                < indexes_from(calls, i)[k],
        forall|k: int|
            0 <= k < indexes_from(calls, i).len() ==> i <= #[trigger] indexes_from(calls, i)[k]
                && calls.contains_key(indexes_from(calls, i)[k]),
        forall|index: usize|
            i <= index && #[trigger] calls.contains_key(index) ==> indexes_from(calls, i).contains(
                index,
            ),
    decreases usize::MAX - i + 1,
{
    if i <= usize::MAX {
        lemma_indexes_from(calls, i + 1);
        let rest = indexes_from(calls, i + 1);
        let all = indexes_from(calls, i);
        if calls.contains_key(i as usize) {
            assert(all[0] == i as usize);
            assert forall|k: int| 0 < k < all.len() implies #[trigger] all[k] == rest[k - 1] by {}
            assert forall|index: usize| i <= index && #[trigger] calls.contains_key(
                index,
            ) implies all.contains(index) by {
                if index != i {
                    let k = choose|k: int| 0 <= k < rest.len() && rest[k] == index;
                    assert(rest.contains(index));
                    assert(all[k + 1] == index);
                }
            }
        }
        assert(calls_from(calls, i) == all.map_values(|index: usize| calls[index]));
    }
}

/// Tool calls are finished in the order of their indexes, each of them once.
pub proof fn law_calls_come_in_order(calls: Map<usize, ToolCallView>)
    ensures
        calls_from(calls, 0) == indexes_from(calls, 0).map_values(|index: usize| calls[index]),
        forall|j: int, k: int|
            0 <= j < k < indexes_from(calls, 0).len() ==> indexes_from(calls, 0)[j]
                < indexes_from(calls, 0)[k],
        forall|index: usize| #[trigger]
            indexes_from(calls, 0).contains(index) <==> calls.contains_key(index),
{
    lemma_indexes_from(calls, 0);
}

/// The calls that have a name.
pub open spec fn named(calls: Seq<ToolCallView>) -> Seq<ToolCallView> {
    calls.filter(|call: ToolCallView| call.name is Some)
}

/// How many of the calls have no id.
pub open spec fn without_id(calls: Seq<ToolCallView>) -> nat {
    calls.filter(|call: ToolCallView| call.id is None).len()
}

/// The id under which the call at position `k` is finished: its own, or a made-up one. Made-up
/// ids are numbered one by one, after those that were made up before.
pub open spec fn finished_id(made_up: nat, calls: Seq<ToolCallView>, k: int) -> Seq<char> {
    match calls[k].id {
        Some(id) => id,
        None => made_up_call_id(made_up + without_id(calls.take(k + 1))),
    }
}

/// Every call that has a name is finished, and no other: with its name and its arguments, with
/// its id or a made-up one, and with the reasoning of the response.
pub proof fn law_named_calls_are_finished(
    made_up: nat,
    calls: Seq<ToolCallView>,
    reasoning: Option<Seq<char>>,
)
    ensures
        finish_calls(made_up, calls, reasoning).0 == made_up + without_id(named(calls)),
        finish_calls(made_up, calls, reasoning).1 == Seq::new(
            named(calls).len(),
            |k: int|
                ResponseEventView::OutputItemDone(
                    call_item(
                        named(calls)[k].name->0,
                        named(calls)[k].arguments,
                        finished_id(made_up, named(calls), k),
                        reasoning,
                    ),
                ),
        ),
    decreases calls.len(),
{
    reveal(Seq::filter);
    if calls.len() > 0 {
        let earlier = named(calls.drop_last());
        let all = named(calls);
        law_named_calls_are_finished(made_up, calls.drop_last(), reasoning);
        if calls.last().name is Some {
            assert(all == earlier.push(calls.last()));
            assert(all.drop_last() == earlier);
            assert(all.take(all.len() as int) == all);
            assert forall|k: int| 0 <= k < earlier.len() implies #[trigger] finished_id(
                made_up,
                all,
                k,
            ) == finished_id(made_up, earlier, k) by {
                assert(all.take(k + 1) == earlier.take(k + 1));
            }
        } else {
            assert(all == earlier);
        }
    }
}

/// A numeral stands for one number.
proof fn lemma_decimal_is_injective(a: nat, b: nat)
    requires
        decimal(a) == decimal(b),
    ensures
        a == b,
    decreases a,
{
    assert(decimal(a).len() > 0 && decimal(b).len() > 0);
    let last_a = a % 10;
    let last_b = b % 10;
    assert(decimal(a).last() == digit(last_a));
    assert(decimal(b).last() == digit(last_b));
    assert(last_a == last_b);
    if a >= 10 {
        assert(decimal(a / 10).len() > 0);
        assert(b >= 10);
        assert(decimal(a).drop_last() == decimal(a / 10));
        assert(decimal(b).drop_last() == decimal(b / 10));
        lemma_decimal_is_injective(a / 10, b / 10);
    } else if b >= 10 {
        assert(decimal(b / 10).len() > 0);
        assert(false);
    }
}

/// No two calls are given the same made-up id.
pub proof fn law_made_up_ids_differ(a: nat, b: nat)
    requires
        a != b,
    ensures
        made_up_call_id(a) != made_up_call_id(b),
{
    if made_up_call_id(a) == made_up_call_id(b) {
        let prefix = "chat_tool_call_"@;
        assert(made_up_call_id(a).skip(prefix.len() as int) == decimal(a));
        assert(made_up_call_id(b).skip(prefix.len() as int) == decimal(b));
        lemma_decimal_is_injective(a, b);
    }
}

} // verus!
