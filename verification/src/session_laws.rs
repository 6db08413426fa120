//! What holds of a streamed response from its start to its end.

use crate::protocol::{ApiErrorView, ResponseEventView, ResponseItemView};
use crate::session::{is_done_marker, step, NextActionView, StreamInputView};
use crate::stream::{calls_from, finish_calls, ChatChunkView, ChatCompletionStateView};
use crate::stream_laws::{
    add_chunks, deltas_in, first_id, last_usage, law_events_fit_the_state,
    law_named_calls_are_finished, law_what_a_stream_says, on_the_way, reasoning_in,
};
use vstd::prelude::*;

verus! {

/// What a driver has got out of a stream: the state, all events that were delivered, the failure
/// that was delivered after them, and what is to be done next.
pub struct Run {
    pub state: ChatCompletionStateView,
    pub events: Seq<ResponseEventView>,
    pub failure: Option<ApiErrorView>,
    pub next: NextActionView,
}

/// A stream that has taken these steps from its start. After a step that says to stop, nothing
/// more happens.
pub open spec fn run(inputs: Seq<StreamInputView>) -> Run
    decreases inputs.len(),
{
    if inputs.len() == 0 {
        Run {
            state: ChatCompletionStateView::initial(),
            events: Seq::empty(),
            failure: None,
            next: NextActionView::Poll,
        }
    } else {
        let earlier = run(inputs.drop_last());
        if earlier.next is Stop {
            earlier
        } else {
            let (state, taken) = step(earlier.state, inputs.last());
            Run {
                state,
                events: earlier.events + taken.events,
                failure: taken.failure,
                next: taken.next,
            }
        }
    }
}

/// A server-sent event: its data, and the chunk that the data is, if it is one.
pub struct Frame {
    pub data: Seq<char>,
    pub chunk: Option<ChatChunkView>,
}

/// What a driver reports of a stream that is opened and sends these frames.
pub open spec fn inputs_of(frames: Seq<Frame>) -> Seq<StreamInputView>
    decreases frames.len(),
{
    if frames.len() == 0 {
        seq![StreamInputView::Opened]
    } else {
        inputs_of(frames.drop_last()).push(StreamInputView::Data(frames.last().data)).push(
            StreamInputView::Decoded(frames.last().chunk),
        )
    }
}

/// The chunks among the frames.
pub open spec fn chunks_of(frames: Seq<Frame>) -> Seq<ChatChunkView>
    decreases frames.len(),
{
    if frames.len() == 0 {
        Seq::empty()
    } else {
        match frames.last().chunk {
            Some(chunk) => chunks_of(frames.drop_last()).push(chunk),
            None => chunks_of(frames.drop_last()),
        }
    }
}

/// The message with which a stream gives up, where this ends it without the done marker.
pub open spec fn cut_short(ending: StreamInputView) -> Option<Seq<char>> {
    match ending {
        StreamInputView::Failed(message) => Some(message),
        StreamInputView::Closed => Some("stream closed before chat completion finished"@),
        StreamInputView::IdleTimeout => Some("idle timeout waiting for SSE"@),
        _ => None,
    }
}

/// While a stream goes on, it has delivered that the response was created, and then what its
/// chunks say. Data that is no chunk changes nothing.
pub proof fn law_stream_goes_on(frames: Seq<Frame>)
    requires
        forall|k: int| 0 <= k < frames.len() ==> !is_done_marker((#[trigger] frames[k]).data),
    ensures
        ({
            let body = add_chunks(ChatCompletionStateView::initial(), chunks_of(frames));
            run(inputs_of(frames)) == (Run {
                state: body.state,
                events: seq![ResponseEventView::Created] + body.events,
                failure: None,
                next: NextActionView::Poll,
            })
        }),
    decreases frames.len(),
{
    let initial = ChatCompletionStateView::initial();
    let inputs = inputs_of(frames);
    let created = seq![ResponseEventView::Created];
    if frames.len() == 0 {
        assert(inputs.drop_last() == Seq::<StreamInputView>::empty());
        assert(run(inputs.drop_last()).events + created == created + Seq::<
            ResponseEventView,
        >::empty());
    } else {
        let earlier = frames.drop_last();
        let frame = frames.last();
        assert(frames[frames.len() - 1] == frame);
        assert forall|k: int| 0 <= k < earlier.len() implies !is_done_marker(
            (#[trigger] earlier[k]).data,
        ) by {
            assert(earlier[k] == frames[k]);
        }
        law_stream_goes_on(earlier);
        let read = inputs_of(earlier).push(StreamInputView::Data(frame.data));
        assert(read.drop_last() == inputs_of(earlier));
        assert(inputs.drop_last() == read);
        assert(run(read).events == run(inputs_of(earlier)).events);
        let body = add_chunks(initial, chunks_of(earlier));
        if let Some(chunk) = frame.chunk {
            let all = chunks_of(frames);
            assert(all.drop_last() == chunks_of(earlier));
            assert(run(inputs).events == created + add_chunks(initial, all).events);
        } else {
            assert(run(inputs).events == created + body.events);
        }
    }
}

/// A stream that sends the done marker delivers the finished items and the completed response,
/// and no failure.
pub proof fn law_stream_completes(frames: Seq<Frame>, marker: Seq<char>)
    requires
        forall|k: int| 0 <= k < frames.len() ==> !is_done_marker((#[trigger] frames[k]).data),
        is_done_marker(marker),
    ensures
        ({
            let body = add_chunks(ChatCompletionStateView::initial(), chunks_of(frames));
            let end = run(inputs_of(frames).push(StreamInputView::Data(marker)));
            &&& end.events == seq![ResponseEventView::Created] + body.events
                + body.state.finish().events
            &&& end.failure is None
            &&& end.next is Stop
        }),
{
    law_stream_goes_on(frames);
    let inputs = inputs_of(frames).push(StreamInputView::Data(marker));
    assert(inputs.drop_last() == inputs_of(frames));
}

/// A stream that ends in any other way delivers a failure after what its chunks said: none of
/// its items is finished, and the response is not completed.
pub proof fn law_stream_is_cut_short(frames: Seq<Frame>, ending: StreamInputView)
    requires
        forall|k: int| 0 <= k < frames.len() ==> !is_done_marker((#[trigger] frames[k]).data),
        cut_short(ending) is Some,
    ensures
        ({
            let body = add_chunks(ChatCompletionStateView::initial(), chunks_of(frames));
            let end = run(inputs_of(frames).push(ending));
            &&& end.events == seq![ResponseEventView::Created] + body.events
            &&& end.failure == Some(ApiErrorView::Stream(cut_short(ending)->0))
            &&& end.next is Stop
            &&& forall|k: int| 1 <= k < end.events.len() ==> on_the_way(#[trigger] end.events[k])
        }),
{
    let chunks = chunks_of(frames);
    let body = add_chunks(ChatCompletionStateView::initial(), chunks);
    law_stream_goes_on(frames);
    law_events_fit_the_state(chunks);
    let inputs = inputs_of(frames).push(ending);
    let end = run(inputs);
    assert(inputs.drop_last() == inputs_of(frames));
    assert(end.events == seq![ResponseEventView::Created] + body.events);
    assert forall|k: int| 1 <= k < end.events.len() implies on_the_way(
        #[trigger] end.events[k],
    ) by {
        assert(end.events[k] == body.events[k - 1]);
    }
}

/// Once a stream has stopped, nothing more is delivered, whatever is reported of it.
pub proof fn law_nothing_follows_the_end(inputs: Seq<StreamInputView>, more: Seq<StreamInputView>)
    requires
        run(inputs).next is Stop,
    ensures
        run(inputs + more) == run(inputs),
    decreases more.len(),
{
    if more.len() == 0 {
        assert(inputs + more == inputs);
    } else {
        law_nothing_follows_the_end(inputs, more.drop_last());
        assert((inputs + more).drop_last() == inputs + more.drop_last());
    }
}

/// What has been delivered is never taken back: the events of a stream are those of its
/// beginning, and then more.
pub proof fn law_events_are_never_taken_back(
    inputs: Seq<StreamInputView>,
    more: Seq<StreamInputView>,
)
    ensures
        run(inputs).events.is_prefix_of(run(inputs + more).events),
    decreases more.len(),
{
    if more.len() == 0 {
        assert(inputs + more == inputs);
    } else {
        law_events_are_never_taken_back(inputs, more.drop_last());
        assert((inputs + more).drop_last() == inputs + more.drop_last());
    }
}

/// The reasoning that a finished item carries.
pub open spec fn carried(item: ResponseItemView) -> Option<Seq<char>> {
    match item {
        ResponseItemView::Message { reasoning_content, .. } => reasoning_content,
        ResponseItemView::FunctionCall { reasoning_content, .. } => reasoning_content,
        _ => None,
    }
}

/// A finished response ends with the one event that completes it, which tells the first id and
/// the last usage that the stream gave. Before it come finished items alone, and each of them
/// carries the whole reasoning of the stream.
pub proof fn law_response_is_completed_once(chunks: Seq<ChatChunkView>)
    ensures
        ({
            let events = add_chunks(
                ChatCompletionStateView::initial(),
                chunks,
            ).state.finish().events;
            let reasoning = reasoning_in(deltas_in(chunks));
            &&& events.len() > 0
            &&& events.last() == (ResponseEventView::Completed {
                response_id: match first_id(chunks) {
                    Some(id) => id,
                    None => "chatcmpl_unknown"@,
                },
                token_usage: last_usage(chunks),
                end_turn: None,
            })
            &&& forall|k: int|
                0 <= k < events.len() - 1 ==> {
                    &&& (#[trigger] events[k]) is OutputItemDone
                    &&& carried(events[k]->OutputItemDone_0) == if reasoning.len() == 0 {
                        None
                    } else {
                        Some(reasoning)
                    }
                }
        }),
{
    let state = add_chunks(ChatCompletionStateView::initial(), chunks).state;
    let events = state.finish().events;
    let message = state.finish_message();
    let calls = calls_from(state.tool_calls, 0);
    law_what_a_stream_says(chunks);
    law_named_calls_are_finished(state.fallback_id_counter, calls, state.reasoning());
    let finished = finish_calls(state.fallback_id_counter, calls, state.reasoning()).1;
    assert forall|k: int| 0 <= k < events.len() - 1 implies {
        &&& (#[trigger] events[k]) is OutputItemDone
        &&& carried(events[k]->OutputItemDone_0) == state.reasoning()
    } by {
        if k < message.len() {
            assert(events[k] == message[k]);
        } else {
            assert(events[k] == finished[k - message.len()]);
        }
    }
}

} // verus!
