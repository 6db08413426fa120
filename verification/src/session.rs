//! One streamed response from its start to its end, step by step.
//!
//! The driver polls the connection, decodes chunks and delivers events; [`ChatCompletionState`]
//! holds what the stream has said so far. After each thing the driver has done, a step tells what
//! to deliver and what to do next.

use crate::protocol::{ApiError, ApiErrorView, ResponseEvent, ResponseEventView};
use crate::stream::{
    finish_chat_stream, handle_chat_chunk, lemma_add_chunk_counter, lemma_call_count, ChatChunk,
    ChatChunkView, ChatCompletionState, ChatCompletionStateView,
};
use crate::text::{text_is, trim_text, trimmed};
use vstd::prelude::*;

verus! {

/// What the driver has to report.
#[derive(Debug, PartialEq, Eq)]
pub enum StreamInput {
    /// The connection is open.
    Opened,
    /// The data of a server-sent event came in.
    Data(String),
    /// The data was decoded; it may not have been a chunk.
    Decoded(Option<ChatChunk>),
    /// The connection failed.
    Failed(String),
    /// The connection was closed.
    Closed,
    /// Nothing came in for too long.
    IdleTimeout,
}

/// What the driver is to do after it has delivered the events.
#[derive(Debug, PartialEq, Eq)]
pub enum NextAction {
    /// Wait for the next server-sent event.
    Poll,
    /// Decode this data as a chunk.
    Decode(String),
    /// Stop: nothing more is delivered.
    Stop,
}

/// What a step asks of the driver: first the events are delivered, then the failure.
#[derive(Debug, PartialEq, Eq)]
pub struct StreamStep {
    pub events: Vec<ResponseEvent>,
    pub failure: Option<ApiError>,
    pub next: NextAction,
}

/// The model of a [`StreamInput`].
pub enum StreamInputView {
    Opened,
    Data(Seq<char>),
    Decoded(Option<ChatChunkView>),
    Failed(Seq<char>),
    Closed,
    IdleTimeout,
}

/// The model of a [`NextAction`].
pub enum NextActionView {
    Poll,
    Decode(Seq<char>),
    Stop,
}

/// The model of a [`StreamStep`].
pub struct StreamStepView {
    pub events: Seq<ResponseEventView>,
    pub failure: Option<ApiErrorView>,
    pub next: NextActionView,
}

impl DeepView for StreamInput {
    type V = StreamInputView;

    open spec fn deep_view(&self) -> StreamInputView {
        match *self {
            StreamInput::Opened => StreamInputView::Opened,
            StreamInput::Data(data) => StreamInputView::Data(data@),
            StreamInput::Decoded(chunk) => StreamInputView::Decoded(chunk.deep_view()),
            StreamInput::Failed(message) => StreamInputView::Failed(message@),
            StreamInput::Closed => StreamInputView::Closed,
            StreamInput::IdleTimeout => StreamInputView::IdleTimeout,
        }
    }
}

impl DeepView for NextAction {
    type V = NextActionView;

    open spec fn deep_view(&self) -> NextActionView {
        match *self {
            NextAction::Poll => NextActionView::Poll,
            NextAction::Decode(data) => NextActionView::Decode(data@),
            NextAction::Stop => NextActionView::Stop,
        }
    }
}

impl DeepView for StreamStep {
    type V = StreamStepView;

    open spec fn deep_view(&self) -> StreamStepView {
        StreamStepView {
            events: self.events.deep_view(),
            failure: self.failure.deep_view(),
            next: self.next.deep_view(),
        }
    }
}

/// Whether the data of a server-sent event marks the end of the stream.
pub open spec fn is_done_marker(data: Seq<char>) -> bool {
    trimmed(data) == "[DONE]"@
}

/// A step that delivers events and goes on.
pub open spec fn go_on(events: Seq<ResponseEventView>) -> StreamStepView {
    StreamStepView { events, failure: None, next: NextActionView::Poll }
}

/// A step that delivers a failure and stops.
pub open spec fn give_up(message: Seq<char>) -> StreamStepView {
    StreamStepView {
        events: Seq::empty(),
        failure: Some(ApiErrorView::Stream(message)),
        next: NextActionView::Stop,
    }
}

/// The state after a step, and what the step asks of the driver.
pub open spec fn step(
    state: ChatCompletionStateView,
    input: StreamInputView,
) -> (ChatCompletionStateView, StreamStepView) {
    match input {
        StreamInputView::Opened => (state, go_on(seq![ResponseEventView::Created])),
        StreamInputView::Data(data) => if is_done_marker(data) {
            (
                state.finish().state,
                StreamStepView {
                    events: state.finish().events,
                    failure: None,
                    next: NextActionView::Stop,
                },
            )
        } else {
            (
                state,
                StreamStepView {
                    events: Seq::empty(),
                    failure: None,
                    next: NextActionView::Decode(data),
                },
            )
        },
        StreamInputView::Decoded(Some(chunk)) => (
            state.add_chunk(chunk).state,
            go_on(state.add_chunk(chunk).events),
        ),
        StreamInputView::Decoded(None) => (state, go_on(Seq::empty())),
        StreamInputView::Failed(message) => (state, give_up(message)),
        StreamInputView::Closed => (
            state,
            give_up("stream closed before chat completion finished"@),
        ),
        StreamInputView::IdleTimeout => (state, give_up("idle timeout waiting for SSE"@)),
    }
}

/// Gives up on the stream.
fn failed_step(message: String) -> (step: StreamStep)
    ensures
        step.deep_view() == give_up(message@),
{
    let step = StreamStep {
        events: Vec::new(),
        failure: Some(ApiError::Stream(message)),
        next: NextAction::Stop,
    };
    assert(step.events.deep_view() == Seq::<ResponseEventView>::empty());
    step
}

/// Takes the next step. While the stream goes on, no ids have been made up for tool calls.
pub fn process_chat_completions_sse(
    state: &mut ChatCompletionState,
    input: StreamInput,
) -> (taken: StreamStep)
    requires
        old(state).deep_view().fallback_id_counter == 0,
    ensures
        (final(state).deep_view(), taken.deep_view()) == step(
            old(state).deep_view(),
            input.deep_view(),
        ),
        taken.next !is Stop ==> final(state).deep_view().fallback_id_counter == 0,
{
    let mut events: Vec<ResponseEvent> = Vec::new();
    assert(events.deep_view() == Seq::<ResponseEventView>::empty());
    match input {
        StreamInput::Opened => {
            events.push(ResponseEvent::Created);
            assert(events.deep_view() == seq![ResponseEventView::Created]);
            StreamStep { events, failure: None, next: NextAction::Poll }
        },
        StreamInput::Data(data) => {
            if text_is(trim_text(data.as_str()), "[DONE]") {
                proof {
                    lemma_call_count(state);
                }
                let events = finish_chat_stream(state);
                StreamStep { events, failure: None, next: NextAction::Stop }
            } else {
                StreamStep { events, failure: None, next: NextAction::Decode(data) }
            }
        },
        StreamInput::Decoded(Some(chunk)) => {
            let ghost before = state.deep_view();
            let ghost model = chunk.deep_view();
            let events = handle_chat_chunk(state, chunk);
            proof {
                lemma_add_chunk_counter(before, model);
            }
            StreamStep { events, failure: None, next: NextAction::Poll }
        },
        StreamInput::Decoded(None) => {
            StreamStep { events, failure: None, next: NextAction::Poll }
        },
        StreamInput::Failed(message) => failed_step(message),
        StreamInput::Closed => {
            failed_step("stream closed before chat completion finished".to_string())
        },
        StreamInput::IdleTimeout => failed_step("idle timeout waiting for SSE".to_string()),
    }
}

} // verus!
