//! From the chunks of a chat completion stream to response events.

use crate::protocol::{
    ContentItem, ContentItemView, ResponseEvent, ResponseEventView,
    ResponseItem, ResponseItemView, TokenUsage,
};
use crate::text::{decimal, decimal_text, with_suffix};
use std::collections::BTreeMap;
use vstd::prelude::*;

verus! {

broadcast use {vstd::std_specs::btree::group_btree_axioms, vstd::laws_cmp::group_laws_cmp};

/// A chunk of a stream.
#[derive(Debug, PartialEq, Eq)]
pub struct ChatChunk {
    pub id: Option<String>,
    pub choices: Option<Vec<ChatChoice>>,
    pub usage: Option<ChatUsage>,
}

/// One alternative of a chunk.
#[derive(Debug, PartialEq, Eq)]
pub struct ChatChoice {
    pub delta: ChatDelta,
}

/// What a chunk adds to the response.
#[derive(Debug, PartialEq, Eq)]
pub struct ChatDelta {
    pub content: Option<String>,
    pub reasoning_content: Option<String>,
    pub tool_calls: Option<Vec<ChatDeltaToolCall>>,
}

/// What a chunk adds to the tool call with an index.
#[derive(Debug, PartialEq, Eq)]
pub struct ChatDeltaToolCall {
    pub index: usize,
    pub id: Option<String>,
    pub function: Option<ChatDeltaFunctionCall>,
}

/// What a chunk adds to the function of a tool call.
#[derive(Debug, PartialEq, Eq)]
pub struct ChatDeltaFunctionCall {
    pub name: Option<String>,
    pub arguments: Option<String>,
}

/// How many tokens the response took, as the endpoint counts them.
#[derive(Debug, Clone, Copy, PartialEq, Eq, Structural)]
pub struct ChatUsage {
    pub prompt_tokens: i64,
    pub completion_tokens: i64,
    pub total_tokens: i64,
    pub prompt_tokens_details: Option<ChatPromptTokensDetails>,
    pub completion_tokens_details: Option<ChatCompletionTokensDetails>,
}

/// How many of the prompt's tokens came out of a cache.
#[derive(Debug, Clone, Copy, PartialEq, Eq, Structural)]
pub struct ChatPromptTokensDetails {
    pub cached_tokens: Option<i64>,
}

/// How many of the completion's tokens went into reasoning.
#[derive(Debug, Clone, Copy, PartialEq, Eq, Structural)]
pub struct ChatCompletionTokensDetails {
    pub reasoning_tokens: Option<i64>,
}

/// The model of a [`ChatChunk`].
pub struct ChatChunkView {
    pub id: Option<Seq<char>>,
    pub choices: Option<Seq<ChatChoiceView>>,
    pub usage: Option<ChatUsage>,
}

/// The model of a [`ChatChoice`].
pub struct ChatChoiceView {
    pub delta: ChatDeltaView,
}

/// The model of a [`ChatDelta`].
pub struct ChatDeltaView {
    pub content: Option<Seq<char>>,
    pub reasoning_content: Option<Seq<char>>,
    pub tool_calls: Option<Seq<ChatDeltaToolCallView>>,
}

/// The model of a [`ChatDeltaToolCall`].
pub struct ChatDeltaToolCallView {
    pub index: usize,
    pub id: Option<Seq<char>>,
    pub function: Option<ChatDeltaFunctionCallView>,
}

/// The model of a [`ChatDeltaFunctionCall`].
pub struct ChatDeltaFunctionCallView {
    pub name: Option<Seq<char>>,
    pub arguments: Option<Seq<char>>,
}

impl DeepView for ChatChunk {
    type V = ChatChunkView;

    open spec fn deep_view(&self) -> ChatChunkView {
        ChatChunkView {
            id: self.id.deep_view(),
            choices: self.choices.deep_view(),
            usage: self.usage,
        }
    }
}

impl DeepView for ChatChoice {
    type V = ChatChoiceView;

    open spec fn deep_view(&self) -> ChatChoiceView {
        ChatChoiceView { delta: self.delta.deep_view() }
    }
}

impl DeepView for ChatDelta {
    type V = ChatDeltaView;

    open spec fn deep_view(&self) -> ChatDeltaView {
        ChatDeltaView {
            content: self.content.deep_view(),
            reasoning_content: self.reasoning_content.deep_view(),
            tool_calls: self.tool_calls.deep_view(),
        }
    }
}

impl DeepView for ChatDeltaToolCall {
    type V = ChatDeltaToolCallView;

    open spec fn deep_view(&self) -> ChatDeltaToolCallView {
        ChatDeltaToolCallView {
            index: self.index,
            id: self.id.deep_view(),
            function: self.function.deep_view(),
        }
    }
}

impl DeepView for ChatDeltaFunctionCall {
    type V = ChatDeltaFunctionCallView;

    open spec fn deep_view(&self) -> ChatDeltaFunctionCallView {
        ChatDeltaFunctionCallView {
            name: self.name.deep_view(),
            arguments: self.arguments.deep_view(),
        }
    }
}

/// The usage in the counts that responses report. A count that the endpoint does not give is
/// zero.
pub open spec fn token_usage(usage: ChatUsage) -> TokenUsage {
    TokenUsage {
        input_tokens: usage.prompt_tokens,
        cached_input_tokens: match usage.prompt_tokens_details {
            Some(ChatPromptTokensDetails { cached_tokens: Some(count) }) => count,
            _ => 0,
        },
        output_tokens: usage.completion_tokens,
        reasoning_output_tokens: match usage.completion_tokens_details {
            Some(ChatCompletionTokensDetails { reasoning_tokens: Some(count) }) => count,
            _ => 0,
        },
        total_tokens: usage.total_tokens,
    }
}

impl vstd::std_specs::convert::FromSpecImpl<ChatUsage> for TokenUsage {
    open spec fn obeys_from_spec() -> bool {
        true
    }

    open spec fn from_spec(value: ChatUsage) -> Self {
        token_usage(value)
    }
}

impl From<ChatUsage> for TokenUsage {
    fn from(value: ChatUsage) -> (usage: Self) {
        TokenUsage {
            input_tokens: value.prompt_tokens,
            cached_input_tokens: match value.prompt_tokens_details {
                Some(ChatPromptTokensDetails { cached_tokens: Some(count) }) => count,
                _ => 0,
            },
            output_tokens: value.completion_tokens,
            reasoning_output_tokens: match value.completion_tokens_details {
                Some(ChatCompletionTokensDetails { reasoning_tokens: Some(count) }) => count,
                _ => 0,
            },
            total_tokens: value.total_tokens,
        }
    }
}

/// What the stream has said so far.
#[derive(Debug)]
pub struct ChatCompletionState {
    response_id: Option<String>,
    fallback_id_counter: usize,
    assistant_item_id: Option<String>,
    assistant_text: String,
    reasoning_content: String,
    tool_calls: BTreeMap<usize, ToolCallState>,
    usage: Option<TokenUsage>,
}

/// What the stream has said so far about a tool call.
#[derive(Debug)]
struct ToolCallState {
    id: Option<String>,
    name: Option<String>,
    arguments: String,
}

/// The model of a [`ChatCompletionState`].
pub struct ChatCompletionStateView {
    /// The id of the response: the first id that a chunk gave.
    pub response_id: Option<Seq<char>>,
    /// How many ids were made up for tool calls without one.
    pub fallback_id_counter: nat,
    /// The id of the message item, once it has been started.
    pub assistant_item_id: Option<Seq<char>>,
    /// The text of the message so far.
    pub assistant_text: Seq<char>,
    /// The reasoning so far.
    pub reasoning_content: Seq<char>,
    /// The tool calls so far, by index.
    pub tool_calls: Map<usize, ToolCallView>,
    /// The usage that was reported last.
    pub usage: Option<TokenUsage>,
}

/// A tool call as far as it is known.
pub struct ToolCallView {
    pub id: Option<Seq<char>>,
    pub name: Option<Seq<char>>,
    pub arguments: Seq<char>,
}

impl DeepView for ToolCallState {
    type V = ToolCallView;

    closed spec fn deep_view(&self) -> ToolCallView {
        ToolCallView {
            id: self.id.deep_view(),
            name: self.name.deep_view(),
            arguments: self.arguments@,
        }
    }
}

impl DeepView for ChatCompletionState {
    type V = ChatCompletionStateView;

    closed spec fn deep_view(&self) -> ChatCompletionStateView {
        ChatCompletionStateView {
            response_id: self.response_id.deep_view(),
            fallback_id_counter: self.fallback_id_counter as nat,
            assistant_item_id: self.assistant_item_id.deep_view(),
            assistant_text: self.assistant_text@,
            reasoning_content: self.reasoning_content@,
            tool_calls: self.tool_calls@.map_values(|call: ToolCallState| call.deep_view()),
            usage: self.usage,
        }
    }
}

/// A new state and the events on the way to it.
pub struct Progress {
    pub state: ChatCompletionStateView,
    pub events: Seq<ResponseEventView>,
}

/// The values of an optional list; none where there is no list.
pub open spec fn list_or_empty<T>(list: Option<Seq<T>>) -> Seq<T> {
    match list {
        Some(values) => values,
        None => Seq::empty(),
    }
}

/// The first of two optional values that is there.
pub open spec fn first_of<T>(preferred: Option<T>, fallback: Option<T>) -> Option<T> {
    if preferred is Some {
        preferred
    } else {
        fallback
    }
}

/// The id that a tool call goes by where the endpoint gave it none.
pub open spec fn made_up_call_id(number: nat) -> Seq<char> {
    "chat_tool_call_"@ + decimal(number)
}

/// A message item of the assistant.
pub open spec fn assistant_item(
    id: Option<Seq<char>>,
    content: Seq<ContentItemView>,
    reasoning: Option<Seq<char>>,
) -> ResponseItemView {
    ResponseItemView::Message {
        id,
        role: "assistant"@,
        content,
        phase: None,
        reasoning_content: reasoning,
    }
}

impl ChatCompletionStateView {
    /// The state in which a stream starts.
    pub open spec fn initial() -> ChatCompletionStateView {
        ChatCompletionStateView {
            response_id: None,
            fallback_id_counter: 0,
            assistant_item_id: None,
            assistant_text: Seq::empty(),
            reasoning_content: Seq::empty(),
            tool_calls: Map::empty(),
            usage: None,
        }
    }

    /// The id of the message item: made from the id of the response when the item starts, and
    /// kept from then on.
    pub open spec fn item_id(self) -> Seq<char> {
        match self.assistant_item_id {
            Some(id) => id,
            None => match self.response_id {
                Some(id) => id + "_message"@,
                None => "chat_completion_response"@ + "_message"@,
            },
        }
    }

    /// The reasoning, where there is any.
    pub open spec fn reasoning(self) -> Option<Seq<char>> {
        if self.reasoning_content.len() == 0 {
            None
        } else {
            Some(self.reasoning_content)
        }
    }

    /// Starts the message item, unless it has been started.
    pub open spec fn start_item(self) -> Progress {
        Progress {
            state: ChatCompletionStateView { assistant_item_id: Some(self.item_id()), ..self },
            events: if self.assistant_item_id is Some {
                Seq::empty()
            } else {
                seq![
                    ResponseEventView::OutputItemAdded(
                        assistant_item(Some(self.item_id()), Seq::empty(), None),
                    ),
                ]
            },
        }
    }

    /// Takes up a piece of the message's text.
    pub open spec fn add_content(self, content: Option<Seq<char>>) -> Progress {
        match content {
            Some(text) if text.len() > 0 => {
                let started = self.start_item();
                Progress {
                    state: ChatCompletionStateView {
                        assistant_text: self.assistant_text + text,
                        ..started.state
                    },
                    events: started.events.push(ResponseEventView::OutputTextDelta(text)),
                }
            },
            _ => Progress { state: self, events: Seq::empty() },
        }
    }

    /// What is known of the tool call with an index.
    pub open spec fn tool_call(self, index: usize) -> ToolCallView {
        if self.tool_calls.contains_key(index) {
            self.tool_calls[index]
        } else {
            ToolCallView { id: None, name: None, arguments: Seq::empty() }
        }
    }

    /// Takes up a piece of a tool call. An id or a name replaces the one before it; arguments
    /// are added to those before them, and are passed on as they come.
    pub open spec fn add_tool_call(self, piece: ChatDeltaToolCallView) -> Progress {
        let known = self.tool_call(piece.index);
        let id = first_of(piece.id, known.id);
        let (name, arguments) = match piece.function {
            Some(function) => (
                first_of(function.name, known.name),
                list_or_empty(function.arguments),
            ),
            None => (known.name, Seq::empty()),
        };
        Progress {
            state: ChatCompletionStateView {
                tool_calls: self.tool_calls.insert(
                    piece.index,
                    ToolCallView { id, name, arguments: known.arguments + arguments },
                ),
                ..self
            },
            events: if arguments.len() == 0 {
                Seq::empty()
            } else {
                seq![
                    ResponseEventView::ToolCallInputDelta {
                        item_id: match id {
                            Some(id) => id,
                            None => made_up_call_id(piece.index as nat),
                        },
                        call_id: id,
                        delta: arguments,
                    },
                ]
            },
        }
    }

    /// Takes up pieces of tool calls, one after the other.
    pub open spec fn add_tool_calls(self, pieces: Seq<ChatDeltaToolCallView>) -> Progress
        decreases pieces.len(),
    {
        if pieces.len() == 0 {
            Progress { state: self, events: Seq::empty() }
        } else {
            let earlier = self.add_tool_calls(pieces.drop_last());
            let last = earlier.state.add_tool_call(pieces.last());
            Progress { state: last.state, events: earlier.events + last.events }
        }
    }

    /// Takes up a piece of the reasoning.
    pub open spec fn add_reasoning(self, reasoning: Option<Seq<char>>) -> Self {
        ChatCompletionStateView {
            reasoning_content: self.reasoning_content + list_or_empty(reasoning),
            ..self
        }
    }

    /// Takes up a delta: its reasoning, then its text, then its pieces of tool calls.
    pub open spec fn add_delta(self, delta: ChatDeltaView) -> Progress {
        let spoken = self.add_reasoning(delta.reasoning_content).add_content(delta.content);
        let called = spoken.state.add_tool_calls(list_or_empty(delta.tool_calls));
        Progress { state: called.state, events: spoken.events + called.events }
    }
}

/// The tool calls with the index `i` or a higher one, in the order of their indexes.
pub open spec fn calls_from(calls: Map<usize, ToolCallView>, i: int) -> Seq<ToolCallView>
    decreases usize::MAX - i + 1,
{
    if i < 0 || i > usize::MAX {
        Seq::empty()
    } else if calls.contains_key(i as usize) {
        seq![calls[i as usize]] + calls_from(calls, i + 1)
    } else {
        calls_from(calls, i + 1)
    }
}

/// The finished item of a tool call.
pub open spec fn call_item(
    name: Seq<char>,
    arguments: Seq<char>,
    call_id: Seq<char>,
    reasoning: Option<Seq<char>>,
) -> ResponseItemView {
    ResponseItemView::FunctionCall {
        id: None,
        name,
        namespace: None,
        arguments,
        call_id,
        reasoning_content: reasoning,
    }
}

/// Finishes tool calls, one after the other: the events, and how many ids have been made up by
/// then. A call without a name is dropped; one without an id is given the next made-up id.
pub open spec fn finish_calls(
    made_up: nat,
    calls: Seq<ToolCallView>,
    reasoning: Option<Seq<char>>,
) -> (nat, Seq<ResponseEventView>)
    decreases calls.len(),
{
    if calls.len() == 0 {
        (made_up, Seq::empty())
    } else {
        let (count, events) = finish_calls(made_up, calls.drop_last(), reasoning);
        let call = calls.last();
        match (call.name, call.id) {
            (None, _) => (count, events),
            (Some(name), Some(id)) => (
                count,
                events.push(
                    ResponseEventView::OutputItemDone(
                        call_item(name, call.arguments, id, reasoning),
                    ),
                ),
            ),
            (Some(name), None) => (
                count + 1,
                events.push(
                    ResponseEventView::OutputItemDone(
                        call_item(name, call.arguments, made_up_call_id(count + 1), reasoning),
                    ),
                ),
            ),
        }
    }
}

impl ChatCompletionStateView {
    /// Takes up the alternatives of a chunk, one after the other.
    pub open spec fn add_choices(self, choices: Seq<ChatChoiceView>) -> Progress
        decreases choices.len(),
    {
        if choices.len() == 0 {
            Progress { state: self, events: Seq::empty() }
        } else {
            let earlier = self.add_choices(choices.drop_last());
            let last = earlier.state.add_delta(choices.last().delta);
            Progress { state: last.state, events: earlier.events + last.events }
        }
    }

    /// Takes up the id and the usage of a chunk. The first id stays, the last usage counts.
    pub open spec fn note(self, chunk: ChatChunkView) -> Self {
        ChatCompletionStateView {
            response_id: first_of(self.response_id, chunk.id),
            usage: match chunk.usage {
                Some(usage) => Some(token_usage(usage)),
                None => self.usage,
            },
            ..self
        }
    }

    /// Takes up a chunk: its id and usage, then its alternatives.
    pub open spec fn add_chunk(self, chunk: ChatChunkView) -> Progress {
        self.note(chunk).add_choices(list_or_empty(chunk.choices))
    }

    /// The event that finishes the message, where there is a text.
    pub open spec fn finish_message(self) -> Seq<ResponseEventView> {
        if self.assistant_text.len() == 0 {
            Seq::empty()
        } else {
            seq![
                ResponseEventView::OutputItemDone(
                    assistant_item(
                        self.assistant_item_id,
                        seq![ContentItemView::OutputText { text: self.assistant_text }],
                        self.reasoning(),
                    ),
                ),
            ]
        }
    }

    /// Finishes the response: the message, then the tool calls in the order of their indexes,
    /// then the response itself.
    pub open spec fn finish(self) -> Progress {
        let (made_up, calls) = finish_calls(
            self.fallback_id_counter,
            calls_from(self.tool_calls, 0),
            self.reasoning(),
        );
        Progress {
            state: ChatCompletionStateView {
                fallback_id_counter: made_up,
                assistant_text: Seq::empty(),
                tool_calls: Map::empty(),
                usage: None,
                ..self
            },
            events: self.finish_message() + calls + seq![
                ResponseEventView::Completed {
                    response_id: match self.response_id {
                        Some(id) => id,
                        None => "chatcmpl_unknown"@,
                    },
                    token_usage: self.usage,
                    end_turn: None,
                },
            ],
        }
    }
}

impl Default for ChatCompletionState {
    fn default() -> (state: Self)
        ensures
            state.deep_view() == ChatCompletionStateView::initial(),
    {
        let state = ChatCompletionState {
            response_id: None,
            fallback_id_counter: 0,
            assistant_item_id: None,
            assistant_text: String::new(),
            reasoning_content: String::new(),
            tool_calls: BTreeMap::new(),
            usage: None,
        };
        assert(state.deep_view().tool_calls == ChatCompletionStateView::initial().tool_calls);
        state
    }
}

/// Starts the message item, unless it has been started.
pub fn ensure_assistant_item_started(state: &mut ChatCompletionState) -> (events: Vec<
    ResponseEvent,
>)
    ensures
        final(state).deep_view() == old(state).deep_view().start_item().state,
        events.deep_view() == old(state).deep_view().start_item().events,
{
    let mut events: Vec<ResponseEvent> = Vec::new();
    if state.assistant_item_id.is_some() {
        return events;
    }
    let item_id = match &state.response_id {
        Some(id) => with_suffix(id.as_str(), "_message"),
        None => with_suffix("chat_completion_response", "_message"),
    };
    let ghost added = assistant_item(Some(item_id@), Seq::empty(), None);
    state.assistant_item_id = Some(item_id.clone());
    events.push(
        ResponseEvent::OutputItemAdded(
            ResponseItem::Message {
                id: Some(item_id),
                role: "assistant".to_string(),
                content: Vec::new(),
                phase: None,
                reasoning_content: None,
            },
        ),
    );
    assert(events@[0]->OutputItemAdded_0.deep_view()->Message_content == Seq::<
        ContentItemView,
    >::empty());
    events
}

/// Takes up a piece of a tool call.
pub fn handle_tool_call_delta(
    state: &mut ChatCompletionState,
    tool_call: ChatDeltaToolCall,
) -> (events: Vec<ResponseEvent>)
    ensures
        final(state).deep_view() == old(state).deep_view().add_tool_call(
            tool_call.deep_view(),
        ).state,
        events.deep_view() == old(state).deep_view().add_tool_call(tool_call.deep_view()).events,
{
    let ghost before = state.deep_view();
    let ghost piece = tool_call.deep_view();
    let mut events: Vec<ResponseEvent> = Vec::new();
    let index = tool_call.index;
    let mut call = match state.tool_calls.remove(&index) {
        Some(call) => call,
        None => ToolCallState { id: None, name: None, arguments: String::new() },
    };
    assert(call.deep_view() == before.tool_call(index));
    if let Some(id) = tool_call.id {
        call.id = Some(id);
    }
    if let Some(function) = tool_call.function {
        if let Some(name) = function.name {
            call.name = Some(name);
        }
        if let Some(arguments) = function.arguments {
            if !arguments.as_str().is_empty() {
                call.arguments.append(arguments.as_str());
                let item_id = match &call.id {
                    Some(id) => id.clone(),
                    None => with_suffix("chat_tool_call_", decimal_text(index).as_str()),
                };
                events.push(
                    ResponseEvent::ToolCallInputDelta {
                        item_id,
                        call_id: call.id.clone(),
                        delta: arguments,
                    },
                );
            }
        }
    }
    let ghost updated = call.deep_view();
    state.tool_calls.insert(index, call);
    proof {
        let expected = before.add_tool_call(piece);
        assert(updated.arguments == expected.state.tool_calls[index].arguments);
        assert(state.deep_view().tool_calls == expected.state.tool_calls);
        assert(events.deep_view() == expected.events);
    }
    events
}

/// Takes up a delta and tells what it adds to the response.
pub fn handle_chat_delta(state: &mut ChatCompletionState, delta: ChatDelta) -> (events: Vec<
    ResponseEvent,
>)
    ensures
        final(state).deep_view() == old(state).deep_view().add_delta(delta.deep_view()).state,
        events.deep_view() == old(state).deep_view().add_delta(delta.deep_view()).events,
{
    let ghost model = delta.deep_view();
    let ghost before = state.deep_view();
    let mut events: Vec<ResponseEvent> = Vec::new();
    if let Some(reasoning_content) = delta.reasoning_content {
        state.reasoning_content.append(reasoning_content.as_str());
    }
    let ghost reasoned = before.add_reasoning(model.reasoning_content);
    assert(state.deep_view() == reasoned);
    if let Some(content) = delta.content {
        if !content.as_str().is_empty() {
            let mut started = ensure_assistant_item_started(state);
            state.assistant_text.append(content.as_str());
            let ghost earlier = started.deep_view();
            let ghost text = content@;
            events.append(&mut started);
            events.push(ResponseEvent::OutputTextDelta(content));
            assert(events.deep_view() == earlier.push(ResponseEventView::OutputTextDelta(text)));
        }
    }
    let ghost spoken = reasoned.add_content(model.content);
    assert(state.deep_view() == spoken.state);
    assert(events.deep_view() == spoken.events);
    match delta.tool_calls {
        None => {
            assert(spoken.events + Seq::<ResponseEventView>::empty() == spoken.events);
        },
        Some(tool_calls) => {
            let ghost items = tool_calls@;
            let ghost pieces = tool_calls.deep_view();
            assert(events.deep_view() == spoken.events + spoken.state.add_tool_calls(
                pieces.take(0),
            ).events);
            for tool_call in iter: tool_calls
                invariant
                    iter.seq() == items,
                    pieces.len() == items.len(),
                    forall|i: int| 0 <= i < items.len() ==> pieces[i] == items[i].deep_view(),
                    state.deep_view() == spoken.state.add_tool_calls(
                        pieces.take(iter.index() as int),
                    ).state,
                    events.deep_view() == spoken.events + spoken.state.add_tool_calls(
                        pieces.take(iter.index() as int),
                    ).events,
            {
                let ghost earlier = events.deep_view();
                let ghost taken = iter.index() as int;
                proof {
                    assert(tool_call.deep_view() == pieces[taken]);
                    assert(pieces.take(taken + 1).drop_last() == pieces.take(taken));
                }
                let mut added = handle_tool_call_delta(state, tool_call);
                let ghost more = added.deep_view();
                events.append(&mut added);
                assert(events.deep_view() == earlier + more);
            }
            assert(pieces.take(pieces.len() as int) == pieces);
        },
    }
    events
}

/// Takes up a chunk and tells what it adds to the response.
pub fn handle_chat_chunk(state: &mut ChatCompletionState, chunk: ChatChunk) -> (events: Vec<
    ResponseEvent,
>)
    ensures
        final(state).deep_view() == old(state).deep_view().add_chunk(chunk.deep_view()).state,
        events.deep_view() == old(state).deep_view().add_chunk(chunk.deep_view()).events,
{
    let mut events: Vec<ResponseEvent> = Vec::new();
    if state.response_id.is_none() {
        state.response_id = chunk.id;
    }
    if let Some(usage) = chunk.usage {
        state.usage = Some(TokenUsage::from(usage));
    }
    if let Some(choices) = chunk.choices {
        let ghost noted = state.deep_view();
        let ghost items = choices@;
        let ghost models = choices.deep_view();
        assert(models.take(0) == Seq::<ChatChoiceView>::empty());
        for choice in iter: choices
            invariant
                iter.seq() == items,
                models.len() == items.len(),
                forall|i: int| 0 <= i < items.len() ==> models[i] == items[i].deep_view(),
                state.deep_view() == noted.add_choices(models.take(iter.index() as int)).state,
                events.deep_view() == noted.add_choices(models.take(iter.index() as int)).events,
        {
            let ghost earlier = events.deep_view();
            let ghost taken = iter.index() as int;
            proof {
                assert(choice.deep_view() == models[taken]);
                assert(models.take(taken + 1).drop_last() == models.take(taken));
            }
            let mut added = handle_chat_delta(state, choice.delta);
            let ghost more = added.deep_view();
            events.append(&mut added);
            assert(events.deep_view() == earlier + more);
        }
        assert(models.take(models.len() as int) == models);
    }
    events
}

/// There are at most as many tool calls as there are indexes.
pub proof fn lemma_call_count(state: &ChatCompletionState)
    ensures
        state.deep_view().tool_calls.len() <= usize::MAX,
{
    assert(vstd::laws_cmp::obeys_cmp::<usize>());
    assert(state.deep_view().tool_calls.dom() == state.tool_calls@.dom());
    assert(vstd::std_specs::btree::spec_btree_map_len(&state.tool_calls) == state.tool_calls@.len());
}

/// Pieces of tool calls leave all but the tool calls as it was.
pub proof fn lemma_add_tool_calls(
    state: ChatCompletionStateView,
    pieces: Seq<ChatDeltaToolCallView>,
)
    ensures
        state.add_tool_calls(pieces).state == (ChatCompletionStateView {
            tool_calls: state.add_tool_calls(pieces).state.tool_calls,
            ..state
        }),
    decreases pieces.len(),
{
    if pieces.len() > 0 {
        lemma_add_tool_calls(state, pieces.drop_last());
    }
}

/// No ids are made up while deltas are taken up.
pub proof fn lemma_add_choices_counter(
    state: ChatCompletionStateView,
    choices: Seq<ChatChoiceView>,
)
    ensures
        state.add_choices(choices).state.fallback_id_counter == state.fallback_id_counter,
    decreases choices.len(),
{
    if choices.len() > 0 {
        lemma_add_choices_counter(state, choices.drop_last());
        let delta = choices.last().delta;
        let reasoned = state.add_choices(choices.drop_last()).state.add_reasoning(
            delta.reasoning_content,
        );
        lemma_add_tool_calls(
            reasoned.add_content(delta.content).state,
            list_or_empty(delta.tool_calls),
        );
    }
}

/// No ids are made up while chunks are taken up.
pub proof fn lemma_add_chunk_counter(state: ChatCompletionStateView, chunk: ChatChunkView)
    ensures
        state.add_chunk(chunk).state.fallback_id_counter == state.fallback_id_counter,
{
    lemma_add_choices_counter(state.note(chunk), list_or_empty(chunk.choices));
}

/// The reasoning, where there is any.
pub fn non_empty_reasoning_content(state: &ChatCompletionState) -> (reasoning: Option<String>)
    ensures
        reasoning.deep_view() == state.deep_view().reasoning(),
{
    if state.reasoning_content.as_str().is_empty() {
        None
    } else {
        Some(state.reasoning_content.clone())
    }
}

/// Where no call has an index from `lo` up to `hi`, the calls from `lo` on are those from `hi`
/// on.
proof fn lemma_no_calls_between(calls: Map<usize, ToolCallView>, lo: int, hi: int)
    requires
        0 <= lo <= hi <= usize::MAX + 1,
        forall|i: usize| lo <= i < hi ==> !calls.contains_key(i),
    ensures
        calls_from(calls, lo) == calls_from(calls, hi),
    decreases hi - lo,
{
    if lo < hi {
        assert(!calls.contains_key(lo as usize));
        lemma_no_calls_between(calls, lo + 1, hi);
    }
}

/// Strictly increasing indexes that are all the indexes from `lo` on: the calls from `lo` on are
/// the calls with those indexes.
proof fn lemma_calls_in_order(calls: Map<usize, ToolCallView>, indexes: Seq<usize>, lo: int)
    requires
        0 <= lo <= usize::MAX + 1,
        forall|i: int, j: int| 0 <= i < j < indexes.len() ==> indexes[i] < indexes[j],
        forall|i: int| 0 <= i < indexes.len() ==> lo <= #[trigger] indexes[i],
        forall|index: usize|
            lo <= index ==> (#[trigger] calls.contains_key(index) <==> indexes.contains(index)),
    ensures
        calls_from(calls, lo) == indexes.map_values(|index: usize| calls[index]),
    decreases indexes.len(),
{
    if indexes.len() == 0 {
        lemma_no_calls_between(calls, lo, usize::MAX + 1);
    } else {
        let first = indexes[0];
        let rest = indexes.drop_first();
        assert(indexes.contains(first));
        lemma_no_calls_between(calls, lo, first as int);
        assert forall|index: usize| first + 1 <= index implies (#[trigger] calls.contains_key(index)
            <==> rest.contains(index)) by {
            if indexes.contains(index) {
                let at = indexes.index_of(index);
                assert(rest[at - 1] == index);
            }
            if rest.contains(index) {
                let at = rest.index_of(index);
                assert(indexes[at + 1] == index);
            }
        }
        lemma_calls_in_order(calls, rest, first + 1);
    }
}

/// The tool calls in the order of their indexes.
fn calls_in_order<'a>(tool_calls: &'a BTreeMap<usize, ToolCallState>) -> (ordered: Vec<
    &'a ToolCallState,
>)
    ensures
        ordered.deep_view() == calls_from(
            tool_calls@.map_values(|call: ToolCallState| call.deep_view()),
            0,
        ),
        ordered.len() == tool_calls@.len(),
{
    let ghost calls = tool_calls@.map_values(|call: ToolCallState| call.deep_view());
    let entries = tool_calls.iter();
    let ghost found = vstd::std_specs::iter::IteratorSpec::remaining(&entries);
    let ghost indexes = found.map_values(|entry: (&usize, &ToolCallState)| *entry.0);
    proof {
        assert(vstd::laws_cmp::obeys_cmp::<usize>());
        assert(vstd::std_specs::btree::increasing_seq(indexes));
        assert forall|i: int, j: int| 0 <= i < j < indexes.len() implies indexes[i] < indexes[j] by {
            assert(vstd::std_specs::cmp::OrdSpec::cmp_spec(&indexes[i], &indexes[j]) is Less);
        }
        assert forall|index: usize| #[trigger] calls.contains_key(index) <==> indexes.contains(
            index,
        ) by {
            if calls.contains_key(index) {
                assert(tool_calls@.contains_key(index));
                let at = found.index_of((&index, &tool_calls@[index]));
                assert(indexes[at] == index);
            }
            if indexes.contains(index) {
                let at = indexes.index_of(index);
                assert(tool_calls@.contains_key(*found[at].0));
            }
        }
        lemma_calls_in_order(calls, indexes, 0);
    }
    let mut ordered: Vec<&'a ToolCallState> = Vec::new();
    for entry in iter: entries
        invariant
            iter.seq() == found,
            ordered.len() == iter.index(),
            forall|i: int| 0 <= i < ordered.len() ==> ordered[i] == found[i].1,
    {
        ordered.push(entry.1);
    }
    proof {
        assert forall|i: int| 0 <= i < found.len() implies calls[indexes[i]]
            == found[i].1.deep_view() by {
            assert(tool_calls@.contains_key(*found[i].0));
        }
        assert(ordered.deep_view() == indexes.map_values(|index: usize| calls[index]));
    }
    ordered
}

/// Finishes the response and tells what its items have become.
pub fn finish_chat_stream(state: &mut ChatCompletionState) -> (events: Vec<ResponseEvent>)
    requires
        old(state).deep_view().fallback_id_counter + old(state).deep_view().tool_calls.len()
            <= usize::MAX,
    ensures
        final(state).deep_view() == old(state).deep_view().finish().state,
        events.deep_view() == old(state).deep_view().finish().events,
{
    let ghost before = state.deep_view();
    let mut events: Vec<ResponseEvent> = Vec::new();
    if !state.assistant_text.as_str().is_empty() {
        let mut text = String::new();
        std::mem::swap(&mut text, &mut state.assistant_text);
        let mut content: Vec<ContentItem> = Vec::new();
        content.push(ContentItem::OutputText { text });
        assert(content.deep_view() == seq![
            ContentItemView::OutputText { text: before.assistant_text },
        ]);
        events.push(
            ResponseEvent::OutputItemDone(
                ResponseItem::Message {
                    id: state.assistant_item_id.clone(),
                    role: "assistant".to_string(),
                    content,
                    phase: None,
                    reasoning_content: non_empty_reasoning_content(state),
                },
            ),
        );
    }
    assert(events.deep_view() == before.finish_message());
    let mut tool_calls: BTreeMap<usize, ToolCallState> = BTreeMap::new();
    std::mem::swap(&mut tool_calls, &mut state.tool_calls);
    let ordered = calls_in_order(&tool_calls);
    let ghost calls = ordered.deep_view();
    let ghost reasoning = before.reasoning();
    let ghost message = events.deep_view();
    proof {
        assert(before.tool_calls.dom() == tool_calls@.dom());
        assert(state.deep_view().tool_calls == Map::<usize, ToolCallView>::empty());
        assert(state.deep_view().assistant_text == Seq::<char>::empty());
    }
    let mut next: usize = 0;
    while next < ordered.len()
        invariant
            next <= ordered.len(),
            calls == ordered.deep_view(),
            before.fallback_id_counter + calls.len() <= usize::MAX,
            state.fallback_id_counter <= before.fallback_id_counter + next,
            state.fallback_id_counter == finish_calls(
                before.fallback_id_counter,
                calls.take(next as int),
                reasoning,
            ).0,
            events.deep_view() == message + finish_calls(
                before.fallback_id_counter,
                calls.take(next as int),
                reasoning,
            ).1,
            reasoning == before.reasoning(),
            state.deep_view() == (ChatCompletionStateView {
                fallback_id_counter: state.fallback_id_counter as nat,
                assistant_text: Seq::empty(),
                tool_calls: Map::empty(),
                ..before
            }),
        decreases ordered.len() - next,
    {
        let ghost earlier = events.deep_view();
        let call = ordered[next];
        assert(calls.take(next + 1).drop_last() == calls.take(next as int));
        assert(calls[next as int] == call.deep_view());
        if let Some(name) = &call.name {
            let call_id = match &call.id {
                Some(id) => id.clone(),
                None => {
                    state.fallback_id_counter = state.fallback_id_counter + 1;
                    with_suffix(
                        "chat_tool_call_",
                        decimal_text(state.fallback_id_counter).as_str(),
                    )
                },
            };
            events.push(
                ResponseEvent::OutputItemDone(
                    ResponseItem::FunctionCall {
                        id: None,
                        name: name.clone(),
                        namespace: None,
                        arguments: call.arguments.clone(),
                        call_id,
                        reasoning_content: non_empty_reasoning_content(state),
                    },
                ),
            );
            assert(events.deep_view() == earlier.push(events@.last().deep_view()));
        }
        next += 1;
    }
    assert(calls.take(calls.len() as int) == calls);
    let response_id = match &state.response_id {
        Some(id) => id.clone(),
        None => "chatcmpl_unknown".to_string(),
    };
    let ghost earlier = events.deep_view();
    events.push(
        ResponseEvent::Completed { response_id, token_usage: state.usage.take(), end_turn: None },
    );
    assert(events.deep_view() == earlier.push(events@.last().deep_view()));
    assert(events.deep_view() == before.finish().events);
    events
}

} // verus!
