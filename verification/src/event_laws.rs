//! What each piece of a stream does to the state of a response, and which events it gives rise to.

use crate::protocol::{
    ApiErrorView, ContentItemView, ResponseEventView, ResponseItemView, TokenUsage,
};
use crate::session::{step, NextActionView, StreamInputView, StreamStepView};
use crate::stream::{
    calls_from, finish_calls, first_of, list_or_empty, made_up_call_id, token_usage,
    ChatChoiceView, ChatChunkView, ChatCompletionStateView, ChatCompletionTokensDetails,
    ChatDeltaToolCallView, ChatDeltaView, ChatPromptTokensDetails, ChatUsage, ToolCallView,
};
use crate::stream_laws::{
    add_chunks, calls_told, deltas_in, deltas_of, last_call_id, last_usage, lemma_choices_told,
    lemma_not_mentioned, lemma_pieces_told, law_what_a_stream_says, mentioned, pieces_in, told,
};
use crate::text::decimal;
use crate::text_laws::{law_done_marker, marks_the_end};
use vstd::prelude::*;

verus! {

/// A list that is given is taken as it is, and one that is not given is empty; of two values the
/// first that is given is taken.
pub proof fn law_optional_values<T>(list: Seq<T>, preferred: Option<T>, fallback: Option<T>)
    ensures
        list_or_empty(Some(list)) == list,
        list_or_empty::<T>(None) == Seq::<T>::empty(),
        preferred is Some ==> first_of(preferred, fallback) == preferred,
        preferred is None ==> first_of(preferred, fallback) == fallback,
{
}

/// Every count that the endpoint gives is reported under its own name, as it is, whatever else it
/// gives. A count that it does not give is zero.
pub proof fn law_every_count_is_reported(usage: ChatUsage)
    ensures
        token_usage(usage).input_tokens == usage.prompt_tokens,
        token_usage(usage).output_tokens == usage.completion_tokens,
        token_usage(usage).total_tokens == usage.total_tokens,
        forall|cached: i64|
            usage.prompt_tokens_details == Some(
                ChatPromptTokensDetails { cached_tokens: Some(cached) },
            ) ==> token_usage(usage).cached_input_tokens == cached,
        usage.prompt_tokens_details is None ==> token_usage(usage).cached_input_tokens == 0,
        usage.prompt_tokens_details matches Some(details) && details.cached_tokens is None
            ==> token_usage(usage).cached_input_tokens == 0,
        forall|reasoning: i64|
            usage.completion_tokens_details == Some(
                ChatCompletionTokensDetails { reasoning_tokens: Some(reasoning) },
            ) ==> token_usage(usage).reasoning_output_tokens == reasoning,
        usage.completion_tokens_details is None ==> token_usage(usage).reasoning_output_tokens == 0,
        usage.completion_tokens_details matches Some(details) && details.reasoning_tokens is None
            ==> token_usage(usage).reasoning_output_tokens == 0,
{
}

/// Converting a usage gives these counts.
pub proof fn law_usage_is_converted(usage: ChatUsage)
    ensures
        <TokenUsage as vstd::std_specs::convert::FromSpec<ChatUsage>>::obeys_from_spec(),
        <TokenUsage as vstd::std_specs::convert::FromSpec<ChatUsage>>::from_spec(usage)
            == token_usage(usage),
{
}

/// The usage of the last chunk that has one.
pub open spec fn usage_given_last(chunks: Seq<ChatChunkView>) -> Option<ChatUsage>
    decreases chunks.len(),
{
    if chunks.len() == 0 {
        None
    } else if chunks.last().usage is Some {
        chunks.last().usage
    } else {
        usage_given_last(chunks.drop_last())
    }
}

/// The usage of the last chunk, in the counts of a response.
proof fn lemma_last_usage(chunks: Seq<ChatChunkView>)
    ensures
        last_usage(chunks) == match usage_given_last(chunks) {
            Some(usage) => Some(token_usage(usage)),
            None => None,
        },
    decreases chunks.len(),
{
    if chunks.len() > 0 {
        lemma_last_usage(chunks.drop_last());
    }
}

/// A completed response reports, count by count, the usage that the stream gave last, and none
/// where the stream gave none.
pub proof fn law_last_usage_is_reported(chunks: Seq<ChatChunkView>)
    ensures
        ({
            let events = add_chunks(
                ChatCompletionStateView::initial(),
                chunks,
            ).state.finish().events;
            let reported = events.last()->token_usage;
            &&& events.len() > 0 && events.last() is Completed
            &&& reported is Some <==> usage_given_last(chunks) is Some
            &&& usage_given_last(chunks) matches Some(usage) ==> {
                &&& reported->0.input_tokens == usage.prompt_tokens
                &&& reported->0.output_tokens == usage.completion_tokens
                &&& reported->0.total_tokens == usage.total_tokens
                &&& forall|cached: i64|
                    usage.prompt_tokens_details == Some(
                        ChatPromptTokensDetails { cached_tokens: Some(cached) },
                    ) ==> reported->0.cached_input_tokens == cached
                &&& (usage.prompt_tokens_details is None
                    || usage.prompt_tokens_details->0.cached_tokens is None)
                    ==> reported->0.cached_input_tokens == 0
                &&& forall|reasoning: i64|
                    usage.completion_tokens_details == Some(
                        ChatCompletionTokensDetails { reasoning_tokens: Some(reasoning) },
                    ) ==> reported->0.reasoning_output_tokens == reasoning
                &&& (usage.completion_tokens_details is None
                    || usage.completion_tokens_details->0.reasoning_tokens is None)
                    ==> reported->0.reasoning_output_tokens == 0
            }
        }),
{
    law_what_a_stream_says(chunks);
    lemma_last_usage(chunks);
    if let Some(usage) = usage_given_last(chunks) {
        law_every_count_is_reported(usage);
    }
}

/// The id that is made up for a call.
pub open spec fn made_up(number: nat) -> Seq<char> {
    "chat_tool_call_"@ + decimal(number)
}

/// A made-up id is a fixed text with the number behind it.
pub proof fn law_made_up_id(number: nat)
    ensures
        made_up_call_id(number) == made_up(number),
{
}

/// A stream starts with nothing said.
pub proof fn law_stream_starts_empty()
    ensures
        ({
            let state = ChatCompletionStateView::initial();
            &&& state.response_id is None
            &&& state.fallback_id_counter == 0
            &&& state.assistant_item_id is None
            &&& state.assistant_text.len() == 0
            &&& state.reasoning_content.len() == 0
            &&& forall|index: usize| !#[trigger] state.tool_calls.contains_key(index)
            &&& state.usage is None
        }),
{
}

/// Starting the message item gives it an id that is made of the id of the response, if that is
/// known, and tells of the item, empty and the assistant's. Once it is started nothing happens.
/// Nothing else changes.
pub proof fn law_item_is_started(state: ChatCompletionStateView)
    ensures
        state.assistant_item_id is Some ==> state.start_item().state == state
            && state.start_item().events.len() == 0,
        state.assistant_item_id is None ==> {
            let id = match state.response_id {
                Some(id) => id + "_message"@,
                None => "chat_completion_response_message"@,
            };
            &&& state.start_item().state == (ChatCompletionStateView {
                assistant_item_id: Some(id),
                ..state
            })
            &&& state.start_item().events == seq![
                ResponseEventView::OutputItemAdded(
                    ResponseItemView::Message {
                        id: Some(id),
                        role: "assistant"@,
                        content: Seq::empty(),
                        phase: None,
                        reasoning_content: None,
                    },
                ),
            ]
        },
{
    reveal_strlit("chat_completion_response_message");
    reveal_strlit("chat_completion_response");
    reveal_strlit("_message");
    assert("chat_completion_response"@ + "_message"@ == "chat_completion_response_message"@);
}

/// A piece of text that is not empty is added to the text and passed on, after the item has been
/// started. An empty one, or none, does nothing. Nothing else changes.
pub proof fn law_text_is_added(state: ChatCompletionStateView, content: Option<Seq<char>>)
    ensures
        content is None || content->0.len() == 0 ==> state.add_content(content).state == state
            && state.add_content(content).events.len() == 0,
        content is Some && content->0.len() > 0 ==> {
            &&& state.add_content(content).state == (ChatCompletionStateView {
                assistant_text: state.assistant_text + content->0,
                ..state.start_item().state
            })
            &&& state.add_content(content).events == state.start_item().events + seq![
                ResponseEventView::OutputTextDelta(content->0),
            ]
        },
{
    if content is Some && content->0.len() > 0 {
        assert(state.add_content(content).events == state.start_item().events + seq![
            ResponseEventView::OutputTextDelta(content->0),
        ]);
    }
}

/// A piece of reasoning is added to the reasoning. Nothing else changes.
pub proof fn law_reasoning_is_added(state: ChatCompletionStateView, reasoning: Option<Seq<char>>)
    ensures
        reasoning is None ==> state.add_reasoning(reasoning) == state,
        forall|text: Seq<char>|
            reasoning == Some(text) ==> #[trigger] state.add_reasoning(reasoning) == (
            ChatCompletionStateView {
                reasoning_content: state.reasoning_content + text,
                ..state
            }),
{
    assert(state.reasoning_content + Seq::<char>::empty() == state.reasoning_content);
}

/// The arguments that a piece of a tool call brings.
pub open spec fn brought(piece: ChatDeltaToolCallView) -> Seq<char> {
    if piece.function is Some && piece.function->0.arguments is Some {
        piece.function->0.arguments->0
    } else {
        Seq::empty()
    }
}

/// A piece of a tool call changes the call with its index and nothing else. An id or a name that
/// it brings replaces the one before, else that stays; arguments are put behind those before. The
/// call is there from then on. Where the piece brings arguments, they are passed on under the id
/// of the call, or under a made-up one as long as the call has none.
pub proof fn law_piece_changes_its_call(
    state: ChatCompletionStateView,
    piece: ChatDeltaToolCallView,
)
    ensures
        ({
            let after = state.add_tool_call(piece).state;
            let events = state.add_tool_call(piece).events;
            let call = after.tool_calls[piece.index];
            let known = state.tool_calls.contains_key(piece.index);
            let before = state.tool_calls[piece.index];
            &&& after == (ChatCompletionStateView { tool_calls: after.tool_calls, ..state })
            &&& after.tool_calls.contains_key(piece.index)
            &&& forall|index: usize|
                index != piece.index ==> {
                    &&& #[trigger] after.tool_calls.contains_key(index)
                        <==> state.tool_calls.contains_key(index)
                    &&& state.tool_calls.contains_key(index) ==> after.tool_calls[index]
                        == state.tool_calls[index]
                }
            &&& piece.id is Some ==> call.id == piece.id
            &&& piece.id is None ==> call.id == if known {
                before.id
            } else {
                None
            }
            &&& call.name == if piece.function is Some && piece.function->0.name is Some {
                piece.function->0.name
            } else if known {
                before.name
            } else {
                None
            }
            &&& known ==> call.arguments == before.arguments + brought(piece)
            &&& !known ==> call.arguments == brought(piece)
            &&& brought(piece).len() == 0 ==> events.len() == 0
            &&& brought(piece).len() > 0 ==> events == seq![
                ResponseEventView::ToolCallInputDelta {
                    item_id: match call.id {
                        Some(id) => id,
                        None => made_up(piece.index as nat),
                    },
                    call_id: call.id,
                    delta: brought(piece),
                },
            ]
        }),
{
    let known = state.tool_call(piece.index).arguments;
    assert(Seq::<char>::empty() + brought(piece) == brought(piece));
    let after = state.add_tool_call(piece).state.tool_calls[piece.index];
    assert(known + brought(piece) == after.arguments);
}

/// Pieces of tool calls are taken up one by one, in order: those of two lists together as those of
/// the first and then those of the second.
pub proof fn law_pieces_one_by_one(
    state: ChatCompletionStateView,
    first: Seq<ChatDeltaToolCallView>,
    second: Seq<ChatDeltaToolCallView>,
)
    ensures
        ({
            let begun = state.add_tool_calls(first);
            let done = begun.state.add_tool_calls(second);
            &&& state.add_tool_calls(first + second).state == done.state
            &&& state.add_tool_calls(first + second).events == begun.events + done.events
        }),
        first.len() == 0 ==> state.add_tool_calls(first).state == state && state.add_tool_calls(
            first,
        ).events.len() == 0,
        first.len() == 1 ==> state.add_tool_calls(first).state == state.add_tool_call(first[0]).state
            && state.add_tool_calls(first).events == state.add_tool_call(first[0]).events,
    decreases second.len(),
{
    if first.len() == 1 {
        reveal_with_fuel(ChatCompletionStateView::add_tool_calls, 2);
        assert(first.drop_last() == Seq::<ChatDeltaToolCallView>::empty());
        assert(state.add_tool_calls(first).events == state.add_tool_call(first[0]).events);
    }
    let begun = state.add_tool_calls(first);
    if second.len() == 0 {
        assert(first + second == first);
        assert(begun.events + begun.state.add_tool_calls(second).events == begun.events);
    } else {
        assert((first + second).drop_last() == first + second.drop_last());
        law_pieces_one_by_one(state, first, second.drop_last());
        assert(state.add_tool_calls(first + second).events == begun.events
            + begun.state.add_tool_calls(second).events);
    }
}

/// A delta is taken up whole: its reasoning, then its text, then its pieces of tool calls, if it
/// has any, whatever else it has.
pub proof fn law_delta_is_taken_up_whole(state: ChatCompletionStateView, delta: ChatDeltaView)
    ensures
        ({
            let spoken = state.add_reasoning(delta.reasoning_content).add_content(delta.content);
            &&& delta.tool_calls is None ==> state.add_delta(delta).state == spoken.state
                && state.add_delta(delta).events == spoken.events
            &&& delta.tool_calls matches Some(pieces) ==> {
                let called = spoken.state.add_tool_calls(pieces);
                &&& state.add_delta(delta).state == called.state
                &&& state.add_delta(delta).events == spoken.events + called.events
            }
        }),
{
    let spoken = state.add_reasoning(delta.reasoning_content).add_content(delta.content);
    assert(spoken.events + Seq::<ResponseEventView>::empty() == spoken.events);
}

/// The alternatives of a chunk are taken up one by one, in order, all of them.
pub proof fn law_alternatives_one_by_one(
    state: ChatCompletionStateView,
    first: Seq<ChatChoiceView>,
    second: Seq<ChatChoiceView>,
)
    ensures
        ({
            let begun = state.add_choices(first);
            let done = begun.state.add_choices(second);
            &&& state.add_choices(first + second).state == done.state
            &&& state.add_choices(first + second).events == begun.events + done.events
        }),
        first.len() == 0 ==> state.add_choices(first).state == state && state.add_choices(
            first,
        ).events.len() == 0,
        first.len() == 1 ==> state.add_choices(first).state == state.add_delta(first[0].delta).state
            && state.add_choices(first).events == state.add_delta(first[0].delta).events,
    decreases second.len(),
{
    if first.len() == 1 {
        reveal_with_fuel(ChatCompletionStateView::add_choices, 2);
        assert(first.drop_last() == Seq::<ChatChoiceView>::empty());
        assert(state.add_choices(first).events == state.add_delta(first[0].delta).events);
    }
    let begun = state.add_choices(first);
    if second.len() == 0 {
        assert(first + second == first);
        assert(begun.events + begun.state.add_choices(second).events == begun.events);
    } else {
        assert((first + second).drop_last() == first + second.drop_last());
        law_alternatives_one_by_one(state, first, second.drop_last());
        assert(state.add_choices(first + second).events == begun.events
            + begun.state.add_choices(second).events);
    }
}

/// A chunk gives the response its id, unless it has one, and its usage in place of the one before,
/// if it reports one. Then its alternatives are taken up. Nothing else changes.
pub proof fn law_chunk_is_taken_up(state: ChatCompletionStateView, chunk: ChatChunkView)
    ensures
        ({
            let noted = state.note(chunk);
            &&& noted == (ChatCompletionStateView {
                response_id: noted.response_id,
                usage: noted.usage,
                ..state
            })
            &&& state.response_id is Some ==> noted.response_id == state.response_id
            &&& state.response_id is None ==> noted.response_id == chunk.id
            &&& chunk.usage is None ==> noted.usage == state.usage
            &&& chunk.usage matches Some(usage) ==> noted.usage == Some(token_usage(usage))
            &&& chunk.choices is None ==> state.add_chunk(chunk).state == noted && state.add_chunk(
                chunk,
            ).events.len() == 0
            &&& chunk.choices matches Some(choices) ==> state.add_chunk(chunk).state
                == noted.add_choices(choices).state && state.add_chunk(chunk).events
                == noted.add_choices(choices).events
        }),
{
}

/// The reasoning of a response is what it has gathered, as it is, and none where that is empty.
pub proof fn law_reasoning_of_a_response(state: ChatCompletionStateView)
    ensures
        state.reasoning() is Some <==> state.reasoning_content.len() > 0,
        state.reasoning_content.len() > 0 ==> state.reasoning() == Some(state.reasoning_content),
{
}

/// A response is finished with its message, where it has a text: under the id it was started with,
/// with all the text and all the reasoning. Then come its tool calls by index, and last its
/// completion, with its id, if it has one, and the usage that was reported last. What is finished
/// is not finished again.
pub proof fn law_response_is_finished(state: ChatCompletionStateView)
    ensures
        ({
            let message = if state.assistant_text.len() > 0 {
                seq![
                    ResponseEventView::OutputItemDone(
                        ResponseItemView::Message {
                            id: state.assistant_item_id,
                            role: "assistant"@,
                            content: seq![
                                ContentItemView::OutputText { text: state.assistant_text },
                            ],
                            phase: None,
                            reasoning_content: if state.reasoning_content.len() > 0 {
                                Some(state.reasoning_content)
                            } else {
                                None
                            },
                        },
                    ),
                ]
            } else {
                Seq::empty()
            };
            let calls = finish_calls(
                state.fallback_id_counter,
                calls_from(state.tool_calls, 0),
                if state.reasoning_content.len() > 0 {
                    Some(state.reasoning_content)
                } else {
                    None
                },
            );
            let after = state.finish().state;
            &&& state.finish_message() == message
            &&& state.finish().events == message + calls.1 + seq![
                ResponseEventView::Completed {
                    response_id: if state.response_id is Some {
                        state.response_id->0
                    } else {
                        "chatcmpl_unknown"@
                    },
                    token_usage: state.usage,
                    end_turn: None,
                },
            ]
            &&& after.response_id == state.response_id
            &&& after.assistant_item_id == state.assistant_item_id
            &&& after.reasoning_content == state.reasoning_content
            &&& after.fallback_id_counter == calls.0
            &&& after.assistant_text.len() == 0
            &&& after.tool_calls == Map::<usize, ToolCallView>::empty()
            &&& after.usage is None
        }),
{
}

/// Tool calls are finished one by one, in order. A call without a name is dropped. A call with a
/// name is a function call item with its name, its arguments, the reasoning, and its id or, where
/// it has none, the made-up id with the next number.
pub proof fn law_call_is_finished(
    made: nat,
    calls: Seq<ToolCallView>,
    call: ToolCallView,
    reasoning: Option<Seq<char>>,
)
    ensures
        ({
            let (count, events) = finish_calls(made, calls, reasoning);
            let (total, all) = finish_calls(made, calls.push(call), reasoning);
            &&& call.name is None ==> total == count && all == events
            &&& call.name is Some ==> {
                &&& total == if call.id is Some {
                    count
                } else {
                    count + 1
                }
                &&& all == events.push(
                    ResponseEventView::OutputItemDone(
                        ResponseItemView::FunctionCall {
                            id: None,
                            name: call.name->0,
                            namespace: None,
                            arguments: call.arguments,
                            call_id: if call.id is Some {
                                call.id->0
                            } else {
                                made_up(count + 1)
                            },
                            reasoning_content: reasoning,
                        },
                    ),
                )
            }
        }),
        finish_calls(made, Seq::empty(), reasoning).0 == made,
        finish_calls(made, Seq::empty(), reasoning).1.len() == 0,
{
    assert(calls.push(call).drop_last() == calls);
}

/// The events that pass arguments on.
pub open spec fn input_deltas(events: Seq<ResponseEventView>) -> Seq<ResponseEventView>
    decreases events.len(),
{
    if events.len() == 0 {
        Seq::empty()
    } else if events.last() is ToolCallInputDelta {
        input_deltas(events.drop_last()).push(events.last())
    } else {
        input_deltas(events.drop_last())
    }
}

/// The events with which pieces of tool calls are passed on: one for each piece that brings
/// arguments, with these arguments, and with the last id that the pieces up to and with this one
/// give the call with its index. It goes by that id, or by its index as long as there is none.
pub open spec fn named_deltas(pieces: Seq<ChatDeltaToolCallView>) -> Seq<ResponseEventView>
    decreases pieces.len(),
{
    if pieces.len() == 0 {
        Seq::empty()
    } else if brought(pieces.last()).len() == 0 {
        named_deltas(pieces.drop_last())
    } else {
        let index = pieces.last().index;
        let id = last_call_id(pieces, index);
        named_deltas(pieces.drop_last()).push(
            ResponseEventView::ToolCallInputDelta {
                item_id: match id {
                    Some(id) => id,
                    None => made_up(index as nat),
                },
                call_id: id,
                delta: brought(pieces.last()),
            },
        )
    }
}

/// The arguments that two runs of events pass on.
proof fn lemma_input_deltas_concat(first: Seq<ResponseEventView>, second: Seq<ResponseEventView>)
    ensures
        input_deltas(first + second) == input_deltas(first) + input_deltas(second),
    decreases second.len(),
{
    let all = first + second;
    if second.len() == 0 {
        assert(all == first);
    } else {
        assert(all.drop_last() == first + second.drop_last());
        lemma_input_deltas_concat(first, second.drop_last());
    }
}

/// More pieces of tool calls are passed on under the ids that are known by then.
proof fn lemma_pieces_named(
    state: ChatCompletionStateView,
    pieces: Seq<ChatDeltaToolCallView>,
    more: Seq<ChatDeltaToolCallView>,
)
    requires
        calls_told(state.tool_calls, pieces),
    ensures
        named_deltas(pieces + more) == named_deltas(pieces) + input_deltas(
            state.add_tool_calls(more).events,
        ),
    decreases more.len(),
{
    if more.len() == 0 {
        assert(pieces + more == pieces);
    } else {
        let shorter = more.drop_last();
        let piece = more.last();
        let earlier = state.add_tool_calls(shorter);
        let last = earlier.state.add_tool_call(piece).events;
        let all = pieces + more;
        lemma_pieces_named(state, pieces, shorter);
        lemma_pieces_told(state, pieces, shorter);
        assert(all.drop_last() == pieces + shorter);
        assert(all.last() == piece);
        lemma_input_deltas_concat(earlier.events, last);
        assert(earlier.state.tool_calls.contains_key(piece.index) <==> mentioned(
            pieces + shorter,
            piece.index,
        ));
        if !earlier.state.tool_calls.contains_key(piece.index) {
            lemma_not_mentioned(pieces + shorter, piece.index);
        }
        law_piece_changes_its_call(earlier.state, piece);
        reveal_with_fuel(input_deltas, 2);
        assert(earlier.state.tool_call(piece.index).id == last_call_id(
            pieces + shorter,
            piece.index,
        ));
    }
}

/// More alternatives are passed on under the ids that are known by then.
proof fn lemma_choices_named(
    state: ChatCompletionStateView,
    deltas: Seq<ChatDeltaView>,
    choices: Seq<ChatChoiceView>,
)
    requires
        told(state, deltas),
    ensures
        named_deltas(pieces_in(deltas + deltas_of(choices))) == named_deltas(pieces_in(deltas))
            + input_deltas(state.add_choices(choices).events),
    decreases choices.len(),
{
    if choices.len() == 0 {
        assert(deltas + deltas_of(choices) == deltas);
    } else {
        let shorter = choices.drop_last();
        let delta = choices.last().delta;
        let before = deltas + deltas_of(shorter);
        let earlier = state.add_choices(shorter);
        let spoken = earlier.state.add_reasoning(delta.reasoning_content).add_content(
            delta.content,
        );
        let pieces = list_or_empty(delta.tool_calls);
        let called = spoken.state.add_tool_calls(pieces);
        lemma_choices_named(state, deltas, shorter);
        lemma_choices_told(state, deltas, shorter);
        lemma_pieces_named(spoken.state, pieces_in(before), pieces);
        assert(deltas + deltas_of(choices) == before.push(delta));
        assert(before.push(delta).drop_last() == before);
        reveal_with_fuel(input_deltas, 3);
        assert(input_deltas(spoken.events) == Seq::<ResponseEventView>::empty());
        lemma_input_deltas_concat(spoken.events, called.events);
        lemma_input_deltas_concat(earlier.events, spoken.events + called.events);
    }
}

/// Arguments are passed on under the name of their call: for every piece that brings arguments, and
/// for no other, there is one event, in order, with these arguments and with the id that the
/// stream has given the call by then.
pub proof fn law_arguments_name_their_call(chunks: Seq<ChatChunkView>)
    ensures
        input_deltas(add_chunks(ChatCompletionStateView::initial(), chunks).events)
            == named_deltas(pieces_in(deltas_in(chunks))),
    decreases chunks.len(),
{
    if chunks.len() > 0 {
        let shorter = chunks.drop_last();
        let earlier = add_chunks(ChatCompletionStateView::initial(), shorter);
        let choices = list_or_empty(chunks.last().choices);
        let noted = earlier.state.note(chunks.last());
        law_arguments_name_their_call(shorter);
        law_what_a_stream_says(shorter);
        lemma_choices_named(noted, deltas_in(shorter), choices);
        lemma_input_deltas_concat(earlier.events, noted.add_choices(choices).events);
    }
}

/// What the driver is told after each thing it reports. An open stream is announced. Data that
/// marks the end finishes the response and stops; other data is to be decoded, as it came. A chunk
/// is taken up, and what is no chunk is passed over. A stream that breaks off stops with its own
/// failure. Only a chunk or the end changes the state.
pub proof fn law_steps(state: ChatCompletionStateView, input: StreamInputView)
    ensures
        ({
            let (after, taken) = step(state, input);
            match input {
                StreamInputView::Opened => after == state && taken == (StreamStepView {
                    events: seq![ResponseEventView::Created],
                    failure: None,
                    next: NextActionView::Poll,
                }),
                StreamInputView::Data(data) => if marks_the_end(data) {
                    after == state.finish().state && taken == (StreamStepView {
                        events: state.finish().events,
                        failure: None,
                        next: NextActionView::Stop,
                    })
                } else {
                    after == state && taken == (StreamStepView {
                        events: Seq::empty(),
                        failure: None,
                        next: NextActionView::Decode(data),
                    })
                },
                StreamInputView::Decoded(Some(chunk)) => after == state.add_chunk(chunk).state
                    && taken == (StreamStepView {
                    events: state.add_chunk(chunk).events,
                    failure: None,
                    next: NextActionView::Poll,
                }),
                StreamInputView::Decoded(None) => after == state && taken == (StreamStepView {
                    events: Seq::empty(),
                    failure: None,
                    next: NextActionView::Poll,
                }),
                StreamInputView::Failed(message) => after == state && taken == stopped(message),
                StreamInputView::Closed => after == state && taken == stopped(
                    "stream closed before chat completion finished"@,
                ),
                StreamInputView::IdleTimeout => after == state && taken == stopped(
                    "idle timeout waiting for SSE"@,
                ),
            }
        }),
{
    if let StreamInputView::Data(data) = input {
        law_done_marker(data);
    }
}

/// A step that delivers nothing but a failure with this message, and stops.
pub open spec fn stopped(message: Seq<char>) -> StreamStepView {
    StreamStepView {
        events: Seq::empty(),
        failure: Some(ApiErrorView::Stream(message)),
        next: NextActionView::Stop,
    }
}

} // verus!
