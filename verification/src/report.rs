//! A diagnostic report on the reasoning that a chat carries.

use crate::chat::{ChatMessage, ChatMessageView};
use crate::text::{decimal, decimal_text, text_is, with_suffix};
use vstd::prelude::*;
use vstd::utf8::encode_utf8;

verus! {

/// The name of a truth value.
pub open spec fn flag_name(flag: bool) -> Seq<char> {
    if flag {
        "true"@
    } else {
        "false"@
    }
}

/// How many bytes a text takes in UTF-8. Of a text that is in memory, that is the length of the
/// encoding.
pub open spec fn byte_len(text: Seq<char>) -> usize {
    encode_utf8(text).len() as usize
}

/// The length of the reasoning, as an option.
pub open spec fn reasoning_len(reasoning: Option<Seq<char>>) -> Seq<char> {
    match reasoning {
        Some(text) => "Some("@ + decimal(byte_len(text) as nat) + ")"@,
        None => "None"@,
    }
}

/// The line on one message, which stands at this position.
pub open spec fn report_line(position: nat, message: ChatMessageView) -> Seq<char> {
    "msg["@ + decimal(position) + "] role="@ + message.role + " has_content="@ + flag_name(
        message.content is Some,
    ) + " has_reasoning="@ + flag_name(message.reasoning_content is Some) + " has_tool_calls="@
        + flag_name(message.tool_calls is Some) + " reasoning_len="@ + reasoning_len(
        message.reasoning_content,
    ) + "\n"@
}

/// The report: one line for each message of the assistant, in order.
pub open spec fn report(messages: Seq<ChatMessageView>) -> Seq<char>
    decreases messages.len(),
{
    if messages.len() == 0 {
        Seq::empty()
    } else if messages.last().role == "assistant"@ {
        report(messages.drop_last()) + report_line(
            (messages.len() - 1) as nat,
            messages.last(),
        )
    } else {
        report(messages.drop_last())
    }
}

/// The report on a chat is the report on its earlier messages and then, where the last message is
/// the assistant's, a line that tells its position, its role, whether it has content, reasoning and
/// tool calls, and how many bytes the reasoning takes.
pub proof fn law_report(messages: Seq<ChatMessageView>, message: ChatMessageView)
    ensures
        report(Seq::empty()).len() == 0,
        message.role != "assistant"@ ==> report(messages.push(message)) == report(messages),
        message.role == "assistant"@ ==> report(messages.push(message)) == report(messages)
            + "msg["@ + decimal(messages.len()) + "] role="@ + "assistant"@ + " has_content="@ + (if
        message.content is Some {
            "true"@
        } else {
            "false"@
        }) + " has_reasoning="@ + (if message.reasoning_content is Some {
            "true"@
        } else {
            "false"@
        }) + " has_tool_calls="@ + (if message.tool_calls is Some {
            "true"@
        } else {
            "false"@
        }) + " reasoning_len="@ + (match message.reasoning_content {
            Some(text) => "Some("@ + decimal((encode_utf8(text).len() as usize) as nat) + ")"@,
            None => "None"@,
        }) + "\n"@,
{
    let all = messages.push(message);
    assert(all.drop_last() == messages);
    assert(all.len() - 1 == messages.len());
    if message.role == "assistant"@ {
        let line = report_line(messages.len(), message);
        assert(report(all) == report(messages) + line);
    }
}

/// The name of a truth value.
fn flag_text(flag: bool) -> (text: &'static str)
    ensures
        text@ == flag_name(flag),
{
    if flag {
        "true"
    } else {
        "false"
    }
}

/// The length of the reasoning, as an option.
fn reasoning_len_text(reasoning: &Option<String>) -> (text: String)
    ensures
        text@ == reasoning_len(reasoning.deep_view()),
{
    match reasoning {
        Some(reasoning) => {
            let length = decimal_text(reasoning.as_str().len());
            let mut text = with_suffix("Some(", length.as_str());
            text.append(")");
            text
        },
        None => "None".to_string(),
    }
}

/// The line on one message, which stands at this position.
fn report_line_text(position: usize, message: &ChatMessage) -> (text: String)
    ensures
        text@ == report_line(position as nat, message.deep_view()),
{
    let mut text = with_suffix("msg[", decimal_text(position).as_str());
    text.append("] role=");
    text.append(message.role.as_str());
    text.append(" has_content=");
    text.append(flag_text(message.content.is_some()));
    text.append(" has_reasoning=");
    text.append(flag_text(message.reasoning_content.is_some()));
    text.append(" has_tool_calls=");
    text.append(flag_text(message.tool_calls.is_some()));
    text.append(" reasoning_len=");
    text.append(reasoning_len_text(&message.reasoning_content).as_str());
    text.append("\n");
    text
}

/// Reports which messages of the assistant carry content, reasoning and tool calls.
pub fn reasoning_report(messages: &Vec<ChatMessage>) -> (text: String)
    ensures
        text@ == report(messages.deep_view()),
{
    let ghost models = messages.deep_view();
    let mut text = String::new();
    let mut next: usize = 0;
    while next < messages.len()
        invariant
            next <= messages.len(),
            models == messages.deep_view(),
            text@ == report(models.take(next as int)),
        decreases messages.len() - next,
    {
        assert(models.take(next + 1).drop_last() == models.take(next as int));
        if text_is(messages[next].role.as_str(), "assistant") {
            text.append(report_line_text(next, &messages[next]).as_str());
        }
        next += 1;
    }
    assert(models.take(models.len() as int) == models);
    text
}

} // verus!
