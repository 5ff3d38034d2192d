//! The decisions of a tool loop: a model reply that asks for no tool ends the loop;
//! one that does is recorded, and each tool's output, or its error, is answered to
//! the model. Asking the model and running the tools is the application's part.
use crate::llm::{text_body, ChatMessage, ToolCall};
use crate::text::{push_str, string_of};
use vstd::prelude::*;

verus! {

/// The text a tool call is answered with: the tool's output, or its error.
pub open spec fn tool_answer(result: Result<Seq<char>, Seq<char>>) -> Seq<char> {
    match result {
        Ok(o) => o,
        Err(e) => "tool error: "@ + e,
    }
}

/// Records a model reply (`chat_with_tools`, once the model answered): a reply that
/// asks for no tool ends the loop and is not recorded; else it is added as an
/// assistant message with its tool calls.
pub fn record_reply(messages: &mut Vec<ChatMessage>, content: Option<String>, calls: Vec<ToolCall>) -> (done:
    bool)
    ensures
        done == (calls@.len() == 0),
        done ==> final(messages)@ == old(messages)@,
        !done ==> {
            &&& final(messages)@.len() == old(messages)@.len() + 1
            &&& final(messages)@.take(old(messages)@.len() as int) == old(messages)@
            &&& final(messages)@.last().role@ == "assistant"@
            &&& text_body(final(messages)@.last().content) == match content {
                Some(c) => Some(c@),
                None => None::<Seq<char>>,
            }
            &&& final(messages)@.last().tool_calls == Some(calls)
        },
{
    if calls.len() == 0 {
        return true;
    }
    let ghost before = messages@;
    messages.push(ChatMessage::assistant(content, Some(calls)));
    proof {
        assert(messages@.take(before.len() as int) =~= before);
    }
    false
}

/// Answers one tool call with the tool's output or error (`chat_with_tools`, once
/// the tool ran).
pub fn record_tool_result(messages: &mut Vec<ChatMessage>, call_id: String, result: Result<String, String>)
    ensures
        final(messages)@.len() == old(messages)@.len() + 1,
        final(messages)@.take(old(messages)@.len() as int) == old(messages)@,
        final(messages)@.last().role@ == "tool"@,
        final(messages)@.last().tool_call_id == Some(call_id),
        text_body(final(messages)@.last().content) == Some(
            tool_answer(
                match result {
                    Ok(o) => Ok::<Seq<char>, Seq<char>>(o@),
                    Err(e) => Err::<Seq<char>, Seq<char>>(e@),
                },
            ),
        ),
{
    let output = match result {
        Ok(o) => o,
        Err(e) => {
            let mut out: Vec<char> = Vec::new();
            push_str(&mut out, "tool error: ");
            push_str(&mut out, e.as_str());
            string_of(out.as_slice())
        },
    };
    let ghost before = messages@;
    messages.push(ChatMessage::tool(call_id, output));
    proof {
        assert(messages@.take(before.len() as int) =~= before);
    }
}

/// A tool's output is handed to the model as it is; an error is handed as
/// "tool error: " and the error's text.
pub proof fn law_tool_answer(output: Seq<char>, message: Seq<char>)
    ensures
        tool_answer(Ok(output)) == output,
        tool_answer(Err(message)) == "tool error: "@ + message,
        tool_answer(Err(message)).len() == message.len() + 12,
{
    reveal_strlit("tool error: ");
}

} // verus!
