//! Chat messages: what token accounting reads, and the messages of a tool loop.
use vstd::prelude::*;

verus! {

/// The name and JSON-encoded arguments of a function the model asked to call.
pub struct FunctionCall {
    pub name: String,
    pub arguments: String,
}

/// One tool call of an assistant message.
pub struct ToolCall {
    pub id: String,
    pub function: FunctionCall,
}

/// One part of a multi-part message body.
pub enum ChatContentPart {
    Text { text: String },
    ImageUrl { url: String },
}

/// A message body: plain text or a list of parts.
pub enum ChatContent {
    Text(String),
    Parts(Vec<ChatContentPart>),
}

/// One chat message.
pub struct ChatMessage {
    pub role: String,
    pub content: Option<ChatContent>,
    pub tool_calls: Option<Vec<ToolCall>>,
    pub tool_call_id: Option<String>,
}

/// The text body of a message, if it has one.
pub open spec fn text_body(c: Option<ChatContent>) -> Option<Seq<char>> {
    match c {
        Some(ChatContent::Text(s)) => Some(s@),
        _ => None,
    }
}

fn copy_text(s: &str) -> (r: String)
    ensures
        r@ == s@,
{
    crate::text::string_of(crate::text::chars_of(s).as_slice())
}

impl ChatMessage {
    /// A message with a role and a text body.
    pub fn plain(role: &str, content: String) -> (m: ChatMessage)
        ensures
            m.role@ == role@,
            text_body(m.content) == Some(content@),
            m.tool_calls is None,
            m.tool_call_id is None,
    {
        ChatMessage {
            role: copy_text(role),
            content: Some(ChatContent::Text(content)),
            tool_calls: None,
            tool_call_id: None,
        }
    }

    /// A system message.
    pub fn system(content: String) -> (m: ChatMessage)
        ensures
            m.role@ == "system"@,
            text_body(m.content) == Some(content@),
            m.tool_calls is None,
            m.tool_call_id is None,
    {
        ChatMessage::plain("system", content)
    }

    /// An assistant message, with the tool calls it asks for.
    pub fn assistant(content: Option<String>, tool_calls: Option<Vec<ToolCall>>) -> (m: ChatMessage)
        ensures
            m.role@ == "assistant"@,
            text_body(m.content) == match content {
                Some(c) => Some(c@),
                None => None::<Seq<char>>,
            },
            m.content is Some <==> content is Some,
            m.tool_calls == tool_calls,
            m.tool_call_id is None,
    {
        ChatMessage {
            role: copy_text("assistant"),
            content: match content {
                Some(c) => Some(ChatContent::Text(c)),
                None => None,
            },
            tool_calls,
            tool_call_id: None,
        }
    }

    /// The answer to a tool call.
    pub fn tool(tool_call_id: String, content: String) -> (m: ChatMessage)
        ensures
            m.role@ == "tool"@,
            text_body(m.content) == Some(content@),
            m.tool_calls is None,
            m.tool_call_id == Some(tool_call_id),
    {
        ChatMessage {
            role: copy_text("tool"),
            content: Some(ChatContent::Text(content)),
            tool_calls: None,
            tool_call_id: Some(tool_call_id),
        }
    }
}

} // verus!
