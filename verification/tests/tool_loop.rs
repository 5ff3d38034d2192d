use miyu::agent::tool_loop::{record_reply, record_tool_result};
use miyu::llm::{ChatContent, ChatMessage, FunctionCall, ToolCall};

fn text(m: &ChatMessage) -> Option<&str> {
    match &m.content {
        Some(ChatContent::Text(s)) => Some(s.as_str()),
        _ => None,
    }
}

#[test]
fn a_reply_without_tool_calls_ends_the_loop() {
    let mut messages = vec![ChatMessage::system("sys".to_string())];
    assert!(record_reply(&mut messages, Some("done".to_string()), Vec::new()));
    assert_eq!(messages.len(), 1);
}

#[test]
fn tool_calls_are_recorded_and_answered() {
    let mut messages = vec![ChatMessage::plain("user", "hi".to_string())];
    let call = ToolCall {
        id: "c1".to_string(),
        function: FunctionCall { name: "t".to_string(), arguments: "{}".to_string() },
    };
    assert!(!record_reply(&mut messages, None, vec![call]));
    assert_eq!(messages.len(), 2);
    assert_eq!(messages[1].role, "assistant");
    assert_eq!(messages[1].tool_calls.as_ref().unwrap()[0].id, "c1");
    record_tool_result(&mut messages, "c1".to_string(), Err("bad".to_string()));
    record_tool_result(&mut messages, "c2".to_string(), Ok("fine".to_string()));
    assert_eq!(messages[2].role, "tool");
    assert_eq!(text(&messages[2]), Some("tool error: bad"));
    assert_eq!(messages[2].tool_call_id.as_deref(), Some("c1"));
    assert_eq!(text(&messages[3]), Some("fine"));
}
