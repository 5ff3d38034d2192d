use miyu::agent::overflow;
use miyu::llm::{ChatContent, ChatContentPart, ChatMessage, FunctionCall, ToolCall};
use miyu::token_estimate::{estimate_texts_tokens, estimate_tokens, estimate_tokens_with, text_tokens};

#[test]
fn latin_uses_bpe_tokenizer() {
    assert_eq!(estimate_tokens("abcd"), 1);
    assert_eq!(estimate_tokens("abcdefgh"), 1);
    assert!(estimate_tokens("hello world") >= 2);
}

#[test]
fn cjk_uses_bpe_tokenizer() {
    assert_eq!(estimate_tokens("你好"), 1);
    assert_eq!(estimate_tokens("你好世界"), 2);
    assert_eq!(estimate_tokens("你好世"), 2);
}

#[test]
fn mixed_text_counts_non_empty_tokens() {
    assert_eq!(estimate_tokens("abcd你好"), 2);
    assert!(estimate_tokens("abc你好世") >= 2);
}

#[test]
fn empty_is_zero() {
    assert_eq!(estimate_tokens(""), 0);
    assert_eq!(estimate_texts_tokens(&[]), 0);
}

#[test]
fn character_rule_rounds_up_per_script() {
    // three CJK characters make two tokens, five Latin characters make two
    assert_eq!(text_tokens("你好世hello"), 4);
    assert_eq!(estimate_tokens_with("你好世hello", None), 4);
    assert_eq!(estimate_tokens_with("a", None), 1);
    assert_eq!(estimate_tokens_with("", None), 0);
    assert_eq!(estimate_tokens_with("abc", Some(0)), 1);
    assert_eq!(estimate_tokens_with("abc", Some(7)), 7);
}

#[test]
fn texts_are_estimated_together() {
    assert_eq!(
        estimate_texts_tokens(&["hello", " world"]),
        estimate_tokens("hello world") as u64
    );
}

#[test]
fn overflow_estimate_rounds_down_but_is_at_least_one() {
    assert_eq!(overflow::estimate_tokens(""), 1);
    assert_eq!(overflow::estimate_tokens("abc"), 1);
    assert_eq!(overflow::estimate_tokens("abcdefgh"), 2);
    assert_eq!(overflow::estimate_tokens("你好世界"), 2);
}

#[test]
fn conversation_estimate_sums_role_body_images_and_calls() {
    let messages = vec![
        ChatMessage {
            role: "user".to_string(),
            content: Some(ChatContent::Parts(vec![
                ChatContentPart::Text { text: "abcdefgh".to_string() },
                ChatContentPart::ImageUrl { url: "data:image/png;base64,AAAA".to_string() },
            ])),
            tool_calls: None,
            tool_call_id: None,
        },
        ChatMessage {
            role: "assistant".to_string(),
            content: Some(ChatContent::Text("你好".to_string())),
            tool_calls: Some(vec![ToolCall {
                id: "call_1".to_string(),
                function: FunctionCall {
                    name: "load_tools".to_string(),
                    arguments: "{\"a\":1}".to_string(),
                },
            }]),
            tool_call_id: None,
        },
    ];
    // user: 1 + 2 + 765; assistant: 2 + 1 + (2 + 1)
    assert_eq!(overflow::estimate_messages_tokens(&messages), 768 + 6);
    assert_eq!(overflow::estimate_messages_tokens(&[]), 1);
}
