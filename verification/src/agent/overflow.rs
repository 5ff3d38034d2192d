//! Context-window accounting: a character-rule estimate of a conversation's tokens.
use crate::llm::{ChatContent, ChatContentPart, ChatMessage, ToolCall};
use crate::token_estimate::{
    cjk_count, count_cjk, is_cjk_char, lemma_cjk_count_all, lemma_cjk_count_le, lemma_cjk_count_none,
};
use vstd::prelude::*;

verus! {

pub const IMAGE_TOKEN_ESTIMATE: usize = 765;

/// The character rule of the overflow check: two CJK characters or four other
/// characters per token, rounded down.
pub open spec fn floor_tokens(s: Seq<char>) -> nat {
    cjk_count(s) / 2 + ((s.len() - cjk_count(s)) as nat) / 4
}

pub open spec fn part_tokens(p: ChatContentPart) -> nat {
    match p {
        ChatContentPart::Text { text } => floor_tokens(text@),
        ChatContentPart::ImageUrl { .. } => IMAGE_TOKEN_ESTIMATE as nat,
    }
}

pub open spec fn parts_tokens(ps: Seq<ChatContentPart>) -> nat
    decreases ps.len(),
{
    if ps.len() == 0 {
        0
    } else {
        parts_tokens(ps.drop_last()) + part_tokens(ps.last())
    }
}

pub open spec fn content_tokens(c: Option<ChatContent>) -> nat {
    match c {
        Some(ChatContent::Text(s)) => floor_tokens(s@),
        Some(ChatContent::Parts(ps)) => parts_tokens(ps@),
        None => 0,
    }
}

pub open spec fn calls_tokens(cs: Seq<ToolCall>) -> nat
    decreases cs.len(),
{
    if cs.len() == 0 {
        0
    } else {
        calls_tokens(cs.drop_last()) + floor_tokens(cs.last().function.name@) + floor_tokens(
            cs.last().function.arguments@,
        )
    }
}

/// Role, body and tool calls of one message, each by the character rule.
pub open spec fn message_token_count(m: ChatMessage) -> nat {
    floor_tokens(m.role@) + content_tokens(m.content) + match m.tool_calls {
        Some(cs) => calls_tokens(cs@),
        None => 0,
    }
}

pub open spec fn messages_token_count(ms: Seq<ChatMessage>) -> nat
    decreases ms.len(),
{
    if ms.len() == 0 {
        0
    } else {
        messages_token_count(ms.drop_last()) + message_token_count(ms.last())
    }
}

/// The character rule, rounded down (`text_tokens`).
pub fn text_tokens(text: &str) -> (n: usize)
    ensures
        n == floor_tokens(text@),
{
    let (cjk, all) = count_cjk(text);
    proof {
        lemma_cjk_count_le(text@);
    }
    cjk / 2 + (all - cjk) / 4
}

/// Estimated tokens of one text: the character rule, at least one.
pub fn estimate_tokens(text: &str) -> (n: usize)
    ensures
        n == if floor_tokens(text@) < 1 {
            1
        } else {
            floor_tokens(text@)
        },
        n >= 1,
{
    let n = text_tokens(text);
    if n < 1 {
        1
    } else {
        n
    }
}

/// Tokens of one message (`message_tokens`).
pub fn message_tokens(msg: &ChatMessage) -> (n: usize)
    requires
        message_token_count(*msg) <= usize::MAX,
    ensures
        n == message_token_count(*msg),
{
    let role_tokens = text_tokens(msg.role.as_str());
    let content_tokens: usize = match &msg.content {
        Some(ChatContent::Text(s)) => text_tokens(s.as_str()),
        Some(ChatContent::Parts(parts)) => {
            let mut sum: usize = 0;
            let mut i: usize = 0;
            while i < parts.len()
                invariant
                    0 <= i <= parts@.len(),
                    sum == parts_tokens(parts@.take(i as int)),
                    parts_tokens(parts@) + role_tokens <= usize::MAX,
                decreases parts.len() - i,
            {
                proof {
                    assert(parts@.take(i + 1).drop_last() =~= parts@.take(i as int));
                    lemma_parts_prefix(parts@, i + 1);
                }
                let t: usize = match &parts[i] {
                    ChatContentPart::Text { text } => text_tokens(text.as_str()),
                    ChatContentPart::ImageUrl { .. } => IMAGE_TOKEN_ESTIMATE,
                };
                sum = sum + t;
                i = i + 1;
            }
            proof {
                assert(parts@.take(parts@.len() as int) =~= parts@);
            }
            sum
        },
        None => 0,
    };
    let tool_tokens: usize = match &msg.tool_calls {
        Some(calls) => {
            let mut sum: usize = 0;
            let mut i: usize = 0;
            while i < calls.len()
                invariant
                    0 <= i <= calls@.len(),
                    sum == calls_tokens(calls@.take(i as int)),
                    calls_tokens(calls@) <= usize::MAX,
                decreases calls.len() - i,
            {
                proof {
                    assert(calls@.take(i + 1).drop_last() =~= calls@.take(i as int));
                    lemma_calls_prefix(calls@, i + 1);
                }
                let a = text_tokens(calls[i].function.name.as_str());
                let b = text_tokens(calls[i].function.arguments.as_str());
                sum = sum + a + b;
                i = i + 1;
            }
            proof {
                assert(calls@.take(calls@.len() as int) =~= calls@);
            }
            sum
        },
        None => 0,
    };
    role_tokens + content_tokens + tool_tokens
}

proof fn lemma_parts_prefix(ps: Seq<ChatContentPart>, k: int)
    requires
        0 <= k <= ps.len(),
    ensures
        parts_tokens(ps.take(k)) <= parts_tokens(ps),
    decreases ps.len() - k,
{
    if k < ps.len() {
        lemma_parts_prefix(ps, k + 1);
        assert(ps.take(k + 1).drop_last() =~= ps.take(k));
    } else {
        assert(ps.take(k) =~= ps);
    }
}

proof fn lemma_calls_prefix(cs: Seq<ToolCall>, k: int)
    requires
        0 <= k <= cs.len(),
    ensures
        calls_tokens(cs.take(k)) <= calls_tokens(cs),
    decreases cs.len() - k,
{
    if k < cs.len() {
        lemma_calls_prefix(cs, k + 1);
        assert(cs.take(k + 1).drop_last() =~= cs.take(k));
    } else {
        assert(cs.take(k) =~= cs);
    }
}

proof fn lemma_messages_prefix(ms: Seq<ChatMessage>, k: int)
    requires
        0 <= k <= ms.len(),
    ensures
        messages_token_count(ms.take(k)) <= messages_token_count(ms),
    decreases ms.len() - k,
{
    if k < ms.len() {
        lemma_messages_prefix(ms, k + 1);
        assert(ms.take(k + 1).drop_last() =~= ms.take(k));
    } else {
        assert(ms.take(k) =~= ms);
    }
}

/// Estimated tokens of a conversation: the sum over its messages, at least one.
pub fn estimate_messages_tokens(messages: &[ChatMessage]) -> (n: usize)
    requires
        messages_token_count(messages@) <= usize::MAX,
    ensures
        n == if messages_token_count(messages@) < 1 {
            1
        } else {
            messages_token_count(messages@)
        },
        n >= 1,
{
    let mut sum: usize = 0;
    let mut i: usize = 0;
    while i < messages.len()
        invariant
            0 <= i <= messages@.len(),
            sum == messages_token_count(messages@.take(i as int)),
            messages_token_count(messages@) <= usize::MAX,
        decreases messages.len() - i,
    {
        proof {
            assert(messages@.take(i + 1).drop_last() =~= messages@.take(i as int));
            lemma_messages_prefix(messages@, i + 1);
        }
        let t = message_tokens(&messages[i]);
        sum = sum + t;
        i = i + 1;
    }
    proof {
        assert(messages@.take(messages@.len() as int) =~= messages@);
    }
    if sum < 1 {
        1
    } else {
        sum
    }
}

/// A conversation counts what its messages count: split anywhere, the two parts
/// add up to the whole.
pub proof fn law_conversation_adds_up(a: Seq<ChatMessage>, b: Seq<ChatMessage>)
    ensures
        messages_token_count(a + b) == messages_token_count(a) + messages_token_count(b),
    decreases b.len(),
{
    if b.len() == 0 {
        assert(a + b =~= a);
    } else {
        law_conversation_adds_up(a, b.drop_last());
        assert((a + b).drop_last() =~= a + b.drop_last());
        assert((a + b).last() == b.last());
    }
}

/// The rule on uniform text, rounded down: CJK characters alone count a token for
/// every two, text without them a token for every four; an image counts 765.
pub proof fn law_floor_rule(s: Seq<char>, p: ChatContentPart)
    ensures
        (forall|i: int| 0 <= i < s.len() ==> is_cjk_char(#[trigger] s[i])) ==> floor_tokens(s)
            == s.len() / 2,
        (forall|i: int| 0 <= i < s.len() ==> !is_cjk_char(#[trigger] s[i])) ==> floor_tokens(s)
            == s.len() / 4,
        p is ImageUrl ==> part_tokens(p) == 765,
{
    if forall|i: int| 0 <= i < s.len() ==> is_cjk_char(#[trigger] s[i]) {
        lemma_cjk_count_all(s);
    }
    if forall|i: int| 0 <= i < s.len() ==> !is_cjk_char(#[trigger] s[i]) {
        lemma_cjk_count_none(s);
    }
}

} // verus!
