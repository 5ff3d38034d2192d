//! Token estimation: the OpenAI-family `o200k_base` BPE count, with a character rule
//! (two CJK characters or four other characters per token, rounded up) when no BPE
//! count is at hand.
use vstd::prelude::*;

verus! {

pub const CHARS_PER_TOKEN_LATIN: usize = 4;

pub const CHARS_PER_TOKEN_CJK: usize = 2;

/// CJK ideographs (and extensions A and B), kana, Hangul syllables and fullwidth forms.
pub open spec fn is_cjk_char(c: char) -> bool {
    let u = c as u32;
    (0x4E00 <= u && u <= 0x9FFF) || (0x3400 <= u && u <= 0x4DBF) || (0x20000 <= u && u
        <= 0x2A6DF) || (0x3040 <= u && u <= 0x30FF) || (0xAC00 <= u && u <= 0xD7AF) || (0xFF00
        <= u && u <= 0xFFEF)
}

/// Number of CJK characters in `s`.
pub open spec fn cjk_count(s: Seq<char>) -> nat
    decreases s.len(),
{
    if s.len() == 0 {
        0
    } else {
        cjk_count(s.drop_last()) + if is_cjk_char(s.last()) {
            1nat
        } else {
            0nat
        }
    }
}

pub proof fn lemma_cjk_count_le(s: Seq<char>)
    ensures
        cjk_count(s) <= s.len(),
    decreases s.len(),
{
    if s.len() > 0 {
        lemma_cjk_count_le(s.drop_last());
    }
}

/// `a.div_ceil(b)`.
pub open spec fn ceil_div(a: nat, b: nat) -> nat {
    ((a + b - 1) as nat) / b
}

/// The character rule: CJK characters in pairs, the others in fours, each rounded up.
pub open spec fn char_rule_tokens(s: Seq<char>) -> nat {
    ceil_div(cjk_count(s), 2) + ceil_div((s.len() - cjk_count(s)) as nat, 4)
}

/// The estimate for `s` given the BPE count (or its absence): zero for empty text,
/// otherwise the count, at least one.
pub open spec fn estimate(s: Seq<char>, bpe: Option<usize>) -> nat {
    if s.len() == 0 {
        0
    } else {
        let n = match bpe {
            Some(n) => n as nat,
            None => char_rule_tokens(s),
        };
        if n < 1 {
            1
        } else {
            n
        }
    }
}

/// What the `o200k_base` encoder counts for a text with no special token allowed
/// (`CoreBPE::count`); `None` where the encoder reports an error (its regex engine
/// gives up on the text).
pub uninterp spec fn o200k_count_result(text: Seq<char>) -> Option<usize>;

/// `tiktoken_rs::o200k_base_singleton().count(text, &HashSet::new())`.
///
/// Trusted: the count of tokens that `o200k_base` encodes the text into, every
/// special token taken as ordinary text, or the encoder's error (here `None`), a
/// function of the text alone. The search for special tokens uses a literal pattern,
/// which never reports an error.
#[verifier::external_body]
fn o200k_count(text: &str) -> (r: Option<usize>)
    ensures
        r == o200k_count_result(text@),
{
    tiktoken_rs::o200k_base_singleton().count(text, &std::collections::HashSet::new()).ok()
}

pub fn is_cjk(ch: char) -> (b: bool)
    ensures
        b == is_cjk_char(ch),
{
    let u = ch as u32;
    (0x4E00 <= u && u <= 0x9FFF) || (0x3400 <= u && u <= 0x4DBF) || (0x20000 <= u && u
        <= 0x2A6DF) || (0x3040 <= u && u <= 0x30FF) || (0xAC00 <= u && u <= 0xD7AF) || (0xFF00
        <= u && u <= 0xFFEF)
}

/// Counts the CJK characters of `text` and all its characters.
pub fn count_cjk(text: &str) -> (r: (usize, usize))
    ensures
        r.0 == cjk_count(text@),
        r.1 == text@.len(),
{
    let cs = crate::text::chars_of(text);
    let mut cjk: usize = 0;
    let mut i: usize = 0;
    while i < cs.len()
        invariant
            0 <= i <= cs@.len(),
            cs@ == text@,
            cjk == cjk_count(cs@.take(i as int)),
            cjk <= i,
        decreases cs.len() - i,
    {
        proof {
            assert(cs@.take(i + 1).drop_last() =~= cs@.take(i as int));
        }
        if is_cjk(cs[i]) {
            cjk = cjk + 1;
        }
        i = i + 1;
    }
    proof {
        assert(cs@.take(cs@.len() as int) =~= cs@);
    }
    (cjk, cs.len())
}

/// The character rule (`text_tokens`).
pub fn text_tokens(text: &str) -> (n: usize)
    ensures
        n == char_rule_tokens(text@),
{
    let (cjk, all) = count_cjk(text);
    proof {
        lemma_cjk_count_le(text@);
    }
    let latin = all - cjk;
    cjk / CHARS_PER_TOKEN_CJK + (cjk % CHARS_PER_TOKEN_CJK != 0) as usize + latin
        / CHARS_PER_TOKEN_LATIN + (latin % CHARS_PER_TOKEN_LATIN != 0) as usize
}

/// The estimate for `text` from a BPE count that was taken (`Some`) or failed (`None`).
pub fn estimate_tokens_with(text: &str, bpe: Option<usize>) -> (n: usize)
    ensures
        n == estimate(text@, bpe),
{
    if text.is_empty() {
        return 0;
    }
    let n = match bpe {
        Some(n) => n,
        None => text_tokens(text),
    };
    if n < 1 {
        1
    } else {
        n
    }
}

/// Estimated token count of one text: zero for empty text, otherwise the `o200k_base`
/// count, or the character rule when the encoder fails, and at least one.
pub fn estimate_tokens(text: &str) -> (n: usize)
    ensures
        n == estimate(text@, o200k_count_result(text@)),
        text@.len() == 0 <==> n == 0,
{
    if text.is_empty() {
        return 0;
    }
    let bpe = o200k_count(text);
    estimate_tokens_with(text, bpe)
}

/// The characters of all texts, one after the other.
pub open spec fn concat_all(texts: Seq<&str>) -> Seq<char>
    decreases texts.len(),
{
    if texts.len() == 0 {
        seq![]
    } else {
        concat_all(texts.drop_last()) + texts.last()@
    }
}

/// Estimated token count of several texts taken together: the estimate of their
/// concatenation.
pub fn estimate_texts_tokens(texts: &[&str]) -> (n: u64)
    ensures
        n == estimate(concat_all(texts@), o200k_count_result(concat_all(texts@))),
{
    let mut combined: Vec<char> = Vec::new();
    let mut i: usize = 0;
    while i < texts.len()
        invariant
            0 <= i <= texts@.len(),
            combined@ == concat_all(texts@.take(i as int)),
        decreases texts.len() - i,
    {
        crate::text::push_str(&mut combined, texts[i]);
        i = i + 1;
        proof {
            assert(texts@.take(i as int).drop_last() =~= texts@.take(i - 1));
        }
    }
    proof {
        assert(texts@.take(texts@.len() as int) =~= texts@);
    }
    let s = crate::text::string_of(combined.as_slice());
    let n = estimate_tokens(s.as_str());
    n as u64
}

/// The estimate of a text is zero only for empty text; otherwise it is the encoder's
/// count, or the character rule when the encoder fails, and at least one.
pub proof fn law_estimate_falls_back(s: Seq<char>)
    ensures
        s.len() == 0 ==> estimate(s, o200k_count_result(s)) == 0,
        s.len() > 0 ==> estimate(s, o200k_count_result(s)) >= 1,
        s.len() > 0 && o200k_count_result(s) is None ==> estimate(s, o200k_count_result(s)) == if char_rule_tokens(s) < 1 {
            1
        } else {
            char_rule_tokens(s)
        },
{
}

/// CJK characters counted one by one, for a text made of them alone.
pub proof fn lemma_cjk_count_all(s: Seq<char>)
    requires
        forall|i: int| 0 <= i < s.len() ==> is_cjk_char(#[trigger] s[i]),
    ensures
        cjk_count(s) == s.len(),
    decreases s.len(),
{
    if s.len() > 0 {
        lemma_cjk_count_all(s.drop_last());
    }
}

/// No CJK character counted, for a text without any.
pub proof fn lemma_cjk_count_none(s: Seq<char>)
    requires
        forall|i: int| 0 <= i < s.len() ==> !is_cjk_char(#[trigger] s[i]),
    ensures
        cjk_count(s) == 0,
    decreases s.len(),
{
    if s.len() > 0 {
        lemma_cjk_count_none(s.drop_last());
    }
}

/// The character rule on uniform text: a text of CJK ideographs (U+4E00 to U+9FFF
/// and extensions A, U+3400 to U+4DBF, and B, U+20000 to U+2A6DF), kana (U+3040 to
/// U+30FF), Hangul syllables (U+AC00 to U+D7AF) or fullwidth forms (U+FF00 to U+FFEF)
/// alone counts a token for every two characters, and a text with none of them a
/// token for every four, each rounded up.
pub proof fn law_char_rule(s: Seq<char>)
    ensures
        (forall|i: int|
            #![trigger s[i]]
            0 <= i < s.len() ==> {
                let u = s[i] as u32;
                (0x4E00 <= u <= 0x9FFF) || (0x3400 <= u <= 0x4DBF) || (0x20000 <= u <= 0x2A6DF) || (
                0x3040 <= u <= 0x30FF) || (0xAC00 <= u <= 0xD7AF) || (0xFF00 <= u <= 0xFFEF)
            }) ==> char_rule_tokens(s) == (s.len() + 1) / 2,
        (forall|i: int|
            #![trigger s[i]]
            0 <= i < s.len() ==> {
                let u = s[i] as u32;
                !((0x4E00 <= u <= 0x9FFF) || (0x3400 <= u <= 0x4DBF) || (0x20000 <= u <= 0x2A6DF)
                    || (0x3040 <= u <= 0x30FF) || (0xAC00 <= u <= 0xD7AF) || (0xFF00 <= u
                    <= 0xFFEF))
            }) ==> char_rule_tokens(s) == (s.len() + 3) / 4,
{
    if forall|i: int| 0 <= i < s.len() ==> is_cjk_char(#[trigger] s[i]) {
        lemma_cjk_count_all(s);
    }
    if forall|i: int| 0 <= i < s.len() ==> !is_cjk_char(#[trigger] s[i]) {
        lemma_cjk_count_none(s);
    }
}

} // verus!
