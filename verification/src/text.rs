//! Character-level text operations shared by the tools.
//!
//! Text is modelled as a sequence of Unicode scalar values (`Seq<char>`), which is
//! also the view that vstd gives to `str` and `String`. Every operation here mirrors
//! the behaviour of the corresponding `str` method of the standard library and states
//! it over that model.
use vstd::prelude::*;

verus! {

// ---------------------------------------------------------------------------
// Character classes
// ---------------------------------------------------------------------------

/// Unicode `White_Space`, the property behind `char::is_whitespace`.
pub open spec fn is_ws(c: char) -> bool {
    let u = c as u32;
    (9 <= u && u <= 13) || u == 32 || u == 0x85 || u == 0xa0 || u == 0x1680 || (0x2000 <= u
        && u <= 0x200a) || u == 0x2028 || u == 0x2029 || u == 0x202f || u == 0x205f || u
        == 0x3000
}

pub open spec fn is_ascii_alnum(c: char) -> bool {
    let u = c as u32;
    (48 <= u && u <= 57) || (65 <= u && u <= 90) || (97 <= u && u <= 122)
}

pub open spec fn is_ascii_alpha(c: char) -> bool {
    let u = c as u32;
    (65 <= u && u <= 90) || (97 <= u && u <= 122)
}

pub open spec fn is_ascii_hex(c: char) -> bool {
    let u = c as u32;
    (48 <= u && u <= 57) || (65 <= u && u <= 70) || (97 <= u && u <= 102)
}

/// `char::to_ascii_lowercase`.
pub open spec fn lower_char(c: char) -> char {
    let u = c as u32;
    if 65 <= u && u <= 90 {
        ((u + 32) as u32) as char
    } else {
        c
    }
}

/// `str::to_ascii_lowercase`.
pub open spec fn lower(s: Seq<char>) -> Seq<char> {
    s.map_values(|c: char| lower_char(c))
}

/// A set of characters that the trimming operations strip.
#[derive(Clone, Copy)]
pub enum CharSet {
    Whitespace,
    Only(char),
}

pub open spec fn in_set(set: CharSet, c: char) -> bool {
    match set {
        CharSet::Whitespace => is_ws(c),
        CharSet::Only(x) => c == x,
    }
}

pub fn is_whitespace(c: char) -> (b: bool)
    ensures
        b == is_ws(c),
{
    let u = c as u32;
    (9 <= u && u <= 13) || u == 32 || u == 0x85 || u == 0xa0 || u == 0x1680 || (0x2000 <= u
        && u <= 0x200a) || u == 0x2028 || u == 0x2029 || u == 0x202f || u == 0x205f || u
        == 0x3000
}

pub fn is_alnum(c: char) -> (b: bool)
    ensures
        b == is_ascii_alnum(c),
{
    let u = c as u32;
    (48 <= u && u <= 57) || (65 <= u && u <= 90) || (97 <= u && u <= 122)
}

pub fn is_alpha(c: char) -> (b: bool)
    ensures
        b == is_ascii_alpha(c),
{
    let u = c as u32;
    (65 <= u && u <= 90) || (97 <= u && u <= 122)
}

pub fn is_hex_digit(c: char) -> (b: bool)
    ensures
        b == is_ascii_hex(c),
{
    let u = c as u32;
    (48 <= u && u <= 57) || (65 <= u && u <= 70) || (97 <= u && u <= 102)
}

pub fn lower_one(c: char) -> (r: char)
    ensures
        r == lower_char(c),
{
    let u = c as u32;
    if 65 <= u && u <= 90 {
        let l: u32 = u + 32;
        proof {
            assert(l == (u + 32) as u32);
        }
        char_from_ascii(l)
    } else {
        c
    }
}

fn char_from_ascii(u: u32) -> (c: char)
    requires
        u < 128,
    ensures
        c == (u as char),
{
    let b: u8 = u as u8;
    b as char
}

pub fn in_char_set(set: CharSet, c: char) -> (b: bool)
    ensures
        b == in_set(set, c),
{
    match set {
        CharSet::Whitespace => is_whitespace(c),
        CharSet::Only(x) => c == x,
    }
}

// ---------------------------------------------------------------------------
// Conversions between `str`/`String` and character vectors
// ---------------------------------------------------------------------------

/// The characters of `s`, in order.
pub fn chars_of(s: &str) -> (v: Vec<char>)
    ensures
        v@ == s@,
{
    let mut v: Vec<char> = Vec::new();
    for c in it: s.chars()
        invariant
            v@ == it.seq().take(it.index() as int),
    {
        v.push(c);
    }
    v
}

/// Collects characters into a `String` (`FromIterator<char>` for `String`).
///
/// Trusted: std's `String: FromIterator<char>` appends every character in order,
/// so the string's characters are exactly `cs`.
#[verifier::external_body]
pub(crate) fn string_of(cs: &[char]) -> (s: String)
    ensures
        s@ == cs@,
{
    cs.iter().collect()
}

/// Copies `s[a..b]`.
pub fn copy_range(s: &[char], a: usize, b: usize) -> (v: Vec<char>)
    requires
        a <= b <= s@.len(),
    ensures
        v@ == s@.subrange(a as int, b as int),
{
    let mut v: Vec<char> = Vec::new();
    let mut i: usize = a;
    while i < b
        invariant
            a <= i <= b <= s@.len(),
            v@ == s@.subrange(a as int, i as int),
        decreases b - i,
    {
        v.push(s[i]);
        i = i + 1;
        proof {
            assert(v@ =~= s@.subrange(a as int, i as int));
        }
    }
    v
}

/// Appends `t` to `v`.
pub fn push_all(v: &mut Vec<char>, t: &[char])
    ensures
        final(v)@ == old(v)@ + t@,
{
    let ghost v0 = v@;
    let mut i: usize = 0;
    while i < t.len()
        invariant
            0 <= i <= t@.len(),
            v@ == v0 + t@.take(i as int),
        decreases t.len() - i,
    {
        v.push(t[i]);
        i = i + 1;
        proof {
            assert(v@ =~= v0 + t@.take(i as int));
        }
    }
    proof {
        assert(t@.take(t@.len() as int) =~= t@);
    }
}

/// Appends the characters of a string literal or other `str` to `v`.
pub fn push_str(v: &mut Vec<char>, t: &str)
    ensures
        final(v)@ == old(v)@ + t@,
{
    let cs = chars_of(t);
    push_all(v, cs.as_slice());
}

/// `str::to_ascii_lowercase`.
pub fn to_lower(s: &[char]) -> (r: Vec<char>)
    ensures
        r@ == lower(s@),
{
    let mut r: Vec<char> = Vec::new();
    let mut i: usize = 0;
    while i < s.len()
        invariant
            0 <= i <= s@.len(),
            r@ == lower(s@.take(i as int)),
        decreases s.len() - i,
    {
        let c = lower_one(s[i]);
        r.push(c);
        i = i + 1;
        proof {
            assert(r@ =~= lower(s@.take(i as int)));
        }
    }
    proof {
        assert(s@.take(s@.len() as int) =~= s@);
    }
    r
}

// ---------------------------------------------------------------------------
// Trimming
// ---------------------------------------------------------------------------

/// `str::trim_start_matches` with a character class.
pub open spec fn trim_start_set(s: Seq<char>, set: CharSet) -> Seq<char>
    decreases s.len(),
{
    if s.len() > 0 && in_set(set, s[0]) {
        trim_start_set(s.drop_first(), set)
    } else {
        s
    }
}

/// `str::trim_end_matches` with a character class.
pub open spec fn trim_end_set(s: Seq<char>, set: CharSet) -> Seq<char>
    decreases s.len(),
{
    if s.len() > 0 && in_set(set, s.last()) {
        trim_end_set(s.drop_last(), set)
    } else {
        s
    }
}

/// `str::trim_matches` with a character class.
pub open spec fn trim_set(s: Seq<char>, set: CharSet) -> Seq<char> {
    trim_end_set(trim_start_set(s, set), set)
}

/// `str::trim`.
pub open spec fn trim(s: Seq<char>) -> Seq<char> {
    trim_set(s, CharSet::Whitespace)
}

pub proof fn lemma_trim_start_skip(s: Seq<char>, set: CharSet, i: int)
    requires
        0 <= i <= s.len(),
        forall|k: int| 0 <= k < i ==> in_set(set, #[trigger] s[k]),
        i == s.len() || !in_set(set, s[i]),
    ensures
        trim_start_set(s, set) == s.skip(i),
    decreases i,
{
    if i == 0 {
        assert(s.skip(0) =~= s);
    } else {
        let t = s.drop_first();
        assert forall|k: int| 0 <= k < i - 1 implies in_set(set, #[trigger] t[k]) by {
            assert(t[k] == s[k + 1]);
        }
        lemma_trim_start_skip(t, set, i - 1);
        assert(t.skip(i - 1) =~= s.skip(i));
    }
}

pub proof fn lemma_trim_end_take(s: Seq<char>, set: CharSet, j: int)
    requires
        0 <= j <= s.len(),
        forall|k: int| j <= k < s.len() ==> in_set(set, #[trigger] s[k]),
        j == 0 || !in_set(set, s[j - 1]),
    ensures
        trim_end_set(s, set) == s.take(j),
    decreases s.len() - j,
{
    if j == s.len() {
        assert(s.take(j) =~= s);
    } else {
        let t = s.drop_last();
        assert forall|k: int| j <= k < t.len() implies in_set(set, #[trigger] t[k]) by {
            assert(t[k] == s[k]);
        }
        lemma_trim_end_take(t, set, j);
        assert(t.take(j) =~= s.take(j));
    }
}

/// Index of the first character of `s[from..]` outside `set`, or `s.len()`.
fn skip_set_forward(s: &[char], set: CharSet) -> (i: usize)
    ensures
        0 <= i <= s@.len(),
        forall|k: int| 0 <= k < i ==> in_set(set, #[trigger] s@[k]),
        i == s@.len() || !in_set(set, s@[i as int]),
{
    let mut i: usize = 0;
    while i < s.len() && in_char_set(set, s[i])
        invariant
            0 <= i <= s@.len(),
            forall|k: int| 0 <= k < i ==> in_set(set, #[trigger] s@[k]),
        decreases s.len() - i,
    {
        i = i + 1;
    }
    i
}

/// `str::trim_matches` with a character class.
pub fn trim_chars(s: &[char], set: CharSet) -> (r: Vec<char>)
    ensures
        r@ == trim_set(s@, set),
{
    let i = skip_set_forward(s, set);
    let mut j: usize = s.len();
    while j > i && in_char_set(set, s[j - 1])
        invariant
            i <= j <= s@.len(),
            forall|k: int| j <= k < s@.len() ==> in_set(set, #[trigger] s@[k]),
        decreases j,
    {
        j = j - 1;
    }
    proof {
        lemma_trim_start_skip(s@, set, i as int);
        let t = s@.skip(i as int);
        assert forall|k: int| (j - i) <= k < t.len() implies in_set(set, #[trigger] t[k]) by {
            assert(t[k] == s@[k + i]);
        }
        if j > i {
            assert(t[j - i - 1] == s@[j - 1]);
        }
        lemma_trim_end_take(t, set, j - i);
        assert(t.take(j - i) =~= s@.subrange(i as int, j as int));
    }
    copy_range(s, i, j)
}

/// `str::trim_start_matches` with a character class.
pub fn trim_start_chars(s: &[char], set: CharSet) -> (r: Vec<char>)
    ensures
        r@ == trim_start_set(s@, set),
{
    let i = skip_set_forward(s, set);
    proof {
        lemma_trim_start_skip(s@, set, i as int);
        assert(s@.skip(i as int) =~= s@.subrange(i as int, s@.len() as int));
    }
    copy_range(s, i, s.len())
}

/// `str::trim_end_matches` with a character class.
pub fn trim_end_chars(s: &[char], set: CharSet) -> (r: Vec<char>)
    ensures
        r@ == trim_end_set(s@, set),
{
    let mut j: usize = s.len();
    while j > 0 && in_char_set(set, s[j - 1])
        invariant
            j <= s@.len(),
            forall|k: int| j <= k < s@.len() ==> in_set(set, #[trigger] s@[k]),
        decreases j,
    {
        j = j - 1;
    }
    proof {
        lemma_trim_end_take(s@, set, j as int);
        assert(s@.take(j as int) =~= s@.subrange(0, j as int));
    }
    copy_range(s, 0, j)
}

/// `str::trim`.
pub fn trim_ws(s: &[char]) -> (r: Vec<char>)
    ensures
        r@ == trim(s@),
{
    trim_chars(s, CharSet::Whitespace)
}


// ---------------------------------------------------------------------------
// Searching
// ---------------------------------------------------------------------------

/// `n` occurs in `h` at position `i`.
pub open spec fn match_at(h: Seq<char>, n: Seq<char>, i: int) -> bool {
    0 <= i && i + n.len() <= h.len() && h.subrange(i, i + n.len()) == n
}

/// The first position at or after `i` where `n` occurs in `h`.
pub open spec fn find_from(h: Seq<char>, n: Seq<char>, i: nat) -> Option<int>
    decreases h.len() + 1 - i,
{
    if i > h.len() {
        None
    } else if match_at(h, n, i as int) {
        Some(i as int)
    } else {
        find_from(h, n, i + 1)
    }
}

/// `str::find` with a string pattern.
pub open spec fn find(h: Seq<char>, n: Seq<char>) -> Option<int> {
    find_from(h, n, 0)
}

/// `str::contains` with a string pattern.
pub open spec fn contains(h: Seq<char>, n: Seq<char>) -> bool {
    find(h, n) is Some
}

/// `str::starts_with`.
pub open spec fn starts_with(s: Seq<char>, p: Seq<char>) -> bool {
    match_at(s, p, 0)
}

/// `str::ends_with`.
pub open spec fn ends_with(s: Seq<char>, p: Seq<char>) -> bool {
    p.len() <= s.len() && match_at(s, p, s.len() - p.len())
}

pub proof fn lemma_find_from_ensures(h: Seq<char>, n: Seq<char>, i: nat)
    ensures
        match find_from(h, n, i) {
            Some(k) => i <= k && match_at(h, n, k) && forall|j: int|
                i <= j < k ==> !#[trigger] match_at(h, n, j),
            None => forall|j: int| i <= j ==> !#[trigger] match_at(h, n, j),
        },
    decreases h.len() + 1 - i,
{
    if i > h.len() {
    } else if match_at(h, n, i as int) {
    } else {
        lemma_find_from_ensures(h, n, i + 1);
    }
}

/// `find` is the least position where `n` occurs.
pub proof fn lemma_find_ensures(h: Seq<char>, n: Seq<char>)
    ensures
        match find(h, n) {
            Some(k) => match_at(h, n, k) && forall|j: int| 0 <= j < k ==> !#[trigger] match_at(h, n, j),
            None => forall|j: int| !#[trigger] match_at(h, n, j),
        },
{
    lemma_find_from_ensures(h, n, 0);
}

/// Whether `n` occurs in `h` at position `i`.
pub fn matches_at(h: &[char], n: &[char], i: usize) -> (b: bool)
    ensures
        b == match_at(h@, n@, i as int),
{
    if i > h.len() || n.len() > h.len() - i {
        return false;
    }
    let mut k: usize = 0;
    while k < n.len()
        invariant
            i + n@.len() <= h@.len(),
            h@.len() == h.len(),
            0 <= k <= n@.len(),
            forall|m: int| 0 <= m < k ==> h@[i + m] == n@[m],
        decreases n.len() - k,
    {
        let j: usize = i + k;
        if h[j] != n[k] {
            proof {
                assert(h@.subrange(i as int, i + n@.len())[k as int] != n@[k as int]);
            }
            return false;
        }
        k = k + 1;
    }
    proof {
        assert(h@.subrange(i as int, i + n@.len()) =~= n@);
    }
    true
}

/// `str::starts_with`.
pub fn has_prefix(s: &[char], p: &[char]) -> (b: bool)
    ensures
        b == starts_with(s@, p@),
{
    matches_at(s, p, 0)
}

/// `str::ends_with`.
pub fn has_suffix(s: &[char], p: &[char]) -> (b: bool)
    ensures
        b == ends_with(s@, p@),
{
    if p.len() > s.len() {
        false
    } else {
        matches_at(s, p, s.len() - p.len())
    }
}

/// `str::find` with a string pattern.
pub fn find_in(h: &[char], n: &[char]) -> (r: Option<usize>)
    ensures
        r matches Some(k) ==> find(h@, n@) == Some(k as int) && k + n@.len() <= h@.len(),
        r is None ==> find(h@, n@) is None,
{
    proof {
        lemma_find_ensures(h@, n@);
    }
    let mut i: usize = 0;
    loop
        invariant
            0 <= i <= h@.len(),
            find(h@, n@) == find_from(h@, n@, i as nat),
        decreases h.len() - i,
    {
        if matches_at(h, n, i) {
            return Some(i);
        }
        if i == h.len() {
            assert(find_from(h@, n@, (i + 1) as nat) is None);
            return None;
        }
        i = i + 1;
    }
}

/// `str::contains` with a string pattern.
pub fn contains_seq(h: &[char], n: &[char]) -> (b: bool)
    ensures
        b == contains(h@, n@),
{
    find_in(h, n).is_some()
}

/// `str::contains` with a literal pattern.
pub fn contains_str(h: &[char], n: &str) -> (b: bool)
    ensures
        b == contains(h@, n@),
{
    let nc = chars_of(n);
    contains_seq(h, nc.as_slice())
}

/// `str::starts_with` with a literal pattern.
pub fn starts_with_str(s: &[char], p: &str) -> (b: bool)
    ensures
        b == starts_with(s@, p@),
{
    let pc = chars_of(p);
    has_prefix(s, pc.as_slice())
}

/// `str::ends_with` with a literal pattern.
pub fn ends_with_str(s: &[char], p: &str) -> (b: bool)
    ensures
        b == ends_with(s@, p@),
{
    let pc = chars_of(p);
    has_suffix(s, pc.as_slice())
}

/// Character-wise equality with a literal.
pub fn eq_str(s: &[char], t: &str) -> (b: bool)
    ensures
        b == (s@ == t@),
{
    let tc = chars_of(t);
    if s.len() != tc.len() {
        return false;
    }
    let r = has_prefix(s, tc.as_slice());
    proof {
        assert(s@ =~= s@.subrange(0, tc@.len() as int));
    }
    r
}

/// Character-wise equality.
pub fn eq_chars(s: &[char], t: &[char]) -> (b: bool)
    ensures
        b == (s@ == t@),
{
    if s.len() != t.len() {
        return false;
    }
    let r = has_prefix(s, t);
    proof {
        assert(s@ =~= s@.subrange(0, t@.len() as int));
    }
    r
}


// ---------------------------------------------------------------------------
// Splitting and joining
// ---------------------------------------------------------------------------

/// Index of the first character of `s` in `set`, or `s.len()` when there is none.
pub open spec fn set_pos(s: Seq<char>, set: CharSet) -> int
    decreases s.len(),
{
    if s.len() == 0 {
        0
    } else if in_set(set, s[0]) {
        0
    } else {
        1 + set_pos(s.drop_first(), set)
    }
}

pub proof fn lemma_set_pos(s: Seq<char>, set: CharSet)
    ensures
        0 <= set_pos(s, set) <= s.len(),
        forall|k: int| 0 <= k < set_pos(s, set) ==> !in_set(set, #[trigger] s[k]),
        set_pos(s, set) < s.len() ==> in_set(set, s[set_pos(s, set)]),
    decreases s.len(),
{
    if s.len() > 0 && !in_set(set, s[0]) {
        let t = s.drop_first();
        lemma_set_pos(t, set);
        assert forall|k: int| 0 <= k < set_pos(s, set) implies !in_set(set, #[trigger] s[k]) by {
            if k > 0 {
                assert(s[k] == t[k - 1]);
            }
        }
    }
}

pub proof fn lemma_set_pos_is(s: Seq<char>, set: CharSet, p: int)
    requires
        0 <= p <= s.len(),
        forall|k: int| 0 <= k < p ==> !in_set(set, #[trigger] s[k]),
        p == s.len() || in_set(set, s[p]),
    ensures
        set_pos(s, set) == p,
{
    lemma_set_pos(s, set);
    let q = set_pos(s, set);
    if q < p {
        assert(!in_set(set, s[q]));
    } else if p < q {
        assert(!in_set(set, s[p]));
    }
}

/// A text that neither starts nor ends with whitespace is its own trim.
pub proof fn lemma_trim_fixed(k: Seq<char>)
    requires
        k.len() > 0,
        !is_ws(k[0]),
        !is_ws(k.last()),
    ensures
        trim(k) == k,
{
    lemma_trim_start_skip(k, CharSet::Whitespace, 0);
    assert(k.skip(0) =~= k);
}

pub proof fn lemma_trim_start_len(s: Seq<char>, set: CharSet)
    ensures
        trim_start_set(s, set).len() <= s.len(),
        trim_start_set(s, set).len() > 0 ==> !in_set(set, trim_start_set(s, set)[0]),
    decreases s.len(),
{
    if s.len() > 0 && in_set(set, s[0]) {
        lemma_trim_start_len(s.drop_first(), set);
    }
}

/// `\r` removed from the end of a line, as `str::lines` does before a `\n`.
pub open spec fn strip_cr(l: Seq<char>) -> Seq<char> {
    if l.len() > 0 && l.last() == '\r' {
        l.drop_last()
    } else {
        l
    }
}

/// `str::lines`: pieces split at `\n`, a `\r` before it removed, no empty last piece.
pub open spec fn lines(s: Seq<char>) -> Seq<Seq<char>>
    decreases s.len(),
{
    if s.len() == 0 {
        seq![]
    } else {
        let p = set_pos(s, CharSet::Only('\n'));
        if p >= s.len() {
            seq![s]
        } else {
            proof {
                lemma_set_pos(s, CharSet::Only('\n'));
            }
            seq![strip_cr(s.take(p))] + lines(s.skip(p + 1))
        }
    }
}

/// `str::split_whitespace`.
pub open spec fn words(s: Seq<char>) -> Seq<Seq<char>>
    decreases s.len(),
{
    let t = trim_start_set(s, CharSet::Whitespace);
    if t.len() == 0 {
        seq![]
    } else {
        proof {
            lemma_trim_start_len(s, CharSet::Whitespace);
            lemma_set_pos(t, CharSet::Whitespace);
        }
        let p = set_pos(t, CharSet::Whitespace);
        if p >= 1 {
            seq![t.take(p)] + words(t.skip(p))
        } else {
            seq![]
        }
    }
}

/// `[..].join(sep)`.
pub open spec fn join(parts: Seq<Seq<char>>, sep: Seq<char>) -> Seq<char>
    decreases parts.len(),
{
    if parts.len() == 0 {
        seq![]
    } else if parts.len() == 1 {
        parts[0]
    } else {
        join(parts.drop_last(), sep) + sep + parts.last()
    }
}

/// The views of a vector of character vectors.
pub open spec fn views(v: Seq<Vec<char>>) -> Seq<Seq<char>> {
    v.map_values(|l: Vec<char>| l@)
}

/// `str::lines`.
pub fn split_lines(s: &[char]) -> (r: Vec<Vec<char>>)
    ensures
        views(r@) == lines(s@),
{
    let mut r: Vec<Vec<char>> = Vec::new();
    let mut start: usize = 0;
    proof {
        assert(s@.skip(0) =~= s@);
    }
    while start < s.len()
        invariant
            0 <= start <= s@.len(),
            lines(s@) == views(r@) + lines(s@.skip(start as int)),
        decreases s.len() - start,
    {
        let ghost rest = s@.skip(start as int);
        let mut j: usize = start;
        while j < s.len() && s[j] != '\n'
            invariant
                start <= j <= s@.len(),
                forall|k: int| start <= k < j ==> s@[k] != '\n',
            decreases s.len() - j,
        {
            j = j + 1;
        }
        proof {
            assert forall|k: int| 0 <= k < j - start implies !in_set(
                CharSet::Only('\n'),
                #[trigger] rest[k],
            ) by {
                assert(rest[k] == s@[start + k]);
            }
            lemma_set_pos_is(rest, CharSet::Only('\n'), j - start);
        }
        if j == s.len() {
            let line = copy_range(s, start, j);
            proof {
                assert(line@ =~= rest);
                assert(views(r@.push(line)) =~= views(r@) + seq![line@]);
                assert(lines(s@.skip(s@.len() as int)) =~= Seq::<Seq<char>>::empty());
            }
            r.push(line);
            start = j;
            proof {
                assert(lines(s@) =~= views(r@) + lines(s@.skip(start as int)));
            }
        } else {
            let mut end: usize = j;
            if end > start && s[end - 1] == '\r' {
                end = end - 1;
            }
            let line = copy_range(s, start, end);
            proof {
                assert(line@ =~= strip_cr(rest.take(j - start)));
                assert(rest.skip(j - start + 1) =~= s@.skip(j + 1));
                assert(views(r@.push(line)) =~= views(r@) + seq![line@]);
            }
            r.push(line);
            start = j + 1;
            proof {
                assert(lines(s@) =~= views(r@) + lines(s@.skip(start as int)));
            }
        }
    }
    proof {
        assert(lines(s@.skip(start as int)) =~= Seq::<Seq<char>>::empty());
        assert(views(r@) + Seq::<Seq<char>>::empty() =~= views(r@));
    }
    r
}

/// `str::split_whitespace`.
pub fn split_words(s: &[char]) -> (r: Vec<Vec<char>>)
    ensures
        views(r@) == words(s@),
{
    let mut r: Vec<Vec<char>> = Vec::new();
    let mut i: usize = 0;
    proof {
        assert(s@.skip(0) =~= s@);
    }
    while i < s.len()
        invariant
            0 <= i <= s@.len(),
            words(s@) == views(r@) + words(s@.skip(i as int)),
        decreases s.len() - i,
    {
        let ghost rest = s@.skip(i as int);
        let mut a: usize = i;
        while a < s.len() && is_whitespace(s[a])
            invariant
                i <= a <= s@.len(),
                forall|k: int| i <= k < a ==> is_ws(s@[k]),
            decreases s.len() - a,
        {
            a = a + 1;
        }
        proof {
            assert forall|k: int| 0 <= k < a - i implies in_set(
                CharSet::Whitespace,
                #[trigger] rest[k],
            ) by {
                assert(rest[k] == s@[i + k]);
            }
            lemma_trim_start_skip(rest, CharSet::Whitespace, a - i);
            assert(rest.skip(a - i) =~= s@.skip(a as int));
        }
        if a == s.len() {
            proof {
                assert(words(rest) =~= Seq::<Seq<char>>::empty());
                assert(views(r@) + Seq::<Seq<char>>::empty() =~= views(r@));
                assert(words(s@.skip(a as int)) =~= Seq::<Seq<char>>::empty());
            }
            i = a;
        } else {
            let ghost t = s@.skip(a as int);
            let mut b: usize = a;
            while b < s.len() && !is_whitespace(s[b])
                invariant
                    a <= b <= s@.len(),
                    forall|k: int| a <= k < b ==> !is_ws(s@[k]),
                decreases s.len() - b,
            {
                b = b + 1;
            }
            proof {
                assert forall|k: int| 0 <= k < b - a implies !in_set(
                    CharSet::Whitespace,
                    #[trigger] t[k],
                ) by {
                    assert(t[k] == s@[a + k]);
                }
                lemma_set_pos_is(t, CharSet::Whitespace, b - a);
                assert(t.skip(b - a) =~= s@.skip(b as int));
            }
            let word = copy_range(s, a, b);
            proof {
                assert(word@ =~= t.take(b - a));
                assert(views(r@.push(word)) =~= views(r@) + seq![word@]);
            }
            r.push(word);
            i = b;
            proof {
                assert(words(s@) =~= views(r@) + words(s@.skip(i as int)));
            }
        }
    }
    proof {
        assert(words(s@.skip(i as int)) =~= Seq::<Seq<char>>::empty());
        assert(views(r@) + Seq::<Seq<char>>::empty() =~= views(r@));
    }
    r
}

/// `[..].join(sep)`.
pub fn join_parts(parts: &Vec<Vec<char>>, sep: &[char]) -> (r: Vec<char>)
    ensures
        r@ == join(views(parts@), sep@),
{
    let mut r: Vec<char> = Vec::new();
    let mut i: usize = 0;
    while i < parts.len()
        invariant
            0 <= i <= parts@.len(),
            r@ == join(views(parts@).take(i as int), sep@),
        decreases parts.len() - i,
    {
        let ghost prev = views(parts@).take(i as int);
        if i > 0 {
            push_all(&mut r, sep);
        }
        push_all(&mut r, parts[i].as_slice());
        i = i + 1;
        proof {
            let cur = views(parts@).take(i as int);
            assert(cur.drop_last() =~= prev);
            assert(cur.last() == parts@[i - 1]@);
            if i == 1 {
                assert(r@ =~= join(cur, sep@));
            }
        }
    }
    proof {
        assert(views(parts@).take(parts@.len() as int) =~= views(parts@));
    }
    r
}

/// `str::replace` with a non-empty pattern.
pub open spec fn replace(s: Seq<char>, from: Seq<char>, to: Seq<char>) -> Seq<char>
    decreases s.len(),
{
    if s.len() == 0 {
        seq![]
    } else if from.len() > 0 && starts_with(s, from) {
        to + replace(s.skip(from.len() as int), from, to)
    } else {
        seq![s[0]] + replace(s.drop_first(), from, to)
    }
}

/// `str::replace` with a non-empty pattern.
pub fn replace_all(s: &[char], from: &[char], to: &[char]) -> (r: Vec<char>)
    requires
        from@.len() > 0,
    ensures
        r@ == replace(s@, from@, to@),
{
    let mut r: Vec<char> = Vec::new();
    let mut i: usize = 0;
    proof {
        assert(s@.skip(0) =~= s@);
    }
    while i < s.len()
        invariant
            0 <= i <= s@.len(),
            from@.len() > 0,
            replace(s@, from@, to@) == r@ + replace(s@.skip(i as int), from@, to@),
        decreases s.len() - i,
    {
        let ghost rest = s@.skip(i as int);
        let m = matches_at(s, from, i);
        proof {
            if m {
                assert(rest.subrange(0, from@.len() as int) =~= s@.subrange(
                    i as int,
                    i + from@.len(),
                ));
            } else {
                if from@.len() <= rest.len() {
                    assert(rest.subrange(0, from@.len() as int) =~= s@.subrange(
                        i as int,
                        i + from@.len(),
                    ));
                }
            }
        }
        if m {
            push_all(&mut r, to);
            proof {
                assert(rest.skip(from@.len() as int) =~= s@.skip(i + from@.len()));
            }
            i = i + from.len();
        } else {
            r.push(s[i]);
            proof {
                assert(rest.drop_first() =~= s@.skip(i + 1));
                assert(rest[0] == s@[i as int]);
            }
            i = i + 1;
        }
        proof {
            assert(replace(s@, from@, to@) =~= r@ + replace(s@.skip(i as int), from@, to@));
        }
    }
    proof {
        assert(s@.skip(i as int) =~= Seq::<char>::empty());
        assert(r@ + Seq::<char>::empty() =~= r@);
    }
    r
}

/// `str::split_once` at the first occurrence of a character.
pub open spec fn split_once(s: Seq<char>, c: char) -> Option<(Seq<char>, Seq<char>)> {
    let p = set_pos(s, CharSet::Only(c));
    if p < s.len() {
        Some((s.take(p), s.skip(p + 1)))
    } else {
        None
    }
}

/// `str::split_once` at the first occurrence of a character.
pub fn split_once_char(s: &[char], c: char) -> (r: Option<(Vec<char>, Vec<char>)>)
    ensures
        match r {
            Some((a, b)) => split_once(s@, c) == Some((a@, b@)),
            None => split_once(s@, c) is None,
        },
{
    let mut j: usize = 0;
    while j < s.len() && s[j] != c
        invariant
            0 <= j <= s@.len(),
            forall|k: int| 0 <= k < j ==> s@[k] != c,
        decreases s.len() - j,
    {
        j = j + 1;
    }
    proof {
        lemma_set_pos_is(s@, CharSet::Only(c), j as int);
    }
    if j == s.len() {
        None
    } else {
        let a = copy_range(s, 0, j);
        let b = copy_range(s, j + 1, s.len());
        proof {
            assert(a@ =~= s@.take(j as int));
            assert(b@ =~= s@.skip(j + 1));
        }
        Some((a, b))
    }
}

/// The first `n` characters (`s.chars().take(n)`).
pub open spec fn take_chars(s: Seq<char>, n: int) -> Seq<char> {
    if n < s.len() {
        s.take(n)
    } else {
        s
    }
}

/// The first `n` characters (`s.chars().take(n)`).
pub fn prefix_chars(s: &[char], n: usize) -> (r: Vec<char>)
    ensures
        r@ == take_chars(s@, n as int),
{
    if n < s.len() {
        copy_range(s, 0, n)
    } else {
        copy_range(s, 0, s.len())
    }
}

// ---------------------------------------------------------------------------
// Numbers
// ---------------------------------------------------------------------------

pub open spec fn digit(d: nat) -> char {
    ((48 + d) as u32) as char
}

/// Decimal representation of a natural number, as `Display` writes it.
pub open spec fn decimal(n: nat) -> Seq<char>
    decreases n,
{
    if n < 10 {
        seq![digit(n)]
    } else {
        decimal(n / 10) + seq![digit(n % 10)]
    }
}

/// Decimal representation of `n`.
pub fn decimal_chars(n: u64) -> (r: Vec<char>)
    ensures
        r@ == decimal(n as nat),
    decreases n,
{
    let d: u32 = (n % 10) as u32;
    let c = char_from_ascii(48 + d);
    if n < 10 {
        let mut v: Vec<char> = Vec::new();
        v.push(c);
        proof {
            assert(v@ =~= seq![digit(n as nat)]);
        }
        v
    } else {
        let mut v = decimal_chars(n / 10);
        v.push(c);
        v
    }
}


// ---------------------------------------------------------------------------
// Byte length, ordering
// ---------------------------------------------------------------------------

/// Bytes of a character in UTF-8 (`char::len_utf8`).
pub open spec fn char_utf8_len(c: char) -> nat {
    let u = c as u32;
    if u < 0x80 {
        1
    } else if u < 0x800 {
        2
    } else if u < 0x10000 {
        3
    } else {
        4
    }
}

/// Bytes of a text in UTF-8 (`str::len`).
pub open spec fn utf8_len(s: Seq<char>) -> nat
    decreases s.len(),
{
    if s.len() == 0 {
        0
    } else {
        utf8_len(s.drop_last()) + char_utf8_len(s.last())
    }
}

/// `str::len` of the text whose characters are `s`, or `None` past `usize::MAX`.
pub fn byte_len(s: &[char]) -> (n: Option<usize>)
    ensures
        n matches Some(k) ==> k == utf8_len(s@),
        n is None ==> utf8_len(s@) > usize::MAX,
{
    let mut n: usize = 0;
    let mut i: usize = 0;
    while i < s.len()
        invariant
            0 <= i <= s@.len(),
            n == utf8_len(s@.take(i as int)),
        decreases s.len() - i,
    {
        proof {
            assert(s@.take(i + 1).drop_last() =~= s@.take(i as int));
            lemma_utf8_len_prefix(s@, i + 1);
        }
        let u = s[i] as u32;
        let w: usize = if u < 0x80 {
            1
        } else if u < 0x800 {
            2
        } else if u < 0x10000 {
            3
        } else {
            4
        };
        if n > usize::MAX - w {
            proof {
                lemma_utf8_len_prefix(s@, i + 1);
                assert(s@.take(s@.len() as int) =~= s@);
            }
            return None;
        }
        n = n + w;
        i = i + 1;
    }
    proof {
        assert(s@.take(s@.len() as int) =~= s@);
    }
    Some(n)
}

pub proof fn lemma_utf8_len_prefix(s: Seq<char>, k: int)
    requires
        0 <= k <= s.len(),
    ensures
        utf8_len(s.take(k)) <= utf8_len(s),
    decreases s.len() - k,
{
    if k < s.len() {
        lemma_utf8_len_prefix(s, k + 1);
        assert(s.take(k + 1).drop_last() =~= s.take(k));
    } else {
        assert(s.take(k) =~= s);
    }
}

/// Lexicographic order by code point, which is the order of `String`: UTF-8 keeps
/// the order of code points, and strings compare their bytes lexicographically.
pub open spec fn lex_lt(a: Seq<char>, b: Seq<char>) -> bool
    decreases a.len(),
{
    if a.len() == 0 {
        b.len() > 0
    } else if b.len() == 0 {
        false
    } else if a[0] != b[0] {
        (a[0] as u32) < (b[0] as u32)
    } else {
        lex_lt(a.drop_first(), b.drop_first())
    }
}

pub proof fn lemma_lex_irreflexive(a: Seq<char>)
    ensures
        !lex_lt(a, a),
    decreases a.len(),
{
    if a.len() > 0 {
        lemma_lex_irreflexive(a.drop_first());
    }
}

pub proof fn lemma_lex_total(a: Seq<char>, b: Seq<char>)
    ensures
        a == b || lex_lt(a, b) || lex_lt(b, a),
    decreases a.len(),
{
    if a.len() > 0 && b.len() > 0 {
        if a[0] == b[0] {
            lemma_lex_total(a.drop_first(), b.drop_first());
            if a.drop_first() == b.drop_first() {
                assert(a =~= seq![a[0]] + a.drop_first());
                assert(b =~= seq![b[0]] + b.drop_first());
            }
        } else {
            assert((a[0] as u32) != (b[0] as u32)) by {
                lemma_char_u32_injective(a[0], b[0]);
            }
        }
    } else if a.len() == 0 && b.len() == 0 {
        assert(a =~= b);
    }
}

pub proof fn lemma_lex_asym(a: Seq<char>, b: Seq<char>)
    requires
        lex_lt(a, b),
    ensures
        !lex_lt(b, a),
    decreases a.len(),
{
    if a.len() > 0 && b.len() > 0 && a[0] == b[0] {
        lemma_lex_asym(a.drop_first(), b.drop_first());
    }
}

pub proof fn lemma_lex_trans(a: Seq<char>, b: Seq<char>, c: Seq<char>)
    requires
        lex_lt(a, b),
        lex_lt(b, c),
    ensures
        lex_lt(a, c),
    decreases a.len(),
{
    if a.len() > 0 && b.len() > 0 && c.len() > 0 {
        if a[0] == b[0] && b[0] == c[0] {
            lemma_lex_trans(a.drop_first(), b.drop_first(), c.drop_first());
        }
    }
}

pub proof fn lemma_char_u32_injective(c: char, d: char)
    requires
        c != d,
    ensures
        (c as u32) != (d as u32),
{
}

/// Lexicographic comparison of two character sequences.
pub fn lex_less(a: &[char], b: &[char]) -> (r: bool)
    ensures
        r == lex_lt(a@, b@),
{
    let mut i: usize = 0;
    proof {
        assert(a@.skip(0) =~= a@);
        assert(b@.skip(0) =~= b@);
    }
    while i < a.len() && i < b.len() && a[i] == b[i]
        invariant
            0 <= i <= a@.len(),
            i <= b@.len(),
            lex_lt(a@, b@) == lex_lt(a@.skip(i as int), b@.skip(i as int)),
        decreases a.len() - i,
    {
        proof {
            assert(a@.skip(i as int).drop_first() =~= a@.skip(i + 1));
            assert(b@.skip(i as int).drop_first() =~= b@.skip(i + 1));
        }
        i = i + 1;
    }
    proof {
        assert(a@.skip(0) =~= a@);
        assert(b@.skip(0) =~= b@);
    }
    if i == a.len() {
        i < b.len()
    } else if i == b.len() {
        false
    } else {
        (a[i] as u32) < (b[i] as u32)
    }
}

/// Strictly increasing: sorted with no repetition.
pub open spec fn strictly_sorted(v: Seq<Seq<char>>) -> bool {
    forall|i: int, j: int| 0 <= i < j < v.len() ==> lex_lt(#[trigger] v[i], #[trigger] v[j])
}

pub proof fn lemma_contains_push<A>(s: Seq<A>, x: A, y: A)
    ensures
        s.push(x).contains(y) <==> (s.contains(y) || y == x),
{
    if s.contains(y) {
        let k = choose|k: int| 0 <= k < s.len() && s[k] == y;
        assert(s.push(x)[k] == y);
    }
    if y == x {
        assert(s.push(x)[s.len() as int] == y);
    }
    if s.push(x).contains(y) {
        let k = choose|k: int| 0 <= k < s.push(x).len() && s.push(x)[k] == y;
        if k < s.len() {
            assert(s[k] == y);
        }
    }
}

pub proof fn lemma_contains_insert<A>(s: Seq<A>, p: int, x: A, y: A)
    requires
        0 <= p <= s.len(),
    ensures
        s.insert(p, x).contains(y) <==> (s.contains(y) || y == x),
{
    let t = s.insert(p, x);
    if s.contains(y) {
        let k = choose|k: int| 0 <= k < s.len() && s[k] == y;
        if k < p {
            assert(t[k] == y);
        } else {
            assert(t[k + 1] == y);
        }
    }
    if y == x {
        assert(t[p] == y);
    }
    if t.contains(y) {
        let k = choose|k: int| 0 <= k < t.len() && t[k] == y;
        if k < p {
            assert(s[k] == y);
        } else if k > p {
            assert(s[k - 1] == y);
        }
    }
}

/// The texts of `items` sorted and without repetition (`sort` then `dedup`).
pub fn sort_dedup(items: &Vec<Vec<char>>) -> (r: Vec<Vec<char>>)
    ensures
        strictly_sorted(views(r@)),
        forall|x: Seq<char>| views(r@).contains(x) <==> views(items@).contains(x),
{
    let mut r: Vec<Vec<char>> = Vec::new();
    let mut i: usize = 0;
    while i < items.len()
        invariant
            0 <= i <= items@.len(),
            strictly_sorted(views(r@)),
            forall|x: Seq<char>| views(r@).contains(x) <==> views(items@.take(i as int)).contains(x),
        decreases items.len() - i,
    {
        let x = &items[i];
        let ghost xv = x@;
        let ghost old_r = views(r@);
        let mut p: usize = 0;
        while p < r.len()
            invariant
                0 <= p <= r@.len(),
                views(r@) == old_r,
                xv == x@,
                forall|k: int| 0 <= k < p ==> lex_lt(#[trigger] old_r[k], xv),
            ensures
                0 <= p <= r@.len(),
                forall|k: int| 0 <= k < p ==> lex_lt(#[trigger] old_r[k], xv),
                p < r@.len() ==> !lex_lt(old_r[p as int], xv),
            decreases r.len() - p,
        {
            let less = lex_less(r[p].as_slice(), x.as_slice());
            proof {
                assert(old_r[p as int] == r@[p as int]@);
            }
            if !less {
                break;
            }
            p = p + 1;
        }
        let dup = p < r.len() && eq_chars(r[p].as_slice(), x.as_slice());
        if !dup {
            let copy = copy_range(x.as_slice(), 0, x.len());
            proof {
                assert(copy@ =~= xv);
                if p < old_r.len() {
                    lemma_lex_total(old_r[p as int], xv);
                    assert(lex_lt(xv, old_r[p as int]));
                }
            }
            r.insert(p, copy);
            proof {
                let nr = views(r@);
                assert(nr =~= old_r.insert(p as int, xv));
                assert forall|a: int, b: int| 0 <= a < b < nr.len() implies lex_lt(
                    #[trigger] nr[a],
                    #[trigger] nr[b],
                ) by {
                    if a < p && b == p {
                    } else if a < p && b > p {
                        assert(nr[b] == old_r[b - 1]);
                    } else if a == p && b > p {
                        assert(nr[b] == old_r[b - 1]);
                        if b - 1 > p {
                            lemma_lex_trans(xv, old_r[p as int], old_r[b - 1]);
                        }
                    } else if a > p {
                        assert(nr[a] == old_r[a - 1]);
                        assert(nr[b] == old_r[b - 1]);
                    }
                }
            }
        }
        proof {
            let nr = views(r@);
            let prev = views(items@.take(i as int));
            let its = views(items@.take(i + 1));
            assert(its =~= prev.push(xv));
            assert(forall|y: Seq<char>| old_r.contains(y) <==> prev.contains(y));
            assert forall|y: Seq<char>| nr.contains(y) <==> its.contains(y) by {
                lemma_contains_push(prev, xv, y);
                if dup {
                    assert(nr == old_r);
                    assert(old_r[p as int] == xv);
                } else {
                    assert(nr =~= old_r.insert(p as int, xv));
                    lemma_contains_insert(old_r, p as int, xv, y);
                }
            }
        }
        i = i + 1;
    }
    proof {
        assert(items@.take(items@.len() as int) =~= items@);
    }
    r
}

} // verus!
