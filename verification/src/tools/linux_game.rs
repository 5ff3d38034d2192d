//! Linux game compatibility: normalising the user's game query, the slugs that the
//! compatibility sites use, the verdict and the confidence drawn from their signals,
//! and summaries of the sites' pages.
use crate::text::{
    decimal,
    chars_of, contains, contains_seq, contains_str, copy_range, eq_chars, eq_str, find, find_in,
    is_alnum, is_whitespace, is_ascii_alnum, is_ws, join, join_parts, lex_lt, lines, lower,
    lower_one, push_str, sort_dedup, split_lines, split_words, string_of, strictly_sorted,
    take_chars, prefix_chars, to_lower, trim, trim_chars, trim_set, trim_ws, views, words, CharSet,
};
use crate::tools::report::{opt_view, stripped_report, strip_preamble};
use vstd::prelude::*;

verus! {

/// What the sub-agent's caller is told to do with its report.
pub const OUTPUT_INSTRUCTION: &'static str =
    "这是 Linux 游戏兼容性调查子代理返回的最终报告。\n\n请把 final_report 当作主要依据回复用户。不要重新编造兼容性结论。\n\n回复时保留以下核心信息：\n- 红绿灯结论，能不能玩\n- 怎么玩\n- 注意事项\n\n如果用户问“怎么玩”，必须给出可执行步骤。\n如果用户追问“刚才完整报告”，直接复述 final_report。";

// ---------------------------------------------------------------------------
// Queries and slugs
// ---------------------------------------------------------------------------

/// `s` without its whitespace.
pub open spec fn without_ws(s: Seq<char>) -> Seq<char>
    decreases s.len(),
{
    if s.len() == 0 {
        seq![]
    } else if is_ws(s.last()) {
        without_ws(s.drop_last())
    } else {
        without_ws(s.drop_last()).push(s.last())
    }
}

/// The canonical title for a query that names a known game in any spelling, else the
/// trimmed query.
pub open spec fn normalized_query(game: Seq<char>) -> Seq<char> {
    let compact = lower(without_ws(game));
    if contains(compact, "赛博朋克2077"@) || contains(compact, "电驭叛客2077"@) || contains(
        compact,
        "cyberpunk2077"@,
    ) {
        "Cyberpunk 2077"@
    } else if contains(compact, "原神"@) || contains(compact, "genshinimpact"@) {
        "Genshin Impact"@
    } else {
        trim(game)
    }
}

fn remove_ws(s: &[char]) -> (r: Vec<char>)
    ensures
        r@ == without_ws(s@),
{
    let mut r: Vec<char> = Vec::new();
    let mut i: usize = 0;
    while i < s.len()
        invariant
            0 <= i <= s@.len(),
            r@ == without_ws(s@.take(i as int)),
        decreases s.len() - i,
    {
        proof {
            assert(s@.take(i + 1).drop_last() =~= s@.take(i as int));
        }
        if !is_whitespace(s[i]) {
            r.push(s[i]);
        }
        i = i + 1;
    }
    proof {
        assert(s@.take(s@.len() as int) =~= s@);
    }
    r
}

/// The title to search for (`normalize_game_query`).
pub fn normalize_game_query(game: &str) -> (r: String)
    ensures
        r@ == normalized_query(game@),
{
    let g = chars_of(game);
    let compact = to_lower(remove_ws(g.as_slice()).as_slice());
    let c = compact.as_slice();
    if contains_str(c, "赛博朋克2077") || contains_str(c, "电驭叛客2077") || contains_str(
        c,
        "cyberpunk2077",
    ) {
        let out = chars_of("Cyberpunk 2077");
        return string_of(out.as_slice());
    }
    if contains_str(c, "原神") || contains_str(c, "genshinimpact") {
        let out = chars_of("Genshin Impact");
        return string_of(out.as_slice());
    }
    let t = trim_ws(g.as_slice());
    string_of(t.as_slice())
}

/// The queries to try: the normalised query, unless it is blank.
pub open spec fn candidates_of(game: Seq<char>) -> Seq<Seq<char>> {
    let n = normalized_query(game);
    if trim(n).len() > 0 {
        seq![n]
    } else {
        seq![]
    }
}

pub open spec fn string_views(v: Seq<String>) -> Seq<Seq<char>> {
    v.map_values(|s: String| s@)
}

/// The queries to try (`game_candidates`).
pub fn game_candidates(game: &str) -> (r: Vec<String>)
    ensures
        string_views(r@) == candidates_of(game@),
{
    let n = normalize_game_query(game);
    let nc = chars_of(n.as_str());
    let t = trim_ws(nc.as_slice());
    let mut r: Vec<String> = Vec::new();
    if t.len() > 0 {
        r.push(n);
    }
    proof {
        assert(string_views(r@) =~= candidates_of(game@));
    }
    r
}

/// Lowercase ASCII letters and digits, with each run of other characters made one
/// dash.
pub open spec fn slug_run(s: Seq<char>, last_dash: bool) -> Seq<char>
    decreases s.len(),
{
    if s.len() == 0 {
        seq![]
    } else if is_ascii_alnum(s[0]) {
        seq![s[0]] + slug_run(s.drop_first(), false)
    } else if !last_dash {
        seq!['-'] + slug_run(s.drop_first(), true)
    } else {
        slug_run(s.drop_first(), true)
    }
}

/// The URL slug of a title: lowercased, runs of characters other than ASCII letters
/// and digits made one dash, no dash at either end.
pub open spec fn slug(value: Seq<char>) -> Seq<char> {
    trim_set(slug_run(lower(value), false), CharSet::Only('-'))
}

fn slugify_chars(value: &[char]) -> (r: Vec<char>)
    ensures
        r@ == slug(value@),
{
    let l = to_lower(value);
    let mut out: Vec<char> = Vec::new();
    let mut last_dash = false;
    let mut i: usize = 0;
    proof {
        assert(l@.skip(0) =~= l@);
    }
    while i < l.len()
        invariant
            0 <= i <= l@.len(),
            slug_run(l@, false) == out@ + slug_run(l@.skip(i as int), last_dash),
        decreases l.len() - i,
    {
        let ch = l[i];
        proof {
            assert(l@.skip(i as int).drop_first() =~= l@.skip(i + 1));
            assert(l@.skip(i as int)[0] == ch);
        }
        if is_alnum(ch) {
            out.push(ch);
            last_dash = false;
        } else if !last_dash {
            out.push('-');
            last_dash = true;
        }
        i = i + 1;
        proof {
            assert(slug_run(l@, false) =~= out@ + slug_run(l@.skip(i as int), last_dash));
        }
    }
    proof {
        assert(l@.skip(i as int) =~= Seq::<char>::empty());
        assert(out@ + Seq::<char>::empty() =~= out@);
    }
    trim_chars(out.as_slice(), CharSet::Only('-'))
}

/// The URL slug of a title (`slugify`).
pub fn slugify(value: &str) -> (r: String)
    ensures
        r@ == slug(value@),
{
    let v = chars_of(value);
    let s = slugify_chars(v.as_slice());
    string_of(s.as_slice())
}

/// The texts of `v` in a vector of strings.
fn to_strings(v: &Vec<Vec<char>>) -> (r: Vec<String>)
    ensures
        string_views(r@) == views(v@),
{
    let mut r: Vec<String> = Vec::new();
    let mut i: usize = 0;
    while i < v.len()
        invariant
            0 <= i <= v@.len(),
            string_views(r@) == views(v@).take(i as int),
        decreases v.len() - i,
    {
        let s = string_of(v[i].as_slice());
        let ghost before = string_views(r@);
        r.push(s);
        i = i + 1;
        proof {
            assert(string_views(r@) =~= before.push(v@[i - 1]@));
            assert(string_views(r@) =~= views(v@).take(i as int));
        }
    }
    proof {
        assert(views(v@).take(v@.len() as int) =~= views(v@));
    }
    r
}

/// The slugs of the candidates that are not empty (`slug_candidates`), sorted and
/// without repetition.
pub fn slug_candidates(candidates: &[String]) -> (r: Vec<String>)
    ensures
        strictly_sorted(string_views(r@)),
        forall|x: Seq<char>|
            string_views(r@).contains(x) <==> (x.len() > 0 && exists|i: int|
                0 <= i < candidates@.len() && x == slug(#[trigger] candidates@[i]@)),
{
    let mut slugs: Vec<Vec<char>> = Vec::new();
    let mut i: usize = 0;
    while i < candidates.len()
        invariant
            0 <= i <= candidates@.len(),
            forall|x: Seq<char>|
                views(slugs@).contains(x) <==> (x.len() > 0 && exists|k: int|
                    0 <= k < i && x == slug(#[trigger] candidates@[k]@)),
        decreases candidates.len() - i,
    {
        let c = chars_of(candidates[i].as_str());
        let s = slugify_chars(c.as_slice());
        let ghost before = views(slugs@);
        if s.len() > 0 {
            slugs.push(s);
        }
        proof {
            assert forall|x: Seq<char>|
                views(slugs@).contains(x) <==> (x.len() > 0 && exists|k: int|
                    0 <= k < i + 1 && x == slug(#[trigger] candidates@[k]@)) by {
                if s@.len() > 0 {
                    assert(views(slugs@) =~= before.push(s@));
                    crate::text::lemma_contains_push(before, s@, x);
                } else {
                    assert(views(slugs@) =~= before);
                }
                if x.len() > 0 && exists|k: int| 0 <= k < i + 1 && x == slug(#[trigger] candidates@[k]@) {
                    let k = choose|k: int| 0 <= k < i + 1 && x == slug(#[trigger] candidates@[k]@);
                    if k < i {
                    }
                }
            }
        }
        i = i + 1;
    }
    let sorted = sort_dedup(&slugs);
    to_strings(&sorted)
}

/// The slugs to try on the compatibility sites: those of the candidates, and the slug
/// of the Steam title when Steam matched one (even if that slug is empty), sorted and
/// without repetition.
pub fn site_slugs(candidates: &[String], steam_name: Option<&str>) -> (r: Vec<String>)
    ensures
        strictly_sorted(string_views(r@)),
        forall|x: Seq<char>|
            string_views(r@).contains(x) <==> ((x.len() > 0 && exists|i: int|
                0 <= i < candidates@.len() && x == slug(#[trigger] candidates@[i]@)) || (
            steam_name is Some && x == slug(steam_name->0@))),
{
    let base = slug_candidates(candidates);
    let mut all: Vec<Vec<char>> = Vec::new();
    match steam_name {
        Some(name) => {
            let n = chars_of(name);
            all.push(slugify_chars(n.as_slice()));
        },
        None => {},
    }
    let ghost first = views(all@);
    let mut i: usize = 0;
    while i < base.len()
        invariant
            0 <= i <= base@.len(),
            views(all@) == first + string_views(base@).take(i as int),
        decreases base.len() - i,
    {
        let c = chars_of(base[i].as_str());
        let ghost before = views(all@);
        all.push(c);
        i = i + 1;
        proof {
            assert(views(all@) =~= before.push(base@[i - 1]@));
            assert(views(all@) =~= first + string_views(base@).take(i as int));
        }
    }
    proof {
        assert(string_views(base@).take(base@.len() as int) =~= string_views(base@));
        assert forall|x: Seq<char>| views(all@).contains(x) <==> (string_views(base@).contains(x) || (
            steam_name is Some && x == slug(steam_name->0@))) by {
            let sv = string_views(base@);
            if views(all@).contains(x) {
                let k = choose|k: int| 0 <= k < views(all@).len() && views(all@)[k] == x;
                if k >= first.len() {
                    assert(sv[k - first.len()] == x);
                }
            }
            if sv.contains(x) {
                let k = choose|k: int| 0 <= k < sv.len() && sv[k] == x;
                assert(views(all@)[k + first.len()] == x);
            }
            if steam_name is Some && x == slug(steam_name->0@) {
                assert(views(all@)[0] == x);
            }
        }
    }
    let sorted = sort_dedup(&all);
    to_strings(&sorted)
}

// ---------------------------------------------------------------------------
// Verdict and confidence
// ---------------------------------------------------------------------------

/// ProtonDB's summary of a game, as far as the verdict reads it.
pub struct ProtonDbSummary {
    pub tier: Option<String>,
}

/// The verdict on a game, each with its traffic light, label and reason.
#[derive(Clone, Copy, PartialEq, Eq, Structural, Debug)]
pub enum Verdict {
    /// Anti-cheat is denied or broken and the question is about playing online.
    AntiCheatBlocked,
    /// Can I Play on Linux marks the game broken.
    Broken,
    /// ProtonDB platinum or gold, or Can I Play on Linux says it works.
    Works,
    /// ProtonDB silver or bronze, or partial support.
    Partial,
    /// None of the signals says anything.
    Insufficient,
}

pub open spec fn light_of(v: Verdict) -> Seq<char> {
    match v {
        Verdict::AntiCheatBlocked | Verdict::Broken => "🔴"@,
        Verdict::Works => "🟢"@,
        _ => "🟡"@,
    }
}

pub open spec fn label_of(v: Verdict) -> Seq<char> {
    match v {
        Verdict::AntiCheatBlocked | Verdict::Broken => "不可玩"@,
        Verdict::Works => "可玩"@,
        _ => "不一定能玩"@,
    }
}

pub open spec fn reason_of(v: Verdict) -> Seq<char> {
    match v {
        Verdict::AntiCheatBlocked => "anti-cheat denied or broken for multiplayer/online use"@,
        Verdict::Broken => "Can I Play on Linux marks it broken"@,
        Verdict::Works => "ProtonDB/Can I Play on Linux indicate it works"@,
        Verdict::Partial => "partial or lower confidence compatibility"@,
        Verdict::Insufficient => "insufficient compatibility data"@,
    }
}

impl Verdict {
    /// The traffic light: 🔴, 🟢 or 🟡.
    pub fn traffic_light(&self) -> (r: &'static str)
        ensures
            r@ == light_of(*self),
    {
        match self {
            Verdict::AntiCheatBlocked | Verdict::Broken => "🔴",
            Verdict::Works => "🟢",
            _ => "🟡",
        }
    }

    /// The label shown to the user.
    pub fn label(&self) -> (r: &'static str)
        ensures
            r@ == label_of(*self),
    {
        match self {
            Verdict::AntiCheatBlocked | Verdict::Broken => "不可玩",
            Verdict::Works => "可玩",
            _ => "不一定能玩",
        }
    }

    /// Why the verdict was reached.
    pub fn reason(&self) -> (r: &'static str)
        ensures
            r@ == reason_of(*self),
    {
        match self {
            Verdict::AntiCheatBlocked => "anti-cheat denied or broken for multiplayer/online use",
            Verdict::Broken => "Can I Play on Linux marks it broken",
            Verdict::Works => "ProtonDB/Can I Play on Linux indicate it works",
            Verdict::Partial => "partial or lower confidence compatibility",
            Verdict::Insufficient => "insufficient compatibility data",
        }
    }
}

/// ProtonDB's tier, empty when there is no summary or no tier.
pub open spec fn tier_of(p: Option<ProtonDbSummary>) -> Seq<char> {
    match p {
        Some(s) => match s.tier {
            Some(t) => t@,
            None => seq![],
        },
        None => seq![],
    }
}

pub open spec fn page_says(page: Option<Seq<char>>, word: Seq<char>) -> bool {
    match page {
        Some(t) => contains(t, word),
        None => false,
    }
}

/// The question is about playing with others.
pub open spec fn multiplayer_sensitive(issue: Seq<char>) -> bool {
    contains(lower(issue), "multi"@) || contains(lower(issue), "online"@) || contains(
        issue,
        "联机"@,
    ) || contains(issue, "多人"@) || contains(issue, "反作弊"@)
}

pub open spec fn good_tier(t: Seq<char>) -> bool {
    t == "platinum"@ || t == "gold"@
}

pub open spec fn fair_tier(t: Seq<char>) -> bool {
    t == "silver"@ || t == "bronze"@
}

/// The verdict from the sources' signals, checked in order: anti-cheat against
/// multiplayer, broken, works, partial.
pub open spec fn verdict_of(
    protondb: Option<ProtonDbSummary>,
    can_i_play: Option<Seq<char>>,
    anticheat: Option<Seq<char>>,
    issue: Seq<char>,
) -> Verdict {
    let denied = page_says(anticheat, "Denied"@) || page_says(anticheat, "Broken"@);
    let tier = tier_of(protondb);
    if multiplayer_sensitive(issue) && denied {
        Verdict::AntiCheatBlocked
    } else if page_says(can_i_play, "Broken"@) {
        Verdict::Broken
    } else if good_tier(tier) || page_says(can_i_play, "Works"@) {
        Verdict::Works
    } else if fair_tier(tier) || page_says(can_i_play, "Partial"@) {
        Verdict::Partial
    } else {
        Verdict::Insufficient
    }
}

fn page_has(page: Option<&str>, word: &str) -> (b: bool)
    ensures
        b == page_says(opt_view(page), word@),
{
    match page {
        Some(t) => {
            let tc = chars_of(t);
            contains_str(tc.as_slice(), word)
        },
        None => false,
    }
}

fn tier_chars(protondb: &Option<ProtonDbSummary>) -> (t: Vec<char>)
    ensures
        t@ == tier_of(*protondb),
{
    match protondb {
        Some(s) => match &s.tier {
            Some(t) => chars_of(t.as_str()),
            None => Vec::new(),
        },
        None => Vec::new(),
    }
}

/// The verdict on a game from ProtonDB's summary, the Can I Play on Linux page, the
/// AreWeAntiCheatYet page and the user's concern (`verdict`).
pub fn verdict(
    protondb: &Option<ProtonDbSummary>,
    can_i_play: Option<&str>,
    anticheat: Option<&str>,
    issue: &str,
) -> (v: Verdict)
    ensures
        v == verdict_of(*protondb, opt_view(can_i_play), opt_view(anticheat), issue@),
{
    let ic = chars_of(issue);
    let il = to_lower(ic.as_slice());
    let multiplayer = contains_str(il.as_slice(), "multi") || contains_str(il.as_slice(), "online")
        || contains_str(ic.as_slice(), "联机") || contains_str(ic.as_slice(), "多人")
        || contains_str(ic.as_slice(), "反作弊");
    let denied = page_has(anticheat, "Denied") || page_has(anticheat, "Broken");
    if multiplayer && denied {
        return Verdict::AntiCheatBlocked;
    }
    if page_has(can_i_play, "Broken") {
        return Verdict::Broken;
    }
    let t = tier_chars(protondb);
    let ts = t.as_slice();
    if eq_str(ts, "platinum") || eq_str(ts, "gold") || page_has(can_i_play, "Works") {
        return Verdict::Works;
    }
    if eq_str(ts, "silver") || eq_str(ts, "bronze") || page_has(can_i_play, "Partial") {
        return Verdict::Partial;
    }
    Verdict::Insufficient
}

/// How far the signals can be trusted.
#[derive(Clone, Copy, PartialEq, Eq, Structural, Debug)]
pub enum ConfidenceLevel {
    High,
    Medium,
    Low,
}

impl ConfidenceLevel {
    /// "high", "medium" or "low".
    pub fn as_str(&self) -> (r: &'static str)
        ensures
            r@ == match *self {
                ConfidenceLevel::High => "high"@,
                ConfidenceLevel::Medium => "medium"@,
                ConfidenceLevel::Low => "low"@,
            },
    {
        match self {
            ConfidenceLevel::High => "high",
            ConfidenceLevel::Medium => "medium",
            ConfidenceLevel::Low => "low",
        }
    }
}

/// The confidence in a verdict, with the sources that were found.
pub struct Confidence {
    pub level: ConfidenceLevel,
    pub needs_followup: bool,
    pub followup_reason: Option<String>,
    pub steam_appid: bool,
    pub protondb: bool,
    pub can_i_play_on_linux: bool,
    pub are_we_anticheat_yet: bool,
}

pub open spec fn push_if(s: Seq<Seq<char>>, c: bool, x: Seq<char>) -> Seq<Seq<char>> {
    if c {
        s.push(x)
    } else {
        s
    }
}

/// Why the verdict needs a follow-up search, in order.
pub open spec fn followup_reasons(
    appid: Option<u64>,
    protondb: Option<ProtonDbSummary>,
    can_i_play: Option<Seq<char>>,
    anticheat: Option<Seq<char>>,
    v: Verdict,
) -> Seq<Seq<char>> {
    let r0 = push_if(seq![], appid is None, "Steam app id was not found"@);
    let r1 = push_if(r0, protondb is None, "ProtonDB data is missing"@);
    let r2 = push_if(r1, can_i_play is None, "Can I Play on Linux data is missing"@);
    let r3 = push_if(r2, anticheat is None, "AreWeAntiCheatYet data is missing"@);
    push_if(r3, v == Verdict::Insufficient, "compatibility data is insufficient"@)
}

/// High with a Steam match, a good ProtonDB tier, Can I Play on Linux saying it
/// works and an anti-cheat page; medium with any tier or a works/partial mark; else
/// low.
pub open spec fn level_of(
    appid: Option<u64>,
    protondb: Option<ProtonDbSummary>,
    can_i_play: Option<Seq<char>>,
    anticheat: Option<Seq<char>>,
) -> ConfidenceLevel {
    let tier = tier_of(protondb);
    if appid is Some && good_tier(tier) && page_says(can_i_play, "Works"@) && anticheat is Some {
        ConfidenceLevel::High
    } else if good_tier(tier) || fair_tier(tier) || page_says(can_i_play, "Partial"@) || page_says(
        can_i_play,
        "Works"@,
    ) {
        ConfidenceLevel::Medium
    } else {
        ConfidenceLevel::Low
    }
}

pub open spec fn opt_string_view(o: Option<String>) -> Option<Seq<char>> {
    match o {
        Some(s) => Some(s@),
        None => None,
    }
}

/// The confidence record for the given signals and verdict.
pub open spec fn confidence_holds(
    c: Confidence,
    appid: Option<u64>,
    protondb: Option<ProtonDbSummary>,
    can_i_play: Option<Seq<char>>,
    anticheat: Option<Seq<char>>,
    v: Verdict,
) -> bool {
    let reasons = followup_reasons(appid, protondb, can_i_play, anticheat, v);
    let level = level_of(appid, protondb, can_i_play, anticheat);
    &&& c.level == level
    &&& c.needs_followup == (level == ConfidenceLevel::Low || v == Verdict::Insufficient
        || reasons.len() > 0)
    &&& opt_string_view(c.followup_reason) == if reasons.len() == 0 {
        None
    } else {
        Some(join(reasons, "; "@))
    }
    &&& c.steam_appid == appid is Some
    &&& c.protondb == protondb is Some
    &&& c.can_i_play_on_linux == can_i_play is Some
    &&& c.are_we_anticheat_yet == anticheat is Some
}

fn push_reason(reasons: &mut Vec<Vec<char>>, c: bool, text: &str)
    ensures
        views(final(reasons)@) == push_if(views(old(reasons)@), c, text@),
{
    if c {
        let ghost before = views(reasons@);
        let t = chars_of(text);
        reasons.push(t);
        proof {
            assert(views(reasons@) =~= before.push(text@));
        }
    }
}

/// How far the verdict can be trusted and whether to search further
/// (`compatibility_confidence`).
pub fn compatibility_confidence(
    appid: Option<u64>,
    protondb: &Option<ProtonDbSummary>,
    can_i_play: Option<&str>,
    anticheat: Option<&str>,
    verdict: Verdict,
) -> (c: Confidence)
    ensures
        confidence_holds(
            c,
            appid,
            *protondb,
            opt_view(can_i_play),
            opt_view(anticheat),
            verdict,
        ),
{
    let t = tier_chars(protondb);
    let ts = t.as_slice();
    let good = eq_str(ts, "platinum") || eq_str(ts, "gold");
    let fair = eq_str(ts, "silver") || eq_str(ts, "bronze");
    let works = page_has(can_i_play, "Works");
    let partial = page_has(can_i_play, "Partial");
    let mut reasons: Vec<Vec<char>> = Vec::new();
    proof {
        assert(views(reasons@) =~= Seq::<Seq<char>>::empty());
    }
    push_reason(&mut reasons, appid.is_none(), "Steam app id was not found");
    push_reason(&mut reasons, protondb.is_none(), "ProtonDB data is missing");
    push_reason(&mut reasons, can_i_play.is_none(), "Can I Play on Linux data is missing");
    push_reason(&mut reasons, anticheat.is_none(), "AreWeAntiCheatYet data is missing");
    let insufficient = match verdict {
        Verdict::Insufficient => true,
        _ => false,
    };
    push_reason(&mut reasons, insufficient, "compatibility data is insufficient");
    let level = if appid.is_some() && good && works && anticheat.is_some() {
        ConfidenceLevel::High
    } else if good || fair || partial || works {
        ConfidenceLevel::Medium
    } else {
        ConfidenceLevel::Low
    };
    let low = match level {
        ConfidenceLevel::Low => true,
        _ => false,
    };
    let needs_followup = low || insufficient || reasons.len() > 0;
    let followup_reason = if reasons.len() == 0 {
        None
    } else {
        let sep = chars_of("; ");
        let joined = join_parts(&reasons, sep.as_slice());
        Some(string_of(joined.as_slice()))
    };
    Confidence {
        level,
        needs_followup,
        followup_reason,
        steam_appid: appid.is_some(),
        protondb: protondb.is_some(),
        can_i_play_on_linux: can_i_play.is_some(),
        are_we_anticheat_yet: anticheat.is_some(),
    }
}

/// The searches suggested when a follow-up is needed.
pub fn suggested_followup_queries() -> (r: Vec<&'static str>)
    ensures
        r@.len() == 3,
        r@[0]@ == "ProtonDB game compatibility latest reports"@,
        r@[1]@ == "PCGamingWiki Linux Proton known issues"@,
        r@[2]@ == "Steam Community Linux Proton performance issues"@,
{
    let mut r: Vec<&'static str> = Vec::new();
    r.push("ProtonDB game compatibility latest reports");
    r.push("PCGamingWiki Linux Proton known issues");
    r.push("Steam Community Linux Proton performance issues");
    r
}

// ---------------------------------------------------------------------------
// Laws of the verdict
// ---------------------------------------------------------------------------

/// When anti-cheat is denied or broken and the user asks about playing with others,
/// the verdict is red, whatever the other sources say.
pub proof fn law_anticheat_blocks_multiplayer(
    protondb: Option<ProtonDbSummary>,
    can_i_play: Option<Seq<char>>,
    anticheat: Option<Seq<char>>,
    issue: Seq<char>,
)
    requires
        multiplayer_sensitive(issue),
        page_says(anticheat, "Denied"@) || page_says(anticheat, "Broken"@),
    ensures
        verdict_of(protondb, can_i_play, anticheat, issue) == Verdict::AntiCheatBlocked,
        light_of(verdict_of(protondb, can_i_play, anticheat, issue)) == "🔴"@,
{
}

/// A high confidence never asks for a follow-up, and a low one always does, when the
/// confidence is taken for the verdict of the same signals.
pub proof fn law_confidence_followup(
    appid: Option<u64>,
    protondb: Option<ProtonDbSummary>,
    can_i_play: Option<Seq<char>>,
    anticheat: Option<Seq<char>>,
    issue: Seq<char>,
    c: Confidence,
)
    requires
        confidence_holds(
            c,
            appid,
            protondb,
            can_i_play,
            anticheat,
            verdict_of(protondb, can_i_play, anticheat, issue),
        ),
    ensures
        c.level == ConfidenceLevel::High ==> !c.needs_followup,
        c.level == ConfidenceLevel::Low ==> c.needs_followup,
{
    let v = verdict_of(protondb, can_i_play, anticheat, issue);
    if c.level == ConfidenceLevel::High {
        reveal_strlit("gold");
        reveal_strlit("platinum");
        if protondb is None {
            assert(tier_of(protondb) =~= Seq::<char>::empty());
            assert("gold"@.len() == 4);
            assert("platinum"@.len() == 8);
        }
        assert(protondb is Some);
        assert(v != Verdict::Insufficient);
        assert(followup_reasons(appid, protondb, can_i_play, anticheat, v) =~= Seq::<
            Seq<char>,
        >::empty());
    }
}

// ---------------------------------------------------------------------------
// Page summaries
// ---------------------------------------------------------------------------

/// What `html2text` renders for an HTML page at a given width, with its plain
/// decorator; `None` where it reports an error (a page that cannot be laid out in the
/// width).
pub uninterp spec fn html_text(html: Seq<char>, width: usize) -> Option<Seq<char>>;

/// `html2text::config::plain().string_from_read(html.as_bytes(), width)`.
///
/// Trusted: the result is the page's plain text wrapped to `width` columns, or the
/// crate's error (here `None`), a function of the page and the width.
#[verifier::external_body]
fn render_html(html: &str, width: usize) -> (r: Option<String>)
    ensures
        match r {
            Some(t) => html_text(html@, width) == Some(t@),
            None => html_text(html@, width) is None,
        },
{
    html2text::config::plain().string_from_read(html.as_bytes(), width).ok()
}

/// The non-blank lines, trimmed.
pub open spec fn nonblank(ls: Seq<Seq<char>>) -> Seq<Seq<char>>
    decreases ls.len(),
{
    if ls.len() == 0 {
        seq![]
    } else if trim(ls[0]).len() == 0 {
        nonblank(ls.drop_first())
    } else {
        seq![trim(ls[0])] + nonblank(ls.drop_first())
    }
}

/// The line after the first one equal to `label`, cut to 120 characters.
pub open spec fn after_label(ls: Seq<Seq<char>>, label: Seq<char>) -> Option<Seq<char>>
    decreases ls.len(),
{
    if ls.len() == 0 {
        None
    } else if ls[0] == label {
        if ls.len() > 1 {
            Some(take_chars(ls[1], 120))
        } else {
            None
        }
    } else {
        after_label(ls.drop_first(), label)
    }
}

fn nonblank_lines(text: &[char]) -> (r: Vec<Vec<char>>)
    ensures
        views(r@) == nonblank(lines(text@)),
{
    let ls = split_lines(text);
    let mut r: Vec<Vec<char>> = Vec::new();
    let mut i: usize = 0;
    proof {
        assert(views(ls@).skip(0) =~= views(ls@));
    }
    while i < ls.len()
        invariant
            0 <= i <= ls@.len(),
            nonblank(views(ls@)) == views(r@) + nonblank(views(ls@).skip(i as int)),
        decreases ls.len() - i,
    {
        let t = trim_ws(ls[i].as_slice());
        let ghost before = views(r@);
        proof {
            assert(views(ls@).skip(i as int).drop_first() =~= views(ls@).skip(i + 1));
            assert(views(ls@).skip(i as int)[0] == ls@[i as int]@);
        }
        if t.len() > 0 {
            r.push(t);
            proof {
                assert(views(r@) =~= before.push(t@));
            }
        }
        i = i + 1;
        proof {
            assert(nonblank(views(ls@)) =~= views(r@) + nonblank(views(ls@).skip(i as int)));
        }
    }
    proof {
        assert(views(ls@).skip(i as int) =~= Seq::<Seq<char>>::empty());
        assert(views(r@) + Seq::<Seq<char>>::empty() =~= views(r@));
    }
    r
}

/// The value printed on the line after a label (`value_after_label`).
pub fn value_after_label(text: &str, label: &str) -> (r: Option<String>)
    ensures
        opt_string_view(r) == after_label(nonblank(lines(text@)), label@),
{
    let tc = chars_of(text);
    let ls = nonblank_lines(tc.as_slice());
    let mut i: usize = 0;
    proof {
        assert(views(ls@).skip(0) =~= views(ls@));
    }
    while i < ls.len()
        invariant
            0 <= i <= ls@.len(),
            views(ls@) == nonblank(lines(text@)),
            after_label(views(ls@), label@) == after_label(views(ls@).skip(i as int), label@),
        decreases ls.len() - i,
    {
        proof {
            assert(views(ls@).skip(i as int).drop_first() =~= views(ls@).skip(i + 1));
            assert(views(ls@).skip(i as int)[0] == ls@[i as int]@);
        }
        if eq_str(ls[i].as_slice(), label) {
            let ghost rest = views(ls@).skip(i as int);
            proof {
                assert(rest.len() == ls@.len() - i);
                assert(rest[0] == label@);
            }
            if i + 1 < ls.len() {
                let v = prefix_chars(ls[i + 1].as_slice(), 120);
                proof {
                    assert(rest[1] == ls@[i + 1]@);
                    assert(after_label(rest, label@) == Some(take_chars(rest[1], 120)));
                }
                let out = string_of(v.as_slice());
                return Some(out);
            } else {
                proof {
                    assert(after_label(rest, label@) is None);
                }
                return None;
            }
        }
        i = i + 1;
    }
    None
}

/// The text's words joined by single spaces, cut to `max_chars` characters.
pub open spec fn excerpt_of(text: Seq<char>, max_chars: nat) -> Seq<char> {
    take_chars(join(words(text), " "@), max_chars as int)
}

fn excerpt_chars(text: &[char], max_chars: usize) -> (r: Vec<char>)
    ensures
        r@ == excerpt_of(text@, max_chars as nat),
{
    let ws = split_words(text);
    let sp = chars_of(" ");
    let joined = join_parts(&ws, sp.as_slice());
    prefix_chars(joined.as_slice(), max_chars)
}

/// The text on one line, cut to `max_chars` characters (`excerpt`).
pub fn excerpt(text: &str, max_chars: usize) -> (r: String)
    ensures
        r@ == excerpt_of(text@, max_chars as nat),
{
    let tc = chars_of(text);
    let e = excerpt_chars(tc.as_slice(), max_chars);
    string_of(e.as_slice())
}

/// The text up to the first occurrence of `pat`, or all of it.
pub open spec fn before(s: Seq<char>, pat: Seq<char>) -> Seq<char> {
    match find(s, pat) {
        Some(k) => s.take(k),
        None => s,
    }
}

/// The piece of `text` after the first `start` (up to the next `start`) and before
/// `end`, as an excerpt; `None` without `start`.
pub open spec fn section_of(text: Seq<char>, start: Seq<char>, end: Seq<char>, max_chars: nat) -> Option<
    Seq<char>,
> {
    match find(text, start) {
        Some(i) => Some(
            excerpt_of(before(before(text.skip(i + start.len()), start), end), max_chars),
        ),
        None => None,
    }
}

fn before_chars(s: &[char], pat: &[char]) -> (r: Vec<char>)
    ensures
        r@ == before(s@, pat@),
{
    match find_in(s, pat) {
        Some(k) => copy_range(s, 0, k),
        None => {
            let r = copy_range(s, 0, s.len());
            proof {
                assert(r@ =~= s@);
            }
            r
        },
    }
}

/// An excerpt of the section between two headings (`section_excerpt`).
pub fn section_excerpt(text: &str, start: &str, end: &str, max_chars: usize) -> (r: Option<
    String,
>)
    ensures
        opt_string_view(r) == section_of(text@, start@, end@, max_chars as nat),
{
    let tc = chars_of(text);
    let sc = chars_of(start);
    let ec = chars_of(end);
    match find_in(tc.as_slice(), sc.as_slice()) {
        Some(i) => {
            let n = tc.len();
            let m = sc.len();
            proof {
                assert(i + m <= n);
            }
            let after = copy_range(tc.as_slice(), i + m, n);
            proof {
                assert(after@ =~= text@.skip(i + start@.len()));
            }
            let seg = before_chars(after.as_slice(), sc.as_slice());
            let section = before_chars(seg.as_slice(), ec.as_slice());
            let e = excerpt_chars(section.as_slice(), max_chars);
            Some(string_of(e.as_slice()))
        },
        None => None,
    }
}

/// What the Can I Play on Linux page says.
pub struct CanIPlaySummary {
    pub works: bool,
    pub partial: bool,
    pub broken: bool,
    pub source_recommended_proton: Option<String>,
    pub steam_deck_verified: bool,
    pub known_issues: Option<String>,
    pub fixes: Option<String>,
    pub text_excerpt: String,
}

/// The summary of a Can I Play on Linux page whose rendered text is `text`.
pub open spec fn can_i_play_holds(s: CanIPlaySummary, text: Seq<char>) -> bool {
    &&& s.works == contains(text, "Works"@)
    &&& s.partial == contains(text, "Partial"@)
    &&& s.broken == contains(text, "Broken"@)
    &&& opt_string_view(s.source_recommended_proton) == after_label(
        nonblank(lines(text)),
        "Recommended Proton"@,
    )
    &&& s.steam_deck_verified == contains(text, "Steam Deck Verified"@)
    &&& opt_string_view(s.known_issues) == section_of(text, "Known issues"@, "Fixes"@, 1200)
    &&& opt_string_view(s.fixes) == section_of(text, "Fixes"@, "Verdict"@, 1200)
    &&& s.text_excerpt@ == excerpt_of(text, 2000)
}

/// Summarises a Can I Play on Linux page from its rendered text.
pub fn can_i_play_summary_from_text(text: &str) -> (s: CanIPlaySummary)
    ensures
        can_i_play_holds(s, text@),
{
    let tc = chars_of(text);
    let t = tc.as_slice();
    CanIPlaySummary {
        works: contains_str(t, "Works"),
        partial: contains_str(t, "Partial"),
        broken: contains_str(t, "Broken"),
        source_recommended_proton: value_after_label(text, "Recommended Proton"),
        steam_deck_verified: contains_str(t, "Steam Deck Verified"),
        known_issues: section_excerpt(text, "Known issues", "Fixes", 1200),
        fixes: section_excerpt(text, "Fixes", "Verdict", 1200),
        text_excerpt: excerpt(text, 2000),
    }
}

/// Summarises a Can I Play on Linux page (`extract_can_i_play_summary`): its HTML is
/// rendered to text 120 columns wide; no summary when the page cannot be rendered.
pub fn extract_can_i_play_summary(html: &str) -> (r: Option<CanIPlaySummary>)
    ensures
        match r {
            Some(s) => html_text(html@, 120) matches Some(t) && can_i_play_holds(s, t),
            None => html_text(html@, 120) is None,
        },
{
    match render_html(html, 120) {
        Some(text) => Some(can_i_play_summary_from_text(text.as_str())),
        None => None,
    }
}

/// What the AreWeAntiCheatYet page says.
pub struct AntiCheatSummary {
    pub status: Option<&'static str>,
    pub mentions_eac: bool,
    pub mentions_battleye: bool,
    pub text_excerpt: String,
}

/// The first status word the page mentions, in the order Supported, Running,
/// Planned, Broken, Denied.
pub open spec fn status_of(text: Seq<char>) -> Option<Seq<char>> {
    if contains(text, "Supported"@) {
        Some("Supported"@)
    } else if contains(text, "Running"@) {
        Some("Running"@)
    } else if contains(text, "Planned"@) {
        Some("Planned"@)
    } else if contains(text, "Broken"@) {
        Some("Broken"@)
    } else if contains(text, "Denied"@) {
        Some("Denied"@)
    } else {
        None
    }
}

pub open spec fn opt_str_view(o: Option<&'static str>) -> Option<Seq<char>> {
    match o {
        Some(s) => Some(s@),
        None => None,
    }
}

/// The summary of an AreWeAntiCheatYet page whose rendered text is `text`.
pub open spec fn anticheat_holds(s: AntiCheatSummary, text: Seq<char>) -> bool {
    &&& opt_str_view(s.status) == status_of(text)
    &&& s.mentions_eac == contains(text, "Easy Anti-Cheat"@)
    &&& s.mentions_battleye == contains(text, "BattlEye"@)
    &&& s.text_excerpt@ == excerpt_of(text, 1600)
}

/// Summarises an AreWeAntiCheatYet page from its rendered text.
pub fn anticheat_summary_from_text(text: &str) -> (s: AntiCheatSummary)
    ensures
        anticheat_holds(s, text@),
{
    let tc = chars_of(text);
    let t = tc.as_slice();
    let status = if contains_str(t, "Supported") {
        Some("Supported")
    } else if contains_str(t, "Running") {
        Some("Running")
    } else if contains_str(t, "Planned") {
        Some("Planned")
    } else if contains_str(t, "Broken") {
        Some("Broken")
    } else if contains_str(t, "Denied") {
        Some("Denied")
    } else {
        None
    };
    AntiCheatSummary {
        status,
        mentions_eac: contains_str(t, "Easy Anti-Cheat"),
        mentions_battleye: contains_str(t, "BattlEye"),
        text_excerpt: excerpt(text, 1600),
    }
}

/// Summarises an AreWeAntiCheatYet page (`extract_anticheat_summary`): its HTML is
/// rendered to text 120 columns wide; no summary when the page cannot be rendered.
pub fn extract_anticheat_summary(html: &str) -> (r: Option<AntiCheatSummary>)
    ensures
        match r {
            Some(s) => html_text(html@, 120) matches Some(t) && anticheat_holds(s, t),
            None => html_text(html@, 120) is None,
        },
{
    match render_html(html, 120) {
        Some(text) => Some(anticheat_summary_from_text(text.as_str())),
        None => None,
    }
}

// ---------------------------------------------------------------------------
// The sub-agent's report
// ---------------------------------------------------------------------------

/// The report of the game sub-agent, from its "调查结果" section on.
pub open spec fn game_report(content: Seq<char>) -> Seq<char> {
    stripped_report(content, "## 调查结果"@, "# 调查结果"@, "最终报告"@, 30)
}

/// Cuts what the sub-agent wrote before its report (`strip_report_preamble`).
pub fn strip_report_preamble(content: &str) -> (r: String)
    ensures
        r@ == game_report(content@),
{
    strip_preamble(content, "## 调查结果", "# 调查结果", "最终报告", 30)
}

/// The message that starts an investigation of `game`, with the user's concern or
/// "未明确" when there is none.
pub open spec fn investigation_prompt(game: Seq<char>, issue: Seq<char>) -> Seq<char> {
    "用户问题：\n游戏："@ + game + "\n关注点："@ + (if trim(issue).len() == 0 {
        "未明确"@
    } else {
        issue
    }) + "\n\n请按系统提示词流程完成调查。第一步必须调用 gather_linux_game_compatibility_signals。最终只输出调查报告。"@
}

/// The message that starts an investigation of `game`.
pub fn game_prompt(game: &str, issue: &str) -> (r: String)
    ensures
        r@ == investigation_prompt(game@, issue@),
{
    let mut out: Vec<char> = Vec::new();
    push_str(&mut out, "用户问题：\n游戏：");
    push_str(&mut out, game);
    push_str(&mut out, "\n关注点：");
    let ic = chars_of(issue);
    let it = trim_ws(ic.as_slice());
    if it.len() == 0 {
        push_str(&mut out, "未明确");
    } else {
        push_str(&mut out, issue);
    }
    push_str(
        &mut out,
        "\n\n请按系统提示词流程完成调查。第一步必须调用 gather_linux_game_compatibility_signals。最终只输出调查报告。",
    );
    proof {
        assert(out@ =~= investigation_prompt(game@, issue@));
    }
    string_of(out.as_slice())
}


/// The `linux_game_compatibility` tool, as `register` adds it.
pub open spec fn game_compatibility_tool() -> crate::tools::registry::ToolView {
    crate::tools::registry::ToolView {
        name: "linux_game_compatibility"@,
        display_name: None,
        description: "Run the Linux game compatibility investigation sub-agent and return its final report. / 运行 Linux 游戏兼容性调查子代理并返回最终报告。"@,
        parameters: "{\"type\":\"object\",\"properties\":{\"game\":{\"type\":\"string\",\"description\":\"Game title. / 游戏名称。\"},\"issue\":{\"type\":\"string\",\"description\":\"Optional issue such as crash, multiplayer, anti-cheat, performance, mods. / 可选关注点，例如崩溃、多人、反作弊、性能、Mod。\"}},\"required\":[\"game\"],\"additionalProperties\":false}"@,
        permission: crate::tools::registry::ToolPermission::ReadOnly,
        is_script: false,
        always_loaded: true,
        run: None,
    }
}

/// Adds the `linux_game_compatibility` tool to the registry (`register`); running it, with the
/// configuration it needs, is the application's part.
pub fn register(registry: &mut crate::tools::registry::ToolRegistry)
    ensures
        final(registry)@ == crate::tools::registry::register_view(old(registry)@, game_compatibility_tool()),
        final(registry).unregistered_view() == old(registry).unregistered_view(),
{
    let spec = crate::tools::registry::ToolSpec::new(
        crate::text::string_of(crate::text::chars_of("linux_game_compatibility").as_slice()),
        crate::text::string_of(crate::text::chars_of("Run the Linux game compatibility investigation sub-agent and return its final report. / 运行 Linux 游戏兼容性调查子代理并返回最终报告。").as_slice()),
        crate::text::string_of(crate::text::chars_of("{\"type\":\"object\",\"properties\":{\"game\":{\"type\":\"string\",\"description\":\"Game title. / 游戏名称。\"},\"issue\":{\"type\":\"string\",\"description\":\"Optional issue such as crash, multiplayer, anti-cheat, performance, mods. / 可选关注点，例如崩溃、多人、反作弊、性能、Mod。\"}},\"required\":[\"game\"],\"additionalProperties\":false}").as_slice()),
    );
    registry.register(spec);
}


/// The ProtonDB summary of a Steam app.
pub open spec fn protondb_summary_url(appid: u64) -> Seq<char> {
    "https://www.protondb.com/api/v1/reports/summaries/"@ + decimal(appid as nat) + ".json"@
}

/// The Can I Play on Linux page of a slug.
pub open spec fn can_i_play_url(slug: Seq<char>) -> Seq<char> {
    "https://caniplayonlinux.com/games/"@ + slug + "/"@
}

/// The AreWeAntiCheatYet page of a slug.
pub open spec fn anticheat_url(slug: Seq<char>) -> Seq<char> {
    "https://areweanticheatyet.com/game/"@ + slug
}

/// The Steam store page of an app.
pub open spec fn steam_app_url(appid: u64) -> Seq<char> {
    "https://store.steampowered.com/app/"@ + decimal(appid as nat) + "/"@
}

/// The ProtonDB page of an app.
pub open spec fn protondb_app_url(appid: u64) -> Seq<char> {
    "https://www.protondb.com/app/"@ + decimal(appid as nat)
}

fn with_number(prefix: &str, n: u64, suffix: &str) -> (r: String)
    ensures
        r@ == prefix@ + decimal(n as nat) + suffix@,
{
    let d = crate::text::decimal_chars(n);
    let mut out: Vec<char> = Vec::new();
    push_str(&mut out, prefix);
    crate::text::push_all(&mut out, d.as_slice());
    push_str(&mut out, suffix);
    string_of(out.as_slice())
}

fn with_text(prefix: &str, t: &str, suffix: &str) -> (r: String)
    ensures
        r@ == prefix@ + t@ + suffix@,
{
    let mut out: Vec<char> = Vec::new();
    push_str(&mut out, prefix);
    push_str(&mut out, t);
    push_str(&mut out, suffix);
    string_of(out.as_slice())
}

/// The ProtonDB summary URL of a Steam app.
pub fn protondb_summary(appid: u64) -> (r: String)
    ensures
        r@ == protondb_summary_url(appid),
{
    with_number("https://www.protondb.com/api/v1/reports/summaries/", appid, ".json")
}

/// The Can I Play on Linux URL of a slug.
pub fn can_i_play_page(slug: &str) -> (r: String)
    ensures
        r@ == can_i_play_url(slug@),
{
    with_text("https://caniplayonlinux.com/games/", slug, "/")
}

/// The AreWeAntiCheatYet URL of a slug.
pub fn anticheat_page(slug: &str) -> (r: String)
    ensures
        r@ == anticheat_url(slug@),
{
    proof {
        reveal_strlit("");
    }
    with_text("https://areweanticheatyet.com/game/", slug, "")
}

/// The Steam store URL of an app.
pub fn steam_app_page(appid: u64) -> (r: String)
    ensures
        r@ == steam_app_url(appid),
{
    with_number("https://store.steampowered.com/app/", appid, "/")
}

/// The ProtonDB URL of an app.
pub fn protondb_app_page(appid: u64) -> (r: String)
    ensures
        r@ == protondb_app_url(appid),
{
    proof {
        reveal_strlit("");
    }
    with_number("https://www.protondb.com/app/", appid, "")
}

/// The query sent to Steam: the first candidate, else the game as asked.
pub fn search_query(candidates: &[String], game: &str) -> (r: String)
    ensures
        r@ == if candidates@.len() > 0 {
            candidates@[0]@
        } else {
            game@
        },
{
    if candidates.len() > 0 {
        string_of(crate::text::chars_of(candidates[0].as_str()).as_slice())
    } else {
        string_of(crate::text::chars_of(game).as_slice())
    }
}

/// The `gather_linux_game_compatibility_signals` tool of the investigation.
pub open spec fn gather_signals_tool() -> crate::tools::registry::ToolView {
    crate::tools::registry::ToolView {
        name: "gather_linux_game_compatibility_signals"@,
        display_name: None,
        description: "Gather Steam, ProtonDB, Can I Play on Linux, and AreWeAntiCheatYet compatibility signals for one game. / 收集单个游戏在 Steam、ProtonDB、Can I Play on Linux、AreWeAntiCheatYet 上的兼容性信号。"@,
        parameters: "{\"type\":\"object\",\"properties\":{\"game\":{\"type\":\"string\",\"description\":\"Game title. / 游戏名称。\"},\"issue\":{\"type\":\"string\",\"description\":\"Optional issue such as crash, multiplayer, anti-cheat, performance, mods. / 可选关注点，例如崩溃、多人、反作弊、性能、Mod。\"}},\"required\":[\"game\"],\"additionalProperties\":false}"@,
        permission: crate::tools::registry::ToolPermission::ReadOnly,
        is_script: false,
        always_loaded: true,
        run: None,
    }
}

/// Adds the signal-gathering tool to the tools of the investigation
/// (`game_tool_registry`).
pub fn game_tool_registry(registry: &mut crate::tools::registry::ToolRegistry)
    ensures
        final(registry)@ == crate::tools::registry::register_view(old(registry)@, gather_signals_tool()),
        final(registry).unregistered_view() == old(registry).unregistered_view(),
{
    let spec = crate::tools::registry::ToolSpec::new(
        string_of(crate::text::chars_of("gather_linux_game_compatibility_signals").as_slice()),
        string_of(crate::text::chars_of("Gather Steam, ProtonDB, Can I Play on Linux, and AreWeAntiCheatYet compatibility signals for one game. / 收集单个游戏在 Steam、ProtonDB、Can I Play on Linux、AreWeAntiCheatYet 上的兼容性信号。").as_slice()),
        string_of(crate::text::chars_of("{\"type\":\"object\",\"properties\":{\"game\":{\"type\":\"string\",\"description\":\"Game title. / 游戏名称。\"},\"issue\":{\"type\":\"string\",\"description\":\"Optional issue such as crash, multiplayer, anti-cheat, performance, mods. / 可选关注点，例如崩溃、多人、反作弊、性能、Mod。\"}},\"required\":[\"game\"],\"additionalProperties\":false}").as_slice()),
    );
    registry.register(spec);
}


/// A character a slug may hold: a lowercase ASCII letter, a digit or a dash.
pub open spec fn slug_char(c: char) -> bool {
    (48 <= c as u32 && c as u32 <= 57) || (97 <= c as u32 && c as u32 <= 122) || c == '-'
}

/// Slug characters only, no dash at either end, never two dashes in a row.
pub open spec fn slug_form(s: Seq<char>) -> bool {
    &&& forall|k: int| 0 <= k < s.len() ==> slug_char(#[trigger] s[k])
    &&& s.len() > 0 ==> s[0] != '-' && s.last() != '-'
    &&& forall|k: int| 0 <= k < s.len() - 1 ==> !(#[trigger] s[k] == '-' && s[k + 1] == '-')
}

proof fn lemma_slug_run(s: Seq<char>, last_dash: bool)
    requires
        forall|k: int| 0 <= k < s.len() && is_ascii_alnum(#[trigger] s[k]) ==> slug_char(s[k]),
    ensures
        forall|k: int| 0 <= k < slug_run(s, last_dash).len() ==> slug_char(#[trigger] slug_run(s, last_dash)[k]),
        forall|k: int| 0 <= k < slug_run(s, last_dash).len() - 1 ==> !(#[trigger] slug_run(s, last_dash)[k] == '-'
            && slug_run(s, last_dash)[k + 1] == '-'),
        last_dash && slug_run(s, last_dash).len() > 0 ==> slug_run(s, last_dash)[0] != '-',
    decreases s.len(),
{
    if s.len() > 0 {
        let t = s.drop_first();
        assert forall|k: int| 0 <= k < t.len() && is_ascii_alnum(#[trigger] t[k]) implies slug_char(t[k]) by {
            assert(t[k] == s[k + 1]);
        }
        let r = slug_run(s, last_dash);
        if is_ascii_alnum(s[0]) {
            lemma_slug_run(t, false);
            let rt = slug_run(t, false);
            assert(r == seq![s[0]] + rt);
            assert forall|k: int| 0 <= k < r.len() implies slug_char(#[trigger] r[k]) by {
                if k > 0 {
                    assert(r[k] == rt[k - 1]);
                }
            }
            assert forall|k: int| 0 <= k < r.len() - 1 implies !(#[trigger] r[k] == '-' && r[k + 1] == '-') by {
                if k > 0 {
                    assert(r[k] == rt[k - 1]);
                    assert(r[k + 1] == rt[k]);
                }
            }
        } else if !last_dash {
            lemma_slug_run(t, true);
            let rt = slug_run(t, true);
            assert(r == seq!['-'] + rt);
            assert forall|k: int| 0 <= k < r.len() implies slug_char(#[trigger] r[k]) by {
                if k > 0 {
                    assert(r[k] == rt[k - 1]);
                }
            }
            assert forall|k: int| 0 <= k < r.len() - 1 implies !(#[trigger] r[k] == '-' && r[k + 1] == '-') by {
                assert(r[k + 1] == rt[k]);
                if k > 0 {
                    assert(r[k] == rt[k - 1]);
                }
            }
        } else {
            lemma_slug_run(t, true);
        }
    }
}

proof fn lemma_trim_start_dash(s: Seq<char>) -> (i: int)
    ensures
        0 <= i <= s.len(),
        crate::text::trim_start_set(s, CharSet::Only('-')) == s.skip(i),
        i < s.len() ==> s[i] != '-',
    decreases s.len(),
{
    if s.len() > 0 && s[0] == '-' {
        let j = lemma_trim_start_dash(s.drop_first());
        assert(s.drop_first().skip(j) =~= s.skip(j + 1));
        j + 1
    } else {
        assert(s.skip(0) =~= s);
        0
    }
}

proof fn lemma_trim_end_dash(s: Seq<char>) -> (j: int)
    ensures
        0 <= j <= s.len(),
        crate::text::trim_end_set(s, CharSet::Only('-')) == s.take(j),
        j > 0 ==> s[j - 1] != '-',
    decreases s.len(),
{
    if s.len() > 0 && s.last() == '-' {
        let j = lemma_trim_end_dash(s.drop_last());
        assert(s.drop_last().take(j) =~= s.take(j));
        j
    } else {
        assert(s.take(s.len() as int) =~= s);
        s.len() as int
    }
}

/// A slug is made of lowercase ASCII letters, digits and single dashes, with no dash
/// at either end, whatever the title.
pub proof fn law_slug_form(value: Seq<char>)
    ensures
        slug_form(slug(value)),
{
    let l = lower(value);
    assert forall|k: int| 0 <= k < l.len() && is_ascii_alnum(#[trigger] l[k]) implies slug_char(l[k]) by {
        assert(l[k] == crate::text::lower_char(value[k]));
    }
    lemma_slug_run(l, false);
    let r = slug_run(l, false);
    let i = lemma_trim_start_dash(r);
    let t = r.skip(i);
    let j = lemma_trim_end_dash(t);
    let u = t.take(j);
    assert(slug(value) == u);
    assert forall|k: int| 0 <= k < u.len() implies slug_char(#[trigger] u[k]) by {
        assert(u[k] == r[k + i]);
    }
    assert forall|k: int| 0 <= k < u.len() - 1 implies !(#[trigger] u[k] == '-' && u[k + 1] == '-') by {
        assert(u[k] == r[k + i]);
        assert(u[k + 1] == r[k + 1 + i]);
    }
    if u.len() > 0 {
        assert(u[0] == t[0]);
        assert(u.last() == t[j - 1]);
    }
}


/// The system prompt of the game compatibility sub-agent.
pub const GAME_COMPATIBILITY_PROMPT: &'static str = r#"你是Linux 游戏兼容性调查子代理。

你的任务是调查用户询问的游戏能否在 Linux 上运行、怎么玩、是否有反作弊阻断、需要什么 Proton 版本或启动方式，并输出一份可以直接交给主智能体回复用户的最终调查报告。

## 核心流程

你必须按以下流程工作：

1. 首先调用 Linux 游戏兼容性基础信号采集工具，查询：
   - Steam / AppID / 游戏名匹配情况
   - ProtonDB 概览
   - Can I Play on Linux
   - AreWeAntiCheatYet

2. 根据基础信号做第一轮判断后进行如下操作：
   - 如果 ProtonDB 有该游戏记录，就优先查看 ProtonDB 的玩家报告/评论，因为评论通常包含：
     - 能不能启动
     - 用什么 Proton / GE-Proton
     - 是否需要启动参数
     - 性能表现
     - 崩溃、黑屏、启动器、音频、视频、手柄等问题
     - Steam Deck 体验
   - 如果 ProtonDB 没有该游戏，或者 ProtonDB 信息明显不足，使用网络搜索、知识库等其他信息搜集工具补查。

3. 在以下情况必须进行额外网络搜索：
   - 三个兼容性来源缺失或冲突；
   - 反作弊状态不明确；
   - 用户明确问性能、崩溃、Mod、启动器、Steam Deck、多人/联机；
   - ProtonDB 没有该游戏；
   - 近期有重大更新，旧信息可能过期。

4. 搜索必须克制：
   - 优先官方页面、ProtonDB、AreWeAntiCheatYet、Can I Play on Linux、PCGamingWiki、GitHub issue、Steam 社区、玩家社区、各平台近期玩家讨论。
   - 不要为了补全所有细节反复搜索。
   - 查不到就明确说不确定，不要编造。

## 判断规则

最终必须给出红绿灯结论：

- 🟢 可玩
- 🟡 不一定能玩
- 🔴 不可玩

以下是可以参考的判断规则：

1. ProtonDB Gold / Platinum 且没有反作弊阻断，通常可以倾向 🟢。
2. Can I Play on Linux 标记 Works，且 ProtonDB/玩家报告一致，通常可以倾向 🟢。
3. AreWeAntiCheatYet 标记 Running，说明反作弊目前社区层面可运行，但不等于承诺 Linux 支持。
4. AreWeAntiCheatYet 标记 Broken / Denied，且通常应为 🔴。
5. 来源冲突、反作弊状态不明、近期变化多、玩家报告分裂时，用 🟡表示不确定。
6. 单机可玩但多人不可玩，必须拆开说，不要笼统说“可玩”。
7. Steam Deck Playable 不等于桌面 Linux 完全没问题。
8. Can I Play on Linux 的 recommended Proton 是该来源记录的历史验证版本，不要说成“当前最新推荐 Proton”。
9. 如果用户问“怎么玩”，必须给出实际可执行路线，而不是只回答能不能玩。

## 必须区分的维度

调查时尽量区分：

- Steam 版 / 非 Steam 版
- 桌面 Linux / Steam Deck
- 单机 / 多人 / 在线
- 反作弊是否阻断
- Proton/Wine 版本
- 启动器问题
- 性能表现
- 崩溃、黑屏、音频、视频、手柄、Mod 等常见问题
- 官方支持、社区经验、玩家临时绕过方案之间的区别

## 禁止事项

- 不要编造来源。
- 不要编造 Proton 版本。
- 不要编造 FPS。
- 不要编造官方声明。
- 不要编造封号案例。
- 不要把社区经验说成官方保证。
- 不要把“目前能玩”说成“永远稳定可玩”。
- 不要把“Steam Deck Playable”说成“Valve Verified”。
- 不要因为某个来源缺失就直接断言不可玩。

## 输出格式

最终只输出调查报告，不输出内部思考，不输出工具调用过程，不输出“以下是最终报告”这类元话语，不要在开头加分割线。

报告必须包含以下章节：

## 调查结果

第一行必须是红绿灯结论，例如：

🟢 Wuthering Waves 可玩

或：

🟡 Apex Legends 不一定能玩

然后用 1-3 句话说明总体判断。

## 依据

列出关键证据。可以使用项目符号或表格。

每条证据要说明：
- 来源
- 关键信息
- 支撑了什么判断
- 如果能确认时间或时效性，也要写出来

如果来源冲突，必须单独说明冲突点和你的取舍。

## 怎么玩

必须给出可执行路线。

根据实际情况可能包含：

- Steam 安装方式
- Proton/Wine 版本选择
- 是否需要启动参数
- 是否需要第三方启动器
- 是否需要 Flatpak / AUR / Heroic / Lutris
- 第一次启动要注意什么

## 注意事项

必须说明风险：

- 反作弊更新风险
- 官方未承诺 Linux 支持
- 账号/ToS 风险
- Steam Deck 与桌面 Linux 差异
- 非 Steam 版本差异
- 性能不确定性
- 来源过期风险

只有在有明确证据时，才额外添加：

## 性能表现

不要编造 FPS。没有 FPS、硬件、画质、Steam Deck 或 Windows 对比数据时，不要写这个章节。
"#;


/// The tier table: with no "Broken" on the Can I Play on Linux page and no denied or
/// broken anti-cheat, a ProtonDB tier of platinum or gold, or "Works" on the Can I Play
/// page, means the game works; silver or bronze without "Works" means it may work;
/// with no source at all the data is insufficient.
pub proof fn law_tier_table(
    protondb: Option<ProtonDbSummary>,
    can_i_play: Option<Seq<char>>,
    anticheat: Option<Seq<char>>,
    issue: Seq<char>,
)
    requires
        can_i_play matches Some(c) ==> !contains(c, "Broken"@),
        anticheat matches Some(a) ==> !contains(a, "Denied"@) && !contains(a, "Broken"@),
    ensures
        (protondb matches Some(s) && s.tier matches Some(t) && (t@ == "platinum"@ || t@ == "gold"@))
            ==> verdict_of(protondb, can_i_play, anticheat, issue) == Verdict::Works,
        (can_i_play matches Some(c) && contains(c, "Works"@)) ==> verdict_of(
            protondb,
            can_i_play,
            anticheat,
            issue,
        ) == Verdict::Works,
        (protondb matches Some(s) && s.tier matches Some(t) && (t@ == "silver"@ || t@ == "bronze"@)
            && !(can_i_play matches Some(c) && contains(c, "Works"@))) ==> verdict_of(
            protondb,
            can_i_play,
            anticheat,
            issue,
        ) == Verdict::Partial,
        (protondb is None && can_i_play is None) ==> verdict_of(protondb, can_i_play, anticheat, issue)
            == Verdict::Insufficient,
{
    reveal_strlit("platinum");
    reveal_strlit("gold");
    reveal_strlit("silver");
    reveal_strlit("bronze");
    assert("silver"@ != "platinum"@ && "silver"@ != "gold"@) by {
        assert("silver"@.len() != "platinum"@.len() && "silver"@.len() != "gold"@.len());
    }
    assert("bronze"@ != "platinum"@ && "bronze"@ != "gold"@) by {
        assert("bronze"@.len() != "platinum"@.len() && "bronze"@.len() != "gold"@.len());
    }
    assert(!good_tier(Seq::<char>::empty()) && !fair_tier(Seq::<char>::empty())) by {
        assert("platinum"@.len() > 0 && "gold"@.len() > 0 && "silver"@.len() > 0 && "bronze"@.len() > 0);
    }
}

/// What comes before the tiers: a question about playing with others (it mentions
/// multi or online in any ASCII case, or 联机, 多人 or 反作弊) on a game whose
/// anti-cheat is denied or broken is blocked by anti-cheat; a question that mentions
/// none of these is judged as if there were no anti-cheat report; otherwise "Broken"
/// on the Can I Play on Linux page means broken, and "Partial" there, with no better
/// signal, means it may work.
pub proof fn law_verdict_precedence(
    protondb: Option<ProtonDbSummary>,
    can_i_play: Option<Seq<char>>,
    anticheat: Option<Seq<char>>,
    issue: Seq<char>,
)
    ensures
        ({
            let together = contains(issue, "联机"@) || contains(issue, "多人"@) || contains(
                issue,
                "反作弊"@,
            ) || contains(lower(issue), "online"@) || contains(lower(issue), "multi"@);
            let denied = anticheat matches Some(a) && (contains(a, "Denied"@) || contains(
                a,
                "Broken"@,
            ));
            let v = verdict_of(protondb, can_i_play, anticheat, issue);
            &&& together && denied ==> v == Verdict::AntiCheatBlocked
            &&& !together ==> v == verdict_of(protondb, can_i_play, None, issue)
            &&& !(together && denied) && (can_i_play matches Some(c) && contains(c, "Broken"@))
                ==> v == Verdict::Broken
            &&& !(together && denied) && (can_i_play matches Some(c) && contains(c, "Partial"@)
                && !contains(c, "Broken"@) && !contains(c, "Works"@)) && !(protondb matches Some(
                s,
            ) && s.tier matches Some(t) && (t@ == "platinum"@ || t@ == "gold"@)) ==> v
                == Verdict::Partial
        }),
{
    reveal_strlit("platinum");
    reveal_strlit("gold");
    assert(!good_tier(Seq::<char>::empty())) by {
        assert("platinum"@.len() > 0 && "gold"@.len() > 0);
    }
}

/// The confidence table: high with a Steam match, a platinum or gold ProtonDB tier,
/// "Works" on the Can I Play on Linux page and an anti-cheat report; otherwise medium
/// with any of the tiers platinum, gold, silver and bronze or a "Works" or "Partial"
/// mark; otherwise low. A follow-up is asked for each missing source and for
/// insufficient data, in the order Steam, ProtonDB, Can I Play on Linux,
/// AreWeAntiCheatYet, data.
pub proof fn law_confidence_table(
    appid: Option<u64>,
    protondb: Option<ProtonDbSummary>,
    can_i_play: Option<Seq<char>>,
    anticheat: Option<Seq<char>>,
    v: Verdict,
)
    ensures
        ({
            let t = tier_of(protondb);
            let tiered = t == "gold"@ || t == "platinum"@ || t == "bronze"@ || t == "silver"@;
            let works = can_i_play matches Some(c) && contains(c, "Works"@);
            let partial = can_i_play matches Some(c) && contains(c, "Partial"@);
            let high = appid is Some && (t == "gold"@ || t == "platinum"@) && works
                && anticheat is Some;
            let level = level_of(appid, protondb, can_i_play, anticheat);
            let reasons = followup_reasons(appid, protondb, can_i_play, anticheat, v);
            &&& high ==> level == ConfidenceLevel::High
            &&& !high && (tiered || works || partial) ==> level == ConfidenceLevel::Medium
            &&& !tiered && !works && !partial ==> level == ConfidenceLevel::Low
            &&& reasons.len() == (if appid is None { 1int } else { 0int }) + (if protondb is None {
                1int
            } else {
                0int
            }) + (if can_i_play is None { 1int } else { 0int }) + (if anticheat is None {
                1int
            } else {
                0int
            }) + (if v == Verdict::Insufficient { 1int } else { 0int })
            &&& (appid is None && protondb is None && can_i_play is None && anticheat is None && v
                == Verdict::Insufficient) ==> reasons == seq![
                "Steam app id was not found"@,
                "ProtonDB data is missing"@,
                "Can I Play on Linux data is missing"@,
                "AreWeAntiCheatYet data is missing"@,
                "compatibility data is insufficient"@,
            ]
        }),
{
    reveal_strlit("platinum");
    reveal_strlit("gold");
    reveal_strlit("silver");
    reveal_strlit("bronze");
    let t = tier_of(protondb);
    if t.len() == 0 {
        assert(!good_tier(t) && !fair_tier(t)) by {
            assert("platinum"@.len() > 0 && "gold"@.len() > 0 && "silver"@.len() > 0
                && "bronze"@.len() > 0);
        }
    }
    let reasons = followup_reasons(appid, protondb, can_i_play, anticheat, v);
    if appid is None && protondb is None && can_i_play is None && anticheat is None && v
        == Verdict::Insufficient {
        assert(reasons =~= seq![
            "Steam app id was not found"@,
            "ProtonDB data is missing"@,
            "Can I Play on Linux data is missing"@,
            "AreWeAntiCheatYet data is missing"@,
            "compatibility data is insufficient"@,
        ]);
    }
}

} // verus!
