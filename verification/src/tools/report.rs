//! Helpers shared by the sub-agent tools: reading a required argument and cutting
//! the chatter that a model writes before its report.
use crate::text::{byte_len, chars_of, contains, contains_seq, contains_str, copy_range, eq_str, find, find_in, join, join_parts, lines, push_str, split_lines, split_words, string_of, trim, trim_start_set, trim_ws, utf8_len, views, words, CharSet, is_ws, starts_with, lemma_trim_fixed};
use vstd::prelude::*;

verus! {

/// A line that a model writes before its report: blank, a rule, an announcement
/// ("以下是…"), or a short line that names the report.
pub open spec fn is_preamble_line(line: Seq<char>, keyword: Seq<char>, max_bytes: nat) -> bool {
    let l = trim(line);
    l.len() == 0 || l == "---"@ || contains(l, "以下是"@) || (contains(l, keyword) && utf8_len(l)
        < max_bytes)
}

/// The lines from the first one that is not preamble on.
pub open spec fn skip_preamble(ls: Seq<Seq<char>>, keyword: Seq<char>, max_bytes: nat) -> Seq<
    Seq<char>,
>
    decreases ls.len(),
{
    if ls.len() > 0 && is_preamble_line(ls[0], keyword, max_bytes) {
        skip_preamble(ls.drop_first(), keyword, max_bytes)
    } else {
        ls
    }
}

/// The report in `content`: from its first heading (`h1`, else `h2`) on, trimmed;
/// without either heading, the trimmed content without its leading preamble lines.
pub open spec fn stripped_report(
    content: Seq<char>,
    h1: Seq<char>,
    h2: Seq<char>,
    keyword: Seq<char>,
    max_bytes: nat,
) -> Seq<char> {
    let t = trim(content);
    match find(t, h1) {
        Some(i) => trim(t.skip(i)),
        None => match find(t, h2) {
            Some(i) => trim(t.skip(i)),
            None => join(skip_preamble(lines(t), keyword, max_bytes), "\n"@),
        },
    }
}

fn is_preamble(line: &[char], keyword: &[char], max_bytes: usize) -> (b: bool)
    ensures
        b == is_preamble_line(line@, keyword@, max_bytes as nat),
{
    let l = trim_ws(line);
    if l.len() == 0 || eq_str(l.as_slice(), "---") || contains_str(l.as_slice(), "以下是") {
        return true;
    }
    if !contains_seq(l.as_slice(), keyword) {
        return false;
    }
    match byte_len(l.as_slice()) {
        Some(n) => n < max_bytes,
        None => false,
    }
}

/// Cuts the text before a model's report (`strip_report_preamble`).
pub fn strip_preamble(content: &str, h1: &str, h2: &str, keyword: &str, max_bytes: usize) -> (r:
    String)
    ensures
        r@ == stripped_report(content@, h1@, h2@, keyword@, max_bytes as nat),
{
    let cs = chars_of(content);
    let t = trim_ws(cs.as_slice());
    let hc1 = chars_of(h1);
    match find_in(t.as_slice(), hc1.as_slice()) {
        Some(i) => {
            let rest = copy_range(t.as_slice(), i, t.len());
            proof {
                assert(rest@ =~= t@.skip(i as int));
            }
            let out = trim_ws(rest.as_slice());
            return string_of(out.as_slice());
        },
        None => {},
    }
    let hc2 = chars_of(h2);
    match find_in(t.as_slice(), hc2.as_slice()) {
        Some(i) => {
            let rest = copy_range(t.as_slice(), i, t.len());
            proof {
                assert(rest@ =~= t@.skip(i as int));
            }
            let out = trim_ws(rest.as_slice());
            return string_of(out.as_slice());
        },
        None => {},
    }
    let kw = chars_of(keyword);
    let ls = split_lines(t.as_slice());
    let mut k: usize = 0;
    proof {
        assert(views(ls@).skip(0) =~= views(ls@));
    }
    while k < ls.len() && is_preamble(ls[k].as_slice(), kw.as_slice(), max_bytes)
        invariant
            0 <= k <= ls@.len(),
            skip_preamble(views(ls@), kw@, max_bytes as nat) == skip_preamble(
                views(ls@).skip(k as int),
                kw@,
                max_bytes as nat,
            ),
        decreases ls.len() - k,
    {
        proof {
            assert(views(ls@).skip(k as int).drop_first() =~= views(ls@).skip(k + 1));
        }
        k = k + 1;
    }
    let mut rest: Vec<Vec<char>> = Vec::new();
    let mut j: usize = k;
    while j < ls.len()
        invariant
            k <= j <= ls@.len(),
            views(rest@) == views(ls@).subrange(k as int, j as int),
        decreases ls.len() - j,
    {
        let line = copy_range(ls[j].as_slice(), 0, ls[j].len());
        proof {
            assert(line@ =~= ls@[j as int]@);
        }
        let ghost before = views(rest@);
        rest.push(line);
        j = j + 1;
        proof {
            assert(views(rest@) =~= before.push(line@));
            assert(views(rest@) =~= views(ls@).subrange(k as int, j as int));
        }
    }
    proof {
        assert(views(ls@).skip(k as int) =~= views(ls@).subrange(k as int, ls@.len() as int));
    }
    let sep = chars_of("\n");
    let joined = join_parts(&rest, sep.as_slice());
    string_of(joined.as_slice())
}

/// The value of a required string argument: the trimmed text, or an error naming the
/// argument when it is missing or blank.
pub open spec fn required_value(value: Option<Seq<char>>, key: Seq<char>) -> Result<
    Seq<char>,
    Seq<char>,
> {
    let t = match value {
        Some(v) => trim(v),
        None => seq![],
    };
    if t.len() == 0 {
        Err("missing required argument: "@ + key)
    } else {
        Ok(t)
    }
}

pub open spec fn opt_view(o: Option<&str>) -> Option<Seq<char>> {
    match o {
        Some(s) => Some(s@),
        None => None,
    }
}

/// A required string argument (`required`): `value` is the argument's text when it
/// is present and a string.
pub fn required(value: Option<&str>, key: &str) -> (r: Result<String, String>)
    ensures
        match r {
            Ok(v) => required_value(opt_view(value), key@) == Ok::<Seq<char>, Seq<char>>(v@),
            Err(e) => required_value(opt_view(value), key@) == Err::<Seq<char>, Seq<char>>(e@),
        },
{
    let cs = match value {
        Some(v) => chars_of(v),
        None => Vec::new(),
    };
    let t = trim_ws(cs.as_slice());
    proof {
        if value is None {
            assert(trim(cs@) =~= trim(seq![]));
            assert(trim_start_set(Seq::<char>::empty(), CharSet::Whitespace) =~= Seq::<char>::empty());
        }
    }
    if t.len() == 0 {
        let mut msg: Vec<char> = Vec::new();
        push_str(&mut msg, "missing required argument: ");
        push_str(&mut msg, key);
        proof {
            assert(msg@ =~= "missing required argument: "@ + key@);
        }
        Err(string_of(msg.as_slice()))
    } else {
        Ok(string_of(t.as_slice()))
    }
}

/// A report that already starts with its first heading, with nothing around it to
/// trim, comes back unchanged.
pub proof fn law_report_kept(
    content: Seq<char>,
    h1: Seq<char>,
    h2: Seq<char>,
    keyword: Seq<char>,
    max_bytes: nat,
)
    ensures
        h1.len() > 0 && starts_with(content, h1) && !is_ws(content[0]) && !is_ws(content.last())
            ==> stripped_report(content, h1, h2, keyword, max_bytes) == content,
{
    if h1.len() > 0 && starts_with(content, h1) && !is_ws(content[0]) && !is_ws(content.last()) {
        lemma_trim_fixed(content);
        assert(content.skip(0) =~= content);
    }
}

/// A missing or blank argument is refused with "missing required argument: " and its
/// name; any other comes back trimmed.
pub proof fn law_required_argument(value: Seq<char>, key: Seq<char>)
    ensures
        required_value(None, key) == Err::<Seq<char>, Seq<char>>(
            "missing required argument: "@ + key,
        ),
        trim(value).len() == 0 ==> required_value(Some(value), key) == Err::<
            Seq<char>,
            Seq<char>,
        >("missing required argument: "@ + key),
        trim(value).len() > 0 ==> required_value(Some(value), key) == Ok::<Seq<char>, Seq<char>>(
            trim(value),
        ),
{
}

} // verus!
