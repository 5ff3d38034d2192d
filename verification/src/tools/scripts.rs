//! User scripts as tools: the metadata in a script's header, the scripts found in the
//! system and user script directories, and the tool specifications made from them.
use crate::text::{
    chars_of, copy_range, eq_str, has_prefix, lines, lower, prefix_chars, push_all, push_str,
    split_lines, split_once, split_once_char, starts_with, starts_with_str, string_of, to_lower,
    trim, trim_chars, trim_start_chars, trim_start_set, trim_ws, views, CharSet, in_set, is_ws, lower_char,
    lemma_set_pos_is, lemma_trim_fixed,
};
use crate::tools::registry::{
    register_view, ScriptRun, ToolPermission, ToolRegistry, ToolSpec, ToolView, lookup,
};
use vstd::prelude::*;

verus! {

pub const SCRIPT_TIMEOUT_SECS: u64 = 120;

pub const MAX_SCRIPT_OUTPUT_CHARS: usize = 20000;

// ---------------------------------------------------------------------------
// Header metadata
// ---------------------------------------------------------------------------

/// The language of a description line.
#[derive(Clone, Copy, PartialEq, Eq, Structural, Debug)]
pub enum DescriptionKey {
    Chinese,
    English,
}

/// The language of a display-name line.
#[derive(Clone, Copy, PartialEq, Eq, Structural, Debug)]
pub enum DisplayNameKey {
    Chinese,
    English,
}

/// A script's descriptions, per language.
#[derive(Debug, PartialEq, Eq)]
pub struct ScriptDescriptions {
    pub zh: Option<String>,
    pub en: Option<String>,
}

/// A script's display names, per language.
#[derive(Debug, PartialEq, Eq)]
pub struct ScriptDisplayNames {
    pub zh: Option<String>,
    pub en: Option<String>,
}

/// What a script's header says about it.
#[derive(Debug, PartialEq, Eq)]
pub struct ScriptMetadata {
    pub descriptions: ScriptDescriptions,
    pub display_names: ScriptDisplayNames,
}

pub open spec fn ov(o: Option<String>) -> Option<Seq<char>> {
    match o {
        Some(s) => Some(s@),
        None => None,
    }
}

/// `line.split_once(':')`, else `line.split_once('：')`.
pub open spec fn colon_split(line: Seq<char>) -> Option<(Seq<char>, Seq<char>)> {
    match split_once(line, ':') {
        Some(p) => Some(p),
        None => split_once(line, '：'),
    }
}

pub open spec fn description_key(key: Seq<char>) -> Option<DescriptionKey> {
    if key == "描述"@ || key == "功能介绍"@ {
        Some(DescriptionKey::Chinese)
    } else if lower(key) == "description"@ {
        Some(DescriptionKey::English)
    } else {
        None
    }
}

pub open spec fn display_name_key(key: Seq<char>) -> Option<DisplayNameKey> {
    if key == "显示名称"@ || key == "工具名称"@ {
        Some(DisplayNameKey::Chinese)
    } else if lower(key) == "display_name"@ || lower(key) == "display name"@ {
        Some(DisplayNameKey::English)
    } else {
        None
    }
}

/// A `key: value` line whose key names a description, with a non-blank value.
pub open spec fn description_line(line: Seq<char>) -> Option<(DescriptionKey, Seq<char>)> {
    match colon_split(line) {
        Some((k, v)) => if trim(v).len() == 0 {
            None
        } else {
            match description_key(trim(k)) {
                Some(d) => Some((d, trim(v))),
                None => None,
            }
        },
        None => None,
    }
}

/// A `key: value` line whose key names a display name, with a non-blank value.
pub open spec fn display_name_line(line: Seq<char>) -> Option<(DisplayNameKey, Seq<char>)> {
    match colon_split(line) {
        Some((k, v)) => if trim(v).len() == 0 {
            None
        } else {
            match display_name_key(trim(k)) {
                Some(d) => Some((d, trim(v))),
                None => None,
            }
        },
        None => None,
    }
}

fn colon_split_exec(line: &[char]) -> (r: Option<(Vec<char>, Vec<char>)>)
    ensures
        match r {
            Some((a, b)) => colon_split(line@) == Some((a@, b@)),
            None => colon_split(line@) is None,
        },
{
    match split_once_char(line, ':') {
        Some(p) => Some(p),
        None => split_once_char(line, '：'),
    }
}

/// Reads a description line (`split_description_line`).
pub fn split_description_line(line: &str) -> (r: Option<(DescriptionKey, String)>)
    ensures
        match r {
            Some((k, v)) => description_line(line@) == Some((k, v@)),
            None => description_line(line@) is None,
        },
{
    let lc = chars_of(line);
    match colon_split_exec(lc.as_slice()) {
        Some((k, v)) => {
            let key = trim_ws(k.as_slice());
            let value = trim_ws(v.as_slice());
            if value.len() == 0 {
                return None;
            }
            let kl = to_lower(key.as_slice());
            if eq_str(key.as_slice(), "描述") || eq_str(key.as_slice(), "功能介绍") {
                Some((DescriptionKey::Chinese, string_of(value.as_slice())))
            } else if eq_str(kl.as_slice(), "description") {
                Some((DescriptionKey::English, string_of(value.as_slice())))
            } else {
                None
            }
        },
        None => None,
    }
}

/// Reads a display-name line (`split_display_name_line`).
pub fn split_display_name_line(line: &str) -> (r: Option<(DisplayNameKey, String)>)
    ensures
        match r {
            Some((k, v)) => display_name_line(line@) == Some((k, v@)),
            None => display_name_line(line@) is None,
        },
{
    let lc = chars_of(line);
    match colon_split_exec(lc.as_slice()) {
        Some((k, v)) => {
            let key = trim_ws(k.as_slice());
            let value = trim_ws(v.as_slice());
            if value.len() == 0 {
                return None;
            }
            let kl = to_lower(key.as_slice());
            if eq_str(key.as_slice(), "显示名称") || eq_str(key.as_slice(), "工具名称") {
                Some((DisplayNameKey::Chinese, string_of(value.as_slice())))
            } else if eq_str(kl.as_slice(), "display_name") || eq_str(kl.as_slice(), "display name") {
                Some((DisplayNameKey::English, string_of(value.as_slice())))
            } else {
                None
            }
        },
        None => None,
    }
}

/// Chinese description, English description, Chinese name, English name.
pub type Meta = (Option<Seq<char>>, Option<Seq<char>>, Option<Seq<char>>, Option<Seq<char>>);

/// A header line without its leading `#` characters, trimmed.
pub open spec fn header_text(line: Seq<char>) -> Seq<char> {
    trim(trim_start_set(line, CharSet::Only('#')))
}

/// Reads header lines in order, each without its leading `#` characters and trimmed:
/// blank ones are skipped, description and display-name lines set their field (a later
/// one wins), a line whose text still starts with `#!` (such as `# #!...`) is skipped,
/// and any other line ends the header (a plain `#!` line loses its `#` first, so it
/// ends the header).
pub open spec fn meta_fold(ls: Seq<Seq<char>>, m: Meta) -> Meta
    decreases ls.len(),
{
    if ls.len() == 0 {
        m
    } else {
        let t = header_text(ls[0]);
        let rest = ls.drop_first();
        if t.len() == 0 {
            meta_fold(rest, m)
        } else {
            match description_line(t) {
                Some((DescriptionKey::Chinese, d)) => meta_fold(rest, (Some(d), m.1, m.2, m.3)),
                Some((DescriptionKey::English, d)) => meta_fold(rest, (m.0, Some(d), m.2, m.3)),
                None => match display_name_line(t) {
                    Some((DisplayNameKey::Chinese, n)) => meta_fold(
                        rest,
                        (m.0, m.1, Some(n), m.3),
                    ),
                    Some((DisplayNameKey::English, n)) => meta_fold(
                        rest,
                        (m.0, m.1, m.2, Some(n)),
                    ),
                    None => if starts_with(t, "#!"@) {
                        meta_fold(rest, m)
                    } else {
                        m
                    },
                },
            }
        }
    }
}

/// The metadata of a script: its header is the lines after the first.
pub open spec fn metadata_of(raw: Seq<char>) -> Meta {
    let ls = lines(raw);
    meta_fold(
        if ls.len() > 0 {
            ls.drop_first()
        } else {
            seq![]
        },
        (None, None, None, None),
    )
}

pub open spec fn meta_view(m: ScriptMetadata) -> Meta {
    (ov(m.descriptions.zh), ov(m.descriptions.en), ov(m.display_names.zh), ov(m.display_names.en))
}

/// Reads the metadata in a script's header (`extract_metadata`).
pub fn extract_metadata(raw: &str) -> (m: ScriptMetadata)
    ensures
        meta_view(m) == metadata_of(raw@),
{
    let rc = chars_of(raw);
    let ls = split_lines(rc.as_slice());
    let mut m = ScriptMetadata {
        descriptions: ScriptDescriptions { zh: None, en: None },
        display_names: ScriptDisplayNames { zh: None, en: None },
    };
    if ls.len() == 0 {
        return m;
    }
    let ghost all = views(ls@).drop_first();
    let mut i: usize = 1;
    proof {
        assert(views(ls@).skip(1) =~= all);
    }
    while i < ls.len()
        invariant
            1 <= i <= ls@.len(),
            all == views(ls@).drop_first(),
            views(ls@) == lines(raw@),
            meta_fold(all, (None, None, None, None)) == meta_fold(views(ls@).skip(i as int), meta_view(m)),
        decreases ls.len() - i,
    {
        let ghost rest = views(ls@).skip(i as int);
        proof {
            assert(rest.drop_first() =~= views(ls@).skip(i + 1));
            assert(rest[0] == ls@[i as int]@);
        }
        let stripped = trim_start_chars(ls[i].as_slice(), CharSet::Only('#'));
        let t = trim_ws(stripped.as_slice());
        if t.len() == 0 {
            i = i + 1;
            continue;
        }
        let ts = string_of(t.as_slice());
        match split_description_line(ts.as_str()) {
            Some((DescriptionKey::Chinese, d)) => {
                m.descriptions.zh = Some(d);
                i = i + 1;
                continue;
            },
            Some((DescriptionKey::English, d)) => {
                m.descriptions.en = Some(d);
                i = i + 1;
                continue;
            },
            None => {},
        }
        match split_display_name_line(ts.as_str()) {
            Some((DisplayNameKey::Chinese, n)) => {
                m.display_names.zh = Some(n);
                i = i + 1;
                continue;
            },
            Some((DisplayNameKey::English, n)) => {
                m.display_names.en = Some(n);
                i = i + 1;
                continue;
            },
            None => {},
        }
        if !starts_with_str(t.as_slice(), "#!") {
            return m;
        }
        i = i + 1;
    }
    proof {
        assert(views(ls@).skip(i as int) =~= Seq::<Seq<char>>::empty());
    }
    m
}

/// The entry for the reader's language, else the other one.
pub open spec fn pick(zh: bool, zh_value: Option<Seq<char>>, en_value: Option<Seq<char>>) -> Option<
    Seq<char>,
> {
    if zh {
        if zh_value is Some {
            zh_value
        } else {
            en_value
        }
    } else {
        if en_value is Some {
            en_value
        } else {
            zh_value
        }
    }
}

/// The description to show: the one in the reader's language (`zh` for Chinese),
/// else the other one (`select_script_description`).
pub fn select_script_description(descriptions: &ScriptDescriptions, zh: bool) -> (r: Option<String>)
    ensures
        ov(r) == pick(zh, ov(descriptions.zh), ov(descriptions.en)),
{
    let preferred = if zh {
        match &descriptions.zh {
            Some(d) => Some(d),
            None => descriptions.en.as_ref(),
        }
    } else {
        match &descriptions.en {
            Some(d) => Some(d),
            None => descriptions.zh.as_ref(),
        }
    };
    match preferred {
        Some(d) => Some(d.clone()),
        None => None,
    }
}

/// The display name to show, as for descriptions (`select_script_display_name`).
pub fn select_script_display_name(display_names: &ScriptDisplayNames, zh: bool) -> (r: Option<
    String,
>)
    ensures
        ov(r) == pick(zh, ov(display_names.zh), ov(display_names.en)),
{
    let preferred = if zh {
        match &display_names.zh {
            Some(d) => Some(d),
            None => display_names.en.as_ref(),
        }
    } else {
        match &display_names.en {
            Some(d) => Some(d),
            None => display_names.zh.as_ref(),
        }
    };
    match preferred {
        Some(d) => Some(d.clone()),
        None => None,
    }
}

/// The description in a script's header (`extract_description`).
pub fn extract_description(raw: &str, zh: bool) -> (r: Option<String>)
    ensures
        ov(r) == pick(zh, metadata_of(raw@).0, metadata_of(raw@).1),
{
    let m = extract_metadata(raw);
    select_script_description(&m.descriptions, zh)
}


// ---------------------------------------------------------------------------
// Script entries
// ---------------------------------------------------------------------------

/// A script known as a tool: from `index.json` or detected from its `#!` header.
/// `parameters` is the JSON text of its parameter schema (`None` for JSON null).
#[derive(Debug, PartialEq, Eq)]
pub struct ScriptEntry {
    pub id: String,
    pub display_name: String,
    pub description: String,
    pub path: String,
    pub parameters: Option<String>,
    pub timeout_seconds: Option<u64>,
}

/// A script entry as a value of the model.
pub struct EntryView {
    pub id: Seq<char>,
    pub display_name: Seq<char>,
    pub description: Seq<char>,
    pub path: Seq<char>,
    pub parameters: Option<Seq<char>>,
    pub timeout_seconds: Option<u64>,
}

impl View for ScriptEntry {
    type V = EntryView;

    open spec fn view(&self) -> EntryView {
        EntryView {
            id: self.id@,
            display_name: self.display_name@,
            description: self.description@,
            path: self.path@,
            parameters: ov(self.parameters),
            timeout_seconds: self.timeout_seconds,
        }
    }
}

/// The JSON schema of a script that declares no parameters: an optional raw `stdin`
/// string, every other argument allowed.
pub open spec fn default_parameters(zh: bool) -> Seq<char> {
    if zh {
        "{\"type\":\"object\",\"properties\":{\"stdin\":{\"type\":\"string\",\"description\":\"可选的原始 stdin 输入。省略时所有参数以 JSON 形式通过 stdin 传入。\"}},\"additionalProperties\":true}"@
    } else {
        "{\"type\":\"object\",\"properties\":{\"stdin\":{\"type\":\"string\",\"description\":\"Optional raw stdin input. If omitted, all arguments are sent as JSON via stdin.\"}},\"additionalProperties\":true}"@
    }
}

/// The JSON schema of a script that declares no parameters.
pub fn default_parameters_json(zh: bool) -> (r: String)
    ensures
        r@ == default_parameters(zh),
{
    let c = if zh {
        chars_of(
            "{\"type\":\"object\",\"properties\":{\"stdin\":{\"type\":\"string\",\"description\":\"可选的原始 stdin 输入。省略时所有参数以 JSON 形式通过 stdin 传入。\"}},\"additionalProperties\":true}",
        )
    } else {
        chars_of(
            "{\"type\":\"object\",\"properties\":{\"stdin\":{\"type\":\"string\",\"description\":\"Optional raw stdin input. If omitted, all arguments are sent as JSON via stdin.\"}},\"additionalProperties\":true}",
        )
    };
    string_of(c.as_slice())
}

/// "User script: {id}".
pub open spec fn user_script_label(id: Seq<char>) -> Seq<char> {
    "User script: "@ + id
}

fn user_script_text(id: &str) -> (r: String)
    ensures
        r@ == user_script_label(id@),
{
    let mut out: Vec<char> = Vec::new();
    push_str(&mut out, "User script: ");
    push_str(&mut out, id);
    proof {
        assert(out@ =~= user_script_label(id@));
    }
    string_of(out.as_slice())
}

/// The description read from a script's text, else "User script: {id}" (also when
/// the script could not be read).
pub open spec fn description_from(contents: Option<Seq<char>>, id: Seq<char>, zh: bool) -> Seq<char> {
    match contents {
        Some(raw) => match pick(zh, metadata_of(raw).0, metadata_of(raw).1) {
            Some(d) => d,
            None => user_script_label(id),
        },
        None => user_script_label(id),
    }
}

/// The description of a script from its text (`description_from_script`, given what
/// reading the script gave).
pub fn description_from_script(contents: Option<&str>, id: &str, zh: bool) -> (r: String)
    ensures
        r@ == description_from(crate::tools::report::opt_view(contents), id@, zh),
{
    match contents {
        Some(raw) => match extract_description(raw, zh) {
            Some(d) => d,
            None => user_script_text(id),
        },
        None => user_script_text(id),
    }
}

/// The entry for a script file detected from its header: the text must start with a
/// `#!` line; the id is the file's stem ("script" without one), the display name and
/// description come from the header (else the id and "User script: {id}"), and the
/// path is the file's name.
pub open spec fn detected(
    raw: Seq<char>,
    stem: Option<Seq<char>>,
    file_name: Option<Seq<char>>,
    zh: bool,
) -> Option<EntryView> {
    let ls = lines(raw);
    if ls.len() == 0 || !starts_with(ls[0], "#!"@) {
        None
    } else {
        let id = match stem {
            Some(s) => s,
            None => "script"@,
        };
        let m = metadata_of(raw);
        Some(
            EntryView {
                id: id,
                display_name: match pick(zh, m.2, m.3) {
                    Some(n) => n,
                    None => id,
                },
                description: match pick(zh, m.0, m.1) {
                    Some(d) => d,
                    None => user_script_label(id),
                },
                path: match file_name {
                    Some(n) => n,
                    None => seq![],
                },
                parameters: Some(default_parameters(zh)),
                timeout_seconds: None,
            },
        )
    }
}

pub open spec fn entry_opt_view(e: Option<ScriptEntry>) -> Option<EntryView> {
    match e {
        Some(x) => Some(x@),
        None => None,
    }
}

/// The entry of a script detected from its text (`auto_detect_script`, given the
/// script's text and its file stem and name).
pub fn auto_detect_script(raw: &str, file_stem: Option<&str>, file_name: Option<&str>, zh: bool) -> (r:
    Option<ScriptEntry>)
    ensures
        entry_opt_view(r) == detected(
            raw@,
            crate::tools::report::opt_view(file_stem),
            crate::tools::report::opt_view(file_name),
            zh,
        ),
{
    let rc = chars_of(raw);
    let ls = split_lines(rc.as_slice());
    if ls.len() == 0 {
        return None;
    }
    if !starts_with_str(ls[0].as_slice(), "#!") {
        proof {
            assert(views(ls@)[0] == ls@[0]@);
        }
        return None;
    }
    proof {
        assert(views(ls@)[0] == ls@[0]@);
    }
    let id = match file_stem {
        Some(s) => string_of(chars_of(s).as_slice()),
        None => string_of(chars_of("script").as_slice()),
    };
    let m = extract_metadata(raw);
    let display_name = match select_script_display_name(&m.display_names, zh) {
        Some(n) => n,
        None => string_of(chars_of(id.as_str()).as_slice()),
    };
    let description = match select_script_description(&m.descriptions, zh) {
        Some(d) => d,
        None => user_script_text(id.as_str()),
    };
    let path = match file_name {
        Some(n) => string_of(chars_of(n).as_slice()),
        None => String::new(),
    };
    Some(
        ScriptEntry {
            id,
            display_name,
            description,
            path,
            parameters: Some(default_parameters_json(zh)),
            timeout_seconds: None,
        },
    )
}

// ---------------------------------------------------------------------------
// Scanning the script directories
// ---------------------------------------------------------------------------

/// An entry of a directory's `index.json`, with what the file system says of it.
pub struct IndexedScript {
    /// The entry as `index.json` has it.
    pub entry: ScriptEntry,
    /// Its path resolved against the directory.
    pub resolved_path: String,
    /// Whether that path is a file.
    pub is_file: bool,
    /// The canonical form of that path (the path itself when it has none).
    pub canonical: String,
    /// The script's text, when it could be read.
    pub contents: Option<String>,
}

/// A file of a scripts directory, with what the file system says of it.
pub struct DirFile {
    pub path: String,
    pub is_file: bool,
    pub file_name: String,
    pub file_stem: Option<String>,
    pub canonical: String,
    pub contents: Option<String>,
}

/// A scripts directory: whether it exists, its index entries, its files in the order
/// the directory lists them.
pub struct ScriptDir {
    pub is_dir: bool,
    pub indexed: Vec<IndexedScript>,
    pub files: Vec<DirFile>,
}

/// Entries found so far, and the canonical paths already taken.
pub type ScanState = (Seq<EntryView>, Seq<Seq<char>>);

/// Position of the entry with `id`, or the length when there is none.
pub open spec fn id_pos(es: Seq<EntryView>, id: Seq<char>) -> int
    decreases es.len(),
{
    if es.len() == 0 {
        0
    } else if es[0].id == id {
        0
    } else {
        1 + id_pos(es.drop_first(), id)
    }
}

pub proof fn lemma_id_pos(es: Seq<EntryView>, id: Seq<char>)
    ensures
        0 <= id_pos(es, id) <= es.len(),
        forall|k: int| 0 <= k < id_pos(es, id) ==> #[trigger] es[k].id != id,
        id_pos(es, id) < es.len() ==> es[id_pos(es, id)].id == id,
    decreases es.len(),
{
    if es.len() > 0 && es[0].id != id {
        let t = es.drop_first();
        lemma_id_pos(t, id);
        assert forall|k: int| 0 <= k < id_pos(es, id) implies #[trigger] es[k].id != id by {
            if k > 0 {
                assert(es[k] == t[k - 1]);
            }
        }
    }
}

/// An entry replaces the one with the same id, or is added at the end.
pub open spec fn upsert(es: Seq<EntryView>, e: EntryView) -> Seq<EntryView> {
    let k = id_pos(es, e.id);
    if k < es.len() {
        es.update(k, e)
    } else {
        es.push(e)
    }
}

/// An index entry whose path is a file is taken, at its resolved path, with its
/// description read from the script when the index leaves it blank.
pub open spec fn step_indexed(st: ScanState, s: IndexedScript, zh: bool) -> ScanState {
    if !s.is_file {
        st
    } else {
        let e = EntryView {
            id: s.entry.id@,
            display_name: s.entry.display_name@,
            description: if trim(s.entry.description@).len() == 0 {
                description_from(ov(s.contents), s.entry.id@, zh)
            } else {
                s.entry.description@
            },
            path: s.resolved_path@,
            parameters: ov(s.entry.parameters),
            timeout_seconds: s.entry.timeout_seconds,
        };
        (upsert(st.0, e), st.1.push(s.canonical@))
    }
}

/// A file other than `index.json` and hidden files, detected as a script, is taken at
/// its full path unless its canonical path is already taken.
pub open spec fn step_file(st: ScanState, f: DirFile, zh: bool) -> ScanState {
    if !f.is_file || f.file_name@ == "index.json"@ || starts_with(f.file_name@, "."@) {
        st
    } else {
        match f.contents {
            None => st,
            Some(raw) => match detected(raw@, ov(f.file_stem), Some(f.file_name@), zh) {
                None => st,
                Some(e) => if st.1.contains(f.canonical@) {
                    st
                } else {
                    (upsert(st.0, EntryView { path: f.path@, ..e }), st.1.push(f.canonical@))
                },
            },
        }
    }
}

pub open spec fn fold_indexed(st: ScanState, xs: Seq<IndexedScript>, zh: bool) -> ScanState
    decreases xs.len(),
{
    if xs.len() == 0 {
        st
    } else {
        step_indexed(fold_indexed(st, xs.drop_last(), zh), xs.last(), zh)
    }
}

pub open spec fn fold_files(st: ScanState, xs: Seq<DirFile>, zh: bool) -> ScanState
    decreases xs.len(),
{
    if xs.len() == 0 {
        st
    } else {
        step_file(fold_files(st, xs.drop_last(), zh), xs.last(), zh)
    }
}

/// A directory that exists contributes its index entries, then its files.
pub open spec fn step_dir(st: ScanState, d: ScriptDir, zh: bool) -> ScanState {
    if !d.is_dir {
        st
    } else {
        fold_files(fold_indexed(st, d.indexed@, zh), d.files@, zh)
    }
}

pub open spec fn fold_dirs(st: ScanState, ds: Seq<ScriptDir>, zh: bool) -> ScanState
    decreases ds.len(),
{
    if ds.len() == 0 {
        st
    } else {
        step_dir(fold_dirs(st, ds.drop_last(), zh), ds.last(), zh)
    }
}

/// The scripts of the directories, in order: a later directory's entry replaces an
/// earlier one with the same id.
pub open spec fn scanned(ds: Seq<ScriptDir>, zh: bool) -> Seq<EntryView> {
    fold_dirs((seq![], seq![]), ds, zh).0
}

pub open spec fn entry_views(v: Seq<ScriptEntry>) -> Seq<EntryView> {
    v.map_values(|e: ScriptEntry| e@)
}

pub open spec fn string_views(v: Seq<String>) -> Seq<Seq<char>> {
    v.map_values(|s: String| s@)
}

/// No two entries share an id.
pub open spec fn ids_unique(es: Seq<EntryView>) -> bool {
    forall|i: int, j: int| 0 <= i < j < es.len() ==> #[trigger] es[i].id != #[trigger] es[j].id
}

pub proof fn lemma_upsert_unique(es: Seq<EntryView>, e: EntryView)
    requires
        ids_unique(es),
    ensures
        ids_unique(upsert(es, e)),
{
    lemma_id_pos(es, e.id);
    let k = id_pos(es, e.id);
    let r = upsert(es, e);
    assert forall|i: int, j: int| 0 <= i < j < r.len() implies #[trigger] r[i].id != #[trigger] r[j].id by {
        if i == k {
            if k < es.len() {
                assert(es[j].id != es[k].id);
            }
        } else if j == k {
            if k < es.len() {
                assert(es[i].id != es[k].id);
            } else {
                assert(es[i].id != e.id);
            }
        }
    }
}

fn copy_string(s: &String) -> (r: String)
    ensures
        r@ == s@,
{
    string_of(chars_of(s.as_str()).as_slice())
}

fn copy_entry(e: &ScriptEntry) -> (r: ScriptEntry)
    ensures
        r@ == e@,
{
    ScriptEntry {
        id: copy_string(&e.id),
        display_name: copy_string(&e.display_name),
        description: copy_string(&e.description),
        path: copy_string(&e.path),
        parameters: copy_opt_string(&e.parameters),
        timeout_seconds: e.timeout_seconds,
    }
}

fn copy_opt_string(s: &Option<String>) -> (r: Option<String>)
    ensures
        ov(r) == ov(*s),
{
    match s {
        Some(x) => Some(copy_string(x)),
        None => None,
    }
}

/// Replaces the entry with the same id, or adds the entry at the end.
pub fn upsert_entry(entries: &mut Vec<ScriptEntry>, e: ScriptEntry)
    ensures
        entry_views(final(entries)@) == upsert(entry_views(old(entries)@), e@),
{
    let ghost before = entry_views(entries@);
    proof {
        lemma_id_pos(before, e@.id);
    }
    let ic = chars_of(e.id.as_str());
    let mut k: usize = 0;
    while k < entries.len()
        invariant
            0 <= k <= entries@.len(),
            before == entry_views(entries@),
            ic@ == e@.id,
            forall|j: int| 0 <= j < k ==> #[trigger] before[j].id != e@.id,
        ensures
            0 <= k <= entries@.len(),
            forall|j: int| 0 <= j < k ==> #[trigger] before[j].id != e@.id,
            k < entries@.len() ==> before[k as int].id == e@.id,
        decreases entries.len() - k,
    {
        let c = chars_of(entries[k].id.as_str());
        proof {
            assert(before[k as int].id == entries@[k as int].id@);
        }
        if crate::text::eq_chars(c.as_slice(), ic.as_slice()) {
            break;
        }
        k = k + 1;
    }
    proof {
        lemma_id_pos_at(before, e@.id, k as int);
    }
    let ghost ev = e@;
    if k < entries.len() {
        entries.set(k, e);
        proof {
            assert(entry_views(entries@) =~= before.update(k as int, ev));
        }
    } else {
        entries.push(e);
        proof {
            assert(entry_views(entries@) =~= before.push(ev));
        }
    }
}

pub proof fn lemma_id_pos_at(es: Seq<EntryView>, id: Seq<char>, k: int)
    requires
        0 <= k <= es.len(),
        forall|j: int| 0 <= j < k ==> #[trigger] es[j].id != id,
        k == es.len() || es[k].id == id,
    ensures
        id_pos(es, id) == k,
{
    lemma_id_pos(es, id);
    let p = id_pos(es, id);
    if p < k {
        assert(es[p].id == id);
    } else if k < p {
        assert(es[k].id != id);
    }
}

fn seen_contains(seen: &Vec<String>, c: &String) -> (b: bool)
    ensures
        b == string_views(seen@).contains(c@),
{
    let cc = chars_of(c.as_str());
    let mut k: usize = 0;
    while k < seen.len()
        invariant
            0 <= k <= seen@.len(),
            cc@ == c@,
            forall|j: int| 0 <= j < k ==> #[trigger] string_views(seen@)[j] != c@,
        decreases seen.len() - k,
    {
        let s = chars_of(seen[k].as_str());
        if crate::text::eq_chars(s.as_slice(), cc.as_slice()) {
            proof {
                assert(string_views(seen@)[k as int] == c@);
            }
            return true;
        }
        k = k + 1;
    }
    false
}

/// Merges what the scripts directories hold into the script entries (`scan_scripts`,
/// once the directories have been read).
pub fn merge_scripts(dirs: &[ScriptDir], zh: bool) -> (r: Vec<ScriptEntry>)
    ensures
        entry_views(r@) == scanned(dirs@, zh),
        ids_unique(entry_views(r@)),
{
    let mut entries: Vec<ScriptEntry> = Vec::new();
    let mut seen: Vec<String> = Vec::new();
    let mut d: usize = 0;
    proof {
        assert(entry_views(entries@) =~= Seq::<EntryView>::empty());
        assert(string_views(seen@) =~= Seq::<Seq<char>>::empty());
    }
    while d < dirs.len()
        invariant
            0 <= d <= dirs@.len(),
            (entry_views(entries@), string_views(seen@)) == fold_dirs(
                (seq![], seq![]),
                dirs@.take(d as int),
                zh,
            ),
            ids_unique(entry_views(entries@)),
        decreases dirs.len() - d,
    {
        let dir = &dirs[d];
        proof {
            assert(dirs@.take(d + 1).drop_last() =~= dirs@.take(d as int));
        }
        if dir.is_dir {
            let ghost st0 = (entry_views(entries@), string_views(seen@));
            let mut i: usize = 0;
            while i < dir.indexed.len()
                invariant
                    0 <= i <= dir.indexed@.len(),
                    (entry_views(entries@), string_views(seen@)) == fold_indexed(
                        st0,
                        dir.indexed@.take(i as int),
                        zh,
                    ),
                    ids_unique(entry_views(entries@)),
                decreases dir.indexed.len() - i,
            {
                let s = &dir.indexed[i];
                proof {
                    assert(dir.indexed@.take(i + 1).drop_last() =~= dir.indexed@.take(i as int));
                }
                if s.is_file {
                    let ghost before_seen = string_views(seen@);
                    seen.push(copy_string(&s.canonical));
                    proof {
                        assert(string_views(seen@) =~= before_seen.push(s.canonical@));
                    }
                    let dc = chars_of(s.entry.description.as_str());
                    let dt = trim_ws(dc.as_slice());
                    let description = if dt.len() == 0 {
                        let contents = match &s.contents {
                            Some(c) => Some(c.as_str()),
                            None => None,
                        };
                        description_from_script(contents, s.entry.id.as_str(), zh)
                    } else {
                        copy_string(&s.entry.description)
                    };
                    let e = ScriptEntry {
                        id: copy_string(&s.entry.id),
                        display_name: copy_string(&s.entry.display_name),
                        description,
                        path: copy_string(&s.resolved_path),
                        parameters: copy_opt_string(&s.entry.parameters),
                        timeout_seconds: s.entry.timeout_seconds,
                    };
                    proof {
                        lemma_upsert_unique(entry_views(entries@), e@);
                    }
                    upsert_entry(&mut entries, e);
                }
                i = i + 1;
            }
            let ghost st1 = (entry_views(entries@), string_views(seen@));
            proof {
                assert(dir.indexed@.take(dir.indexed@.len() as int) =~= dir.indexed@);
            }
            let mut j: usize = 0;
            while j < dir.files.len()
                invariant
                    0 <= j <= dir.files@.len(),
                    (entry_views(entries@), string_views(seen@)) == fold_files(
                        st1,
                        dir.files@.take(j as int),
                        zh,
                    ),
                    ids_unique(entry_views(entries@)),
                decreases dir.files.len() - j,
            {
                let f = &dir.files[j];
                proof {
                    assert(dir.files@.take(j + 1).drop_last() =~= dir.files@.take(j as int));
                }
                let nc = chars_of(f.file_name.as_str());
                if f.is_file && !eq_str(nc.as_slice(), "index.json") && !starts_with_str(
                    nc.as_slice(),
                    ".",
                ) {
                    match &f.contents {
                        Some(raw) => {
                            let stem = match &f.file_stem {
                                Some(st) => Some(st.as_str()),
                                None => None,
                            };
                            match auto_detect_script(raw.as_str(), stem, Some(f.file_name.as_str()), zh) {
                                Some(e) => {
                                    if !seen_contains(&seen, &f.canonical) {
                                        let ghost before_seen = string_views(seen@);
                                        seen.push(copy_string(&f.canonical));
                                        proof {
                                            assert(string_views(seen@) =~= before_seen.push(
                                                f.canonical@,
                                            ));
                                        }
                                        let e2 = ScriptEntry { path: copy_string(&f.path), ..e };
                                        proof {
                                            lemma_upsert_unique(entry_views(entries@), e2@);
                                        }
                                        upsert_entry(&mut entries, e2);
                                    }
                                },
                                None => {},
                            }
                        },
                        None => {},
                    }
                }
                j = j + 1;
            }
            proof {
                assert(dir.files@.take(dir.files@.len() as int) =~= dir.files@);
            }
        }
        d = d + 1;
    }
    proof {
        assert(dirs@.take(dirs@.len() as int) =~= dirs@);
    }
    entries
}


/// The description of the `register_script` tool.
pub open spec fn register_script_description(zh: bool) -> Seq<char> {
    if zh {
        "注册或更新用户脚本为工具。脚本必须存在于 scripts 目录中。此操作更新 index.json、设置可执行权限，并使脚本在后续工具调用轮次中立即可用。"@
    } else {
        "Register or update a user script as a tool. The script must exist in the scripts directory. This updates index.json, sets executable permission, and makes the script immediately available as a tool in subsequent tool rounds."@
    }
}

/// The parameter schema of the `register_script` tool.
pub open spec fn register_script_parameters(zh: bool) -> Seq<char> {
    if zh {
        "{\"type\":\"object\",\"properties\":{\"id\":{\"type\":\"string\",\"pattern\":\"^[a-zA-Z][a-zA-Z0-9_]*$\",\"description\":\"唯一工具标识符（ASCII，字母开头）。这是 AI 调用的函数名。\"},\"display_name\":{\"type\":\"string\",\"description\":\"可读显示名称，可包含中文。\"},\"description\":{\"type\":\"string\",\"description\":\"可选的工具描述覆盖。省略时 Miyu 会读取脚本头部的 `Description:`/`description:` 或 `描述：`，并只向 AI 提供一条本地化描述。\"},\"path\":{\"type\":\"string\",\"description\":\"脚本文件名或相对/绝对路径。\"},\"parameters\":{\"type\":\"object\",\"description\":\"工具参数的 JSON schema。省略时使用带 stdin 的通用 schema。\"},\"timeout_seconds\":{\"type\":\"integer\",\"description\":\"可选超时时间，单位秒，最大 300。\"}},\"required\":[\"id\",\"path\"],\"additionalProperties\":false}"@
    } else {
        "{\"type\":\"object\",\"properties\":{\"id\":{\"type\":\"string\",\"pattern\":\"^[a-zA-Z][a-zA-Z0-9_]*$\",\"description\":\"Unique tool identifier (ASCII, starts with a letter). This is the function name the AI calls.\"},\"display_name\":{\"type\":\"string\",\"description\":\"Human-readable display name, may contain Chinese characters.\"},\"description\":{\"type\":\"string\",\"description\":\"Optional tool description override. If omitted, Miyu reads the script header lines `Description:`/`description:` or `描述：` and sends only one localized description to the AI.\"},\"path\":{\"type\":\"string\",\"description\":\"Script file name or relative/absolute path.\"},\"parameters\":{\"type\":\"object\",\"description\":\"JSON schema for tool parameters. If omitted, a generic schema with stdin is used.\"},\"timeout_seconds\":{\"type\":\"integer\",\"description\":\"Optional timeout in seconds, max 300.\"}},\"required\":[\"id\",\"path\"],\"additionalProperties\":false}"@
    }
}

/// The `register_script` tool.
pub open spec fn register_script_tool(zh: bool) -> ToolView {
    ToolView {
        name: "register_script"@,
        display_name: None,
        description: register_script_description(zh),
        parameters: register_script_parameters(zh),
        permission: ToolPermission::Writes,
        is_script: false,
        always_loaded: true,
        run: None,
    }
}

fn register_script_spec(zh: bool) -> (t: ToolSpec)
    ensures
        t@ == register_script_tool(zh),
{
    let description = if zh {
        chars_of("注册或更新用户脚本为工具。脚本必须存在于 scripts 目录中。此操作更新 index.json、设置可执行权限，并使脚本在后续工具调用轮次中立即可用。")
    } else {
        chars_of("Register or update a user script as a tool. The script must exist in the scripts directory. This updates index.json, sets executable permission, and makes the script immediately available as a tool in subsequent tool rounds.")
    };
    let parameters = if zh {
        chars_of("{\"type\":\"object\",\"properties\":{\"id\":{\"type\":\"string\",\"pattern\":\"^[a-zA-Z][a-zA-Z0-9_]*$\",\"description\":\"唯一工具标识符（ASCII，字母开头）。这是 AI 调用的函数名。\"},\"display_name\":{\"type\":\"string\",\"description\":\"可读显示名称，可包含中文。\"},\"description\":{\"type\":\"string\",\"description\":\"可选的工具描述覆盖。省略时 Miyu 会读取脚本头部的 `Description:`/`description:` 或 `描述：`，并只向 AI 提供一条本地化描述。\"},\"path\":{\"type\":\"string\",\"description\":\"脚本文件名或相对/绝对路径。\"},\"parameters\":{\"type\":\"object\",\"description\":\"工具参数的 JSON schema。省略时使用带 stdin 的通用 schema。\"},\"timeout_seconds\":{\"type\":\"integer\",\"description\":\"可选超时时间，单位秒，最大 300。\"}},\"required\":[\"id\",\"path\"],\"additionalProperties\":false}")
    } else {
        chars_of("{\"type\":\"object\",\"properties\":{\"id\":{\"type\":\"string\",\"pattern\":\"^[a-zA-Z][a-zA-Z0-9_]*$\",\"description\":\"Unique tool identifier (ASCII, starts with a letter). This is the function name the AI calls.\"},\"display_name\":{\"type\":\"string\",\"description\":\"Human-readable display name, may contain Chinese characters.\"},\"description\":{\"type\":\"string\",\"description\":\"Optional tool description override. If omitted, Miyu reads the script header lines `Description:`/`description:` or `描述：` and sends only one localized description to the AI.\"},\"path\":{\"type\":\"string\",\"description\":\"Script file name or relative/absolute path.\"},\"parameters\":{\"type\":\"object\",\"description\":\"JSON schema for tool parameters. If omitted, a generic schema with stdin is used.\"},\"timeout_seconds\":{\"type\":\"integer\",\"description\":\"Optional timeout in seconds, max 300.\"}},\"required\":[\"id\",\"path\"],\"additionalProperties\":false}")
    };
    let mut t = ToolSpec::new(
        string_of(chars_of("register_script").as_slice()),
        string_of(description.as_slice()),
        string_of(parameters.as_slice()),
    );
    t.permission = ToolPermission::Writes;
    t
}

/// The description of the `unregister_script` tool.
pub open spec fn unregister_script_description(zh: bool) -> Seq<char> {
    if zh {
        "从工具索引中移除已注册的脚本。如果脚本文件位于 scripts 目录内，可选删除文件。"@
    } else {
        "Remove a registered script from the tool index. Optionally delete the script file if it resides within the scripts directory."@
    }
}

/// The parameter schema of the `unregister_script` tool.
pub open spec fn unregister_script_parameters(zh: bool) -> Seq<char> {
    if zh {
        "{\"type\":\"object\",\"properties\":{\"id\":{\"type\":\"string\",\"description\":\"要注销的脚本 id。\"},\"delete_file\":{\"type\":\"boolean\",\"description\":\"若为 true，同时从磁盘删除脚本文件。仅影响 scripts 目录内的文件。\"}},\"required\":[\"id\"],\"additionalProperties\":false}"@
    } else {
        "{\"type\":\"object\",\"properties\":{\"id\":{\"type\":\"string\",\"description\":\"The script id to unregister.\"},\"delete_file\":{\"type\":\"boolean\",\"description\":\"If true, delete the script file from disk. Only affects files within the scripts directory.\"}},\"required\":[\"id\"],\"additionalProperties\":false}"@
    }
}

/// The `unregister_script` tool.
pub open spec fn unregister_script_tool(zh: bool) -> ToolView {
    ToolView {
        name: "unregister_script"@,
        display_name: None,
        description: unregister_script_description(zh),
        parameters: unregister_script_parameters(zh),
        permission: ToolPermission::Writes,
        is_script: false,
        always_loaded: true,
        run: None,
    }
}

fn unregister_script_spec(zh: bool) -> (t: ToolSpec)
    ensures
        t@ == unregister_script_tool(zh),
{
    let description = if zh {
        chars_of("从工具索引中移除已注册的脚本。如果脚本文件位于 scripts 目录内，可选删除文件。")
    } else {
        chars_of("Remove a registered script from the tool index. Optionally delete the script file if it resides within the scripts directory.")
    };
    let parameters = if zh {
        chars_of("{\"type\":\"object\",\"properties\":{\"id\":{\"type\":\"string\",\"description\":\"要注销的脚本 id。\"},\"delete_file\":{\"type\":\"boolean\",\"description\":\"若为 true，同时从磁盘删除脚本文件。仅影响 scripts 目录内的文件。\"}},\"required\":[\"id\"],\"additionalProperties\":false}")
    } else {
        chars_of("{\"type\":\"object\",\"properties\":{\"id\":{\"type\":\"string\",\"description\":\"The script id to unregister.\"},\"delete_file\":{\"type\":\"boolean\",\"description\":\"If true, delete the script file from disk. Only affects files within the scripts directory.\"}},\"required\":[\"id\"],\"additionalProperties\":false}")
    };
    let mut t = ToolSpec::new(
        string_of(chars_of("unregister_script").as_slice()),
        string_of(description.as_slice()),
        string_of(parameters.as_slice()),
    );
    t.permission = ToolPermission::Writes;
    t
}

/// The description of the `list_scripts` tool.
pub open spec fn list_scripts_description(zh: bool) -> Seq<char> {
    if zh {
        "列出所有已注册的脚本工具，包括系统脚本和用户脚本。返回每个脚本的 id、显示名称、描述、路径和来源。"@
    } else {
        "List all registered script tools, including both system and user scripts. Returns id, display name, description, path, and source for each script."@
    }
}

/// The parameter schema of the `list_scripts` tool.
pub open spec fn list_scripts_parameters(zh: bool) -> Seq<char> {
    if zh {
        "{\"type\":\"object\",\"properties\":{},\"additionalProperties\":false}"@
    } else {
        "{\"type\":\"object\",\"properties\":{},\"additionalProperties\":false}"@
    }
}

/// The `list_scripts` tool.
pub open spec fn list_scripts_tool(zh: bool) -> ToolView {
    ToolView {
        name: "list_scripts"@,
        display_name: None,
        description: list_scripts_description(zh),
        parameters: list_scripts_parameters(zh),
        permission: ToolPermission::ReadOnly,
        is_script: false,
        always_loaded: true,
        run: None,
    }
}

fn list_scripts_spec(zh: bool) -> (t: ToolSpec)
    ensures
        t@ == list_scripts_tool(zh),
{
    let description = if zh {
        chars_of("列出所有已注册的脚本工具，包括系统脚本和用户脚本。返回每个脚本的 id、显示名称、描述、路径和来源。")
    } else {
        chars_of("List all registered script tools, including both system and user scripts. Returns id, display name, description, path, and source for each script.")
    };
    let parameters = if zh {
        chars_of("{\"type\":\"object\",\"properties\":{},\"additionalProperties\":false}")
    } else {
        chars_of("{\"type\":\"object\",\"properties\":{},\"additionalProperties\":false}")
    };
    let mut t = ToolSpec::new(
        string_of(chars_of("list_scripts").as_slice()),
        string_of(description.as_slice()),
        string_of(parameters.as_slice()),
    );
    t.permission = ToolPermission::ReadOnly;
    t
}

/// The three tools that manage scripts, registered in order (`register_script_tools`).
pub open spec fn with_script_tools(ts: Seq<ToolView>, zh: bool) -> Seq<ToolView> {
    register_view(
        register_view(register_view(ts, register_script_tool(zh)), unregister_script_tool(zh)),
        list_scripts_tool(zh),
    )
}

/// Registers the tools that manage scripts (`register_script_tools`).
pub fn register_script_tools(registry: &mut ToolRegistry, zh: bool)
    ensures
        final(registry)@ == with_script_tools(old(registry)@, zh),
        final(registry).unregistered_view() == old(registry).unregistered_view(),
{
    registry.register(register_script_spec(zh));
    registry.register(unregister_script_spec(zh));
    registry.register(list_scripts_spec(zh));
}

// ---------------------------------------------------------------------------
// Script tools
// ---------------------------------------------------------------------------

pub open spec fn min_u64(a: u64, b: u64) -> u64 {
    if a < b {
        a
    } else {
        b
    }
}

/// The tool of a script entry (`entry_to_spec`): none for an empty id; the display
/// name defaults to the id, the description to "User script: {id}", the schema to
/// the generic one; the timeout is the entry's (120 s by default), at most 300 s.
pub open spec fn tool_of(e: EntryView, scripts_dir: Seq<char>, zh: bool) -> Option<ToolView> {
    if e.id.len() == 0 {
        None
    } else {
        Some(
            ToolView {
                name: e.id,
                display_name: Some(
                    if e.display_name.len() == 0 {
                        e.id
                    } else {
                        e.display_name
                    },
                ),
                description: if e.description.len() == 0 {
                    user_script_label(e.id)
                } else {
                    e.description
                },
                parameters: match e.parameters {
                    Some(p) => p,
                    None => default_parameters(zh),
                },
                permission: ToolPermission::Writes,
                is_script: false,
                always_loaded: true,
                run: Some(
                    (
                        e.path,
                        scripts_dir,
                        min_u64(
                            match e.timeout_seconds {
                                Some(t) => t,
                                None => SCRIPT_TIMEOUT_SECS,
                            },
                            300,
                        ),
                    ),
                ),
            },
        )
    }
}

/// The tool of a script entry (`entry_to_spec`).
pub fn entry_to_spec(entry: &ScriptEntry, scripts_dir: &str, zh: bool) -> (r: Result<ToolSpec, String>)
    ensures
        match r {
            Ok(t) => tool_of(entry@, scripts_dir@, zh) == Some(t@),
            Err(e) => tool_of(entry@, scripts_dir@, zh) is None && e@ == "script id is empty"@,
        },
{
    if entry.id.as_str().is_empty() {
        return Err(string_of(chars_of("script id is empty").as_slice()));
    }
    let id = copy_string(&entry.id);
    let display_name = if entry.display_name.as_str().is_empty() {
        copy_string(&entry.id)
    } else {
        copy_string(&entry.display_name)
    };
    let description = if entry.description.as_str().is_empty() {
        user_script_text(entry.id.as_str())
    } else {
        copy_string(&entry.description)
    };
    let parameters = match &entry.parameters {
        Some(p) => copy_string(p),
        None => default_parameters_json(zh),
    };
    let t = match entry.timeout_seconds {
        Some(t) => t,
        None => SCRIPT_TIMEOUT_SECS,
    };
    let timeout = if t < 300 {
        t
    } else {
        300
    };
    let mut spec = ToolSpec::new(id, description, parameters);
    spec.display_name = Some(display_name);
    spec.permission = ToolPermission::Writes;
    spec.run = Some(
        ScriptRun {
            path: copy_string(&entry.path),
            scripts_dir: string_of(chars_of(scripts_dir).as_slice()),
            timeout_seconds: timeout,
        },
    );
    Ok(spec)
}

/// Registers the tool of each entry that makes one, in order.
pub open spec fn register_entries(ts: Seq<ToolView>, es: Seq<EntryView>, dir: Seq<char>, zh: bool) -> Seq<
    ToolView,
>
    decreases es.len(),
{
    if es.len() == 0 {
        ts
    } else {
        let prev = register_entries(ts, es.drop_last(), dir, zh);
        match tool_of(es.last(), dir, zh) {
            Some(t) => register_view(prev, t),
            None => prev,
        }
    }
}

/// Registers the tool of each entry not yet registered by name, in order.
pub open spec fn register_new_entries(
    ts: Seq<ToolView>,
    es: Seq<EntryView>,
    dir: Seq<char>,
    zh: bool,
) -> Seq<ToolView>
    decreases es.len(),
{
    if es.len() == 0 {
        ts
    } else {
        let prev = register_new_entries(ts, es.drop_last(), dir, zh);
        if lookup(prev, es.last().id) is Some {
            prev
        } else {
            match tool_of(es.last(), dir, zh) {
                Some(t) => register_view(prev, t),
                None => prev,
            }
        }
    }
}

/// Registers the script tools and the tools that manage scripts (`register`), given
/// the scan of the system and user script directories; a failed scan registers
/// nothing.
pub fn register(
    registry: &mut ToolRegistry,
    scanned: Option<Vec<ScriptEntry>>,
    scripts_dir: &str,
    zh: bool,
)
    ensures
        match scanned {
            Some(es) => final(registry)@ == with_script_tools(
                register_entries(old(registry)@, entry_views(es@), scripts_dir@, zh),
                zh,
            ),
            None => final(registry)@ == old(registry)@,
        },
        final(registry).unregistered_view() == old(registry).unregistered_view(),
{
    let entries = match scanned {
        Some(e) => e,
        None => return,
    };
    let ghost start = registry@;
    let ghost unregistered = registry.unregistered_view();
    let mut i: usize = 0;
    while i < entries.len()
        invariant
            0 <= i <= entries@.len(),
            registry@ == register_entries(start, entry_views(entries@).take(i as int), scripts_dir@, zh),
            registry.unregistered_view() == unregistered,
        decreases entries.len() - i,
    {
        proof {
            assert(entry_views(entries@).take(i + 1).drop_last() =~= entry_views(entries@).take(i as int));
        }
        match entry_to_spec(&entries[i], scripts_dir, zh) {
            Ok(spec) => registry.register(spec),
            Err(_) => {},
        }
        i = i + 1;
    }
    proof {
        assert(entry_views(entries@).take(entries@.len() as int) =~= entry_views(entries@));
    }
    register_script_tools(registry, zh);
}

/// Registers the scripts that are new since the last scan (`rescan_scripts`); a
/// failed scan registers nothing.
pub fn rescan_scripts(
    registry: &mut ToolRegistry,
    scanned: Option<Vec<ScriptEntry>>,
    scripts_dir: &str,
    zh: bool,
)
    ensures
        match scanned {
            Some(es) => final(registry)@ == register_new_entries(
                old(registry)@,
                entry_views(es@),
                scripts_dir@,
                zh,
            ),
            None => final(registry)@ == old(registry)@,
        },
        final(registry).unregistered_view() == old(registry).unregistered_view(),
{
    let entries = match scanned {
        Some(e) => e,
        None => return,
    };
    let ghost start = registry@;
    let ghost unregistered = registry.unregistered_view();
    let mut i: usize = 0;
    while i < entries.len()
        invariant
            0 <= i <= entries@.len(),
            registry@ == register_new_entries(
                start,
                entry_views(entries@).take(i as int),
                scripts_dir@,
                zh,
            ),
            registry.unregistered_view() == unregistered,
        decreases entries.len() - i,
    {
        proof {
            assert(entry_views(entries@).take(i + 1).drop_last() =~= entry_views(entries@).take(i as int));
        }
        if registry.get(entries[i].id.as_str()).is_none() {
            match entry_to_spec(&entries[i], scripts_dir, zh) {
                Ok(spec) => registry.register(spec),
                Err(_) => {},
            }
        }
        i = i + 1;
    }
    proof {
        assert(entry_views(entries@).take(entries@.len() as int) =~= entry_views(entries@));
    }
}


// ---------------------------------------------------------------------------
// Running scripts and managing the index
// ---------------------------------------------------------------------------

/// Script output cut to 20000 characters, with a note of the cut.
pub open spec fn clipped_output(value: Seq<char>, zh: bool) -> Seq<char> {
    if value.len() <= MAX_SCRIPT_OUTPUT_CHARS {
        value
    } else {
        value.take(MAX_SCRIPT_OUTPUT_CHARS as int) + "\n...["@ + (if zh {
            "已截断到"@
        } else {
            "truncated to"@
        }) + " 20000 "@ + (if zh {
            "字符"@
        } else {
            "chars"@
        }) + "]"@
    }
}

/// Script output cut to 20000 characters (`clip_output`).
pub fn clip_output(value: &str, zh: bool) -> (r: String)
    ensures
        r@ == clipped_output(value@, zh),
{
    let v = chars_of(value);
    if v.len() <= MAX_SCRIPT_OUTPUT_CHARS {
        return string_of(v.as_slice());
    }
    let mut out = copy_range(v.as_slice(), 0, MAX_SCRIPT_OUTPUT_CHARS);
    push_str(&mut out, "\n...[");
    if zh {
        push_str(&mut out, "已截断到");
    } else {
        push_str(&mut out, "truncated to");
    }
    push_str(&mut out, " 20000 ");
    if zh {
        push_str(&mut out, "字符");
    } else {
        push_str(&mut out, "chars");
    }
    push_str(&mut out, "]");
    proof {
        assert(out@ =~= clipped_output(value@, zh));
    }
    string_of(out.as_slice())
}

/// `Path::join` on Unix: an absolute path replaces the base, a relative one is
/// appended after a separator (none when the base is empty or ends with one).
pub open spec fn joined_path(base: Seq<char>, path: Seq<char>) -> Seq<char> {
    if starts_with(path, "/"@) {
        path
    } else if base.len() > 0 && base.last() != '/' {
        base + "/"@ + path
    } else {
        base + path
    }
}

/// Where a script's path points (`resolve_script_path`): absolute as it is, else
/// under the scripts directory.
pub fn resolve_script_path(path_str: &str, scripts_dir: &str) -> (r: String)
    ensures
        r@ == joined_path(scripts_dir@, path_str@),
{
    let p = chars_of(path_str);
    if starts_with_str(p.as_slice(), "/") {
        return string_of(p.as_slice());
    }
    let mut out = chars_of(scripts_dir);
    if out.len() > 0 && out[out.len() - 1] != '/' {
        push_str(&mut out, "/");
    }
    crate::text::push_all(&mut out, p.as_slice());
    proof {
        assert(out@ =~= joined_path(scripts_dir@, path_str@));
    }
    string_of(out.as_slice())
}

/// `Path::starts_with` for paths in canonical form (no `.`, `..` or repeated
/// separators): the path is the base or lies under it.
pub open spec fn path_under(path: Seq<char>, base: Seq<char>) -> bool {
    path == base || starts_with(path, base + "/"@) || (base.len() > 0 && base.last() == '/'
        && starts_with(path, base))
}

/// Whether a canonical path lies in a canonical directory.
pub fn path_starts_with(path: &str, base: &str) -> (b: bool)
    ensures
        b == path_under(path@, base@),
{
    let p = chars_of(path);
    let mut bs = chars_of(base);
    if crate::text::eq_chars(p.as_slice(), bs.as_slice()) {
        return true;
    }
    if bs.len() > 0 && bs[bs.len() - 1] == '/' {
        let r = has_prefix(p.as_slice(), bs.as_slice());
        proof {
            reveal_strlit("/");
            let ext = base@ + "/"@;
            if starts_with(path@, ext) {
                assert(path@.subrange(0, base@.len() as int) =~= ext.subrange(0, base@.len() as int));
                assert(ext.subrange(0, base@.len() as int) =~= base@);
            }
        }
        return r;
    }
    push_str(&mut bs, "/");
    has_prefix(p.as_slice(), bs.as_slice())
}

/// "system" for a script in the system scripts directory, else "user".
pub fn script_source(canonical_path: &str, canonical_system_dir: &str) -> (r: &'static str)
    ensures
        r@ == if path_under(canonical_path@, canonical_system_dir@) {
            "system"@
        } else {
            "user"@
        },
{
    if path_starts_with(canonical_path, canonical_system_dir) {
        "system"
    } else {
        "user"
    }
}

/// A tool id: an ASCII letter, then ASCII letters, digits and underscores.
pub open spec fn valid_id(id: Seq<char>) -> bool {
    id.len() > 0 && crate::text::is_ascii_alpha(id[0]) && forall|k: int|
        0 <= k < id.len() ==> crate::text::is_ascii_alnum(#[trigger] id[k]) || id[k] == '_'
}

/// Whether `id` can name a script tool.
pub fn is_valid_id(id: &str) -> (b: bool)
    ensures
        b == valid_id(id@),
{
    let c = chars_of(id);
    if c.len() == 0 || !crate::text::is_alpha(c[0]) {
        return false;
    }
    let mut k: usize = 0;
    while k < c.len()
        invariant
            0 <= k <= c@.len(),
            c@ == id@,
            forall|j: int| 0 <= j < k ==> crate::text::is_ascii_alnum(#[trigger] c@[j]) || c@[j] == '_',
        decreases c.len() - k,
    {
        if !(crate::text::is_alnum(c[k]) || c[k] == '_') {
            return false;
        }
        k = k + 1;
    }
    true
}

/// The checks of a registration request, in order: an id, a valid id, a path.
/// Success gives the trimmed id and path.
pub open spec fn registration_checked(id: Option<Seq<char>>, path: Option<Seq<char>>) -> Result<
    (Seq<char>, Seq<char>),
    Seq<char>,
> {
    let i = match id {
        Some(x) => trim(x),
        None => seq![],
    };
    let p = match path {
        Some(x) => trim(x),
        None => seq![],
    };
    if i.len() == 0 {
        Err("id is required"@)
    } else if !valid_id(i) {
        Err("id must start with an ASCII letter and contain only ASCII alphanumeric and underscore"@)
    } else if p.len() == 0 {
        Err("path is required"@)
    } else {
        Ok((i, p))
    }
}

fn trimmed_arg(a: Option<&str>) -> (r: Vec<char>)
    ensures
        r@ == match crate::tools::report::opt_view(a) {
            Some(x) => trim(x),
            None => seq![],
        },
{
    match a {
        Some(x) => {
            let c = chars_of(x);
            trim_ws(c.as_slice())
        },
        None => Vec::new(),
    }
}

/// The checks that `register_script` makes of its `id` and `path` arguments.
pub fn check_registration(id: Option<&str>, path: Option<&str>) -> (r: Result<(String, String), String>)
    ensures
        match r {
            Ok((i, p)) => registration_checked(
                crate::tools::report::opt_view(id),
                crate::tools::report::opt_view(path),
            ) == Ok::<(Seq<char>, Seq<char>), Seq<char>>((i@, p@)),
            Err(e) => registration_checked(
                crate::tools::report::opt_view(id),
                crate::tools::report::opt_view(path),
            ) == Err::<(Seq<char>, Seq<char>), Seq<char>>(e@),
        },
{
    let i = trimmed_arg(id);
    let p = trimmed_arg(path);
    if i.len() == 0 {
        return Err(string_of(chars_of("id is required").as_slice()));
    }
    let is = string_of(i.as_slice());
    if !is_valid_id(is.as_str()) {
        return Err(
            string_of(
                chars_of(
                    "id must start with an ASCII letter and contain only ASCII alphanumeric and underscore",
                ).as_slice(),
            ),
        );
    }
    if p.len() == 0 {
        return Err(string_of(chars_of("path is required").as_slice()));
    }
    Ok((is, string_of(p.as_slice())))
}

/// The index entry of a registration: the display name defaults to the id, the
/// timeout is capped at 300 s.
pub fn registered_entry(
    id: String,
    display_name: &str,
    description: String,
    path: String,
    parameters: Option<String>,
    timeout_seconds: Option<u64>,
) -> (e: ScriptEntry)
    ensures
        e@ == (EntryView {
            id: id@,
            display_name: if trim(display_name@).len() == 0 {
                id@
            } else {
                trim(display_name@)
            },
            description: description@,
            path: path@,
            parameters: ov(parameters),
            timeout_seconds: match timeout_seconds {
                Some(t) => Some(min_u64(t, 300)),
                None => None,
            },
        }),
{
    let dc = chars_of(display_name);
    let dt = trim_ws(dc.as_slice());
    let dn = if dt.len() == 0 {
        copy_string(&id)
    } else {
        string_of(dt.as_slice())
    };
    let timeout = match timeout_seconds {
        Some(t) => Some(
            if t < 300 {
                t
            } else {
                300
            },
        ),
        None => None,
    };
    ScriptEntry { id, display_name: dn, description, path, parameters, timeout_seconds: timeout }
}

/// "Script '{id}' registered successfully. …The script path is: {path}".
pub open spec fn registered_message(id: Seq<char>, script_path: Seq<char>) -> Seq<char> {
    "Script '"@ + id
        + "' registered successfully. It will be available as a tool in the next tool call round. The script path is: "@
        + script_path
}

/// The reply to a successful registration.
pub fn registration_message(id: &str, script_path: &str) -> (r: String)
    ensures
        r@ == registered_message(id@, script_path@),
{
    let mut out: Vec<char> = Vec::new();
    push_str(&mut out, "Script '");
    push_str(&mut out, id);
    push_str(
        &mut out,
        "' registered successfully. It will be available as a tool in the next tool call round. The script path is: ",
    );
    push_str(&mut out, script_path);
    proof {
        assert(out@ =~= registered_message(id@, script_path@));
    }
    string_of(out.as_slice())
}

/// The entries without any entry of the given id.
pub open spec fn without_id(es: Seq<EntryView>, id: Seq<char>) -> Seq<EntryView>
    decreases es.len(),
{
    if es.len() == 0 {
        seq![]
    } else if es.last().id == id {
        without_id(es.drop_last(), id)
    } else {
        without_id(es.drop_last(), id).push(es.last())
    }
}

/// Removes every entry of `id` from the index (`retain`), returning the first one;
/// the index is unchanged when there is none.
pub fn remove_from_index(index: &mut Vec<ScriptEntry>, id: &str) -> (r: Option<ScriptEntry>)
    ensures
        entry_views(final(index)@) == without_id(entry_views(old(index)@), id@),
        match r {
            Some(e) => {
                let k = id_pos(entry_views(old(index)@), id@);
                k < old(index)@.len() && e@ == entry_views(old(index)@)[k]
            },
            None => id_pos(entry_views(old(index)@), id@) == old(index)@.len(),
        },
{
    let ic = chars_of(id);
    let ghost before = entry_views(index@);
    let mut first: Option<ScriptEntry> = None;
    let mut kept: Vec<ScriptEntry> = Vec::new();
    let mut i: usize = 0;
    proof {
        lemma_id_pos(before, id@);
        assert(entry_views(kept@) =~= without_id(before.take(0), id@));
    }
    while i < index.len()
        invariant
            0 <= i <= index@.len(),
            before == entry_views(index@),
            ic@ == id@,
            entry_views(kept@) == without_id(before.take(i as int), id@),
            match first {
                Some(e) => {
                    let p = id_pos(before, id@);
                    p < i && e@ == before[p]
                },
                None => forall|k: int| 0 <= k < i ==> #[trigger] before[k].id != id@,
            },
        decreases index.len() - i,
    {
        let c = chars_of(index[i].id.as_str());
        let same = crate::text::eq_chars(c.as_slice(), ic.as_slice());
        proof {
            assert(before[i as int] == index@[i as int]@);
            assert(before.take(i + 1).drop_last() =~= before.take(i as int));
            assert(before.take(i + 1).last() == before[i as int]);
        }
        if same {
            if first.is_none() {
                proof {
                    lemma_id_pos_at(before, id@, i as int);
                }
                first = Some(copy_entry(&index[i]));
            }
        } else {
            let ghost kv = entry_views(kept@);
            kept.push(copy_entry(&index[i]));
            proof {
                assert(entry_views(kept@) =~= kv.push(before[i as int]));
            }
        }
        i = i + 1;
    }
    proof {
        assert(before.take(before.len() as int) =~= before);
        if first is None {
            lemma_id_pos_at(before, id@, before.len() as int);
        }
    }
    *index = kept;
    first
}


/// "Script '{id}' unregistered successfully[ and file deleted]."
pub open spec fn unregistered_text(id: Seq<char>, deleted_file: bool) -> Seq<char> {
    "Script '"@ + id + "' unregistered successfully"@ + (if deleted_file {
        " and file deleted"@
    } else {
        seq![]
    }) + "."@
}

/// The reply to a successful unregistration.
pub fn unregistered_message(id: &str, deleted_file: bool) -> (r: String)
    ensures
        r@ == unregistered_text(id@, deleted_file),
{
    let mut out: Vec<char> = Vec::new();
    push_str(&mut out, "Script '");
    push_str(&mut out, id);
    push_str(&mut out, "' unregistered successfully");
    if deleted_file {
        push_str(&mut out, " and file deleted");
    }
    push_str(&mut out, ".");
    proof {
        assert(out@ =~= unregistered_text(id@, deleted_file));
    }
    string_of(out.as_slice())
}

/// "script id '{id}' not found in index".
pub open spec fn not_found_text(id: Seq<char>) -> Seq<char> {
    "script id '"@ + id + "' not found in index"@
}

/// The error of an unregistration whose id the index does not hold.
pub fn not_found_message(id: &str) -> (r: String)
    ensures
        r@ == not_found_text(id@),
{
    let mut out: Vec<char> = Vec::new();
    push_str(&mut out, "script id '");
    push_str(&mut out, id);
    push_str(&mut out, "' not found in index");
    proof {
        assert(out@ =~= not_found_text(id@));
    }
    string_of(out.as_slice())
}

proof fn lemma_without_updated(es: Seq<EntryView>, k: int, e: EntryView)
    requires
        0 <= k < es.len(),
        es[k].id == e.id,
    ensures
        without_id(es.update(k, e), e.id) == without_id(es, e.id),
    decreases es.len(),
{
    let u = es.update(k, e);
    if k == es.len() - 1 {
        assert(u.drop_last() =~= es.drop_last());
    } else {
        assert(u.drop_last() =~= es.drop_last().update(k, e));
        lemma_without_updated(es.drop_last(), k, e);
    }
}

/// Unregistering a script undoes its registration: once the entry of an id is
/// upserted into an index, removing that id leaves what removing it from the
/// original index leaves.
pub proof fn law_unregister_undoes_register(es: Seq<EntryView>, e: EntryView)
    ensures
        without_id(upsert(es, e), e.id) == without_id(es, e.id),
{
    lemma_id_pos(es, e.id);
    let k = id_pos(es, e.id);
    if k < es.len() {
        lemma_without_updated(es, k, e);
    } else {
        assert(es.push(e).drop_last() =~= es);
    }
}

/// A registered script is found under its id: after an upsert, the first entry with
/// the id is the new entry, and every other entry is kept.
pub proof fn law_register_then_find(es: Seq<EntryView>, e: EntryView)
    ensures
        id_pos(upsert(es, e), e.id) < upsert(es, e).len(),
        upsert(es, e)[id_pos(upsert(es, e), e.id)] == e,
        forall|j: int| 0 <= j < es.len() && es[j].id != e.id ==> #[trigger] upsert(es, e)[j] == es[j],
{
    lemma_id_pos(es, e.id);
    let k = id_pos(es, e.id);
    let r = upsert(es, e);
    assert forall|j: int| 0 <= j < k implies #[trigger] r[j].id != e.id by {
        assert(r[j] == es[j]);
    }
    lemma_id_pos_at(r, e.id, k);
}


/// What a script reads on its standard input (`run_script`): the `stdin` argument
/// when it is a non-empty string, else all the arguments as JSON.
pub fn script_stdin(stdin_arg: Option<&str>, args_json: &str) -> (r: String)
    ensures
        r@ == match crate::tools::report::opt_view(stdin_arg) {
            Some(t) => if t.len() > 0 {
                t
            } else {
                args_json@
            },
            None => args_json@,
        },
{
    match stdin_arg {
        Some(t) => {
            let c = chars_of(t);
            if c.len() > 0 {
                string_of(c.as_slice())
            } else {
                string_of(chars_of(args_json).as_slice())
            }
        },
        None => string_of(chars_of(args_json).as_slice()),
    }
}

/// The permission bits of a file made executable by everyone (`make_executable`).
pub fn executable_mode(mode: u32) -> (r: u32)
    ensures
        r == mode | 0o111,
        r & 0o111 == 0o111,
        r & !0o111u32 == mode & !0o111u32,
{
    let r = mode | 0o111;
    assert(r & 0o111 == 0o111) by (bit_vector)
        requires
            r == mode | 0o111,
    ;
    assert(r & !0o111u32 == mode & !0o111u32) by (bit_vector)
        requires
            r == mode | 0o111,
    ;
    r
}


proof fn lemma_register_keeps_found(ts: Seq<ToolView>, t: ToolView, name: Seq<char>)
    requires
        lookup(ts, name) is Some,
    ensures
        lookup(register_view(ts, t), name) is Some,
        name != t.name ==> lookup(register_view(ts, t), name) == lookup(ts, name),
{
    crate::tools::registry::law_register_then_get(ts, t, name);
}

proof fn lemma_rescan_keeps(ts: Seq<ToolView>, es: Seq<EntryView>, dir: Seq<char>, zh: bool, name: Seq<char>)
    requires
        lookup(ts, name) is Some,
    ensures
        lookup(register_new_entries(ts, es, dir, zh), name) == lookup(ts, name),
    decreases es.len(),
{
    if es.len() > 0 {
        lemma_rescan_keeps(ts, es.drop_last(), dir, zh, name);
        let prev = register_new_entries(ts, es.drop_last(), dir, zh);
        if lookup(prev, es.last().id) is None {
            match tool_of(es.last(), dir, zh) {
                Some(t) => lemma_register_keeps_found(prev, t, name),
                None => {},
            }
        }
    }
}

proof fn lemma_rescan_finds(ts: Seq<ToolView>, es: Seq<EntryView>, dir: Seq<char>, zh: bool)
    ensures
        forall|k: int|
            0 <= k < es.len() && es[k].id.len() > 0 ==> lookup(
                register_new_entries(ts, es, dir, zh),
                #[trigger] es[k].id,
            ) is Some,
    decreases es.len(),
{
    if es.len() > 0 {
        let d = es.drop_last();
        lemma_rescan_finds(ts, d, dir, zh);
        let prev = register_new_entries(ts, d, dir, zh);
        let r = register_new_entries(ts, es, dir, zh);
        let e = es.last();
        if lookup(prev, e.id) is None && e.id.len() > 0 {
            let t = tool_of(e, dir, zh).unwrap();
            crate::tools::registry::law_register_then_get(prev, t, t.name);
        }
        assert forall|k: int| 0 <= k < es.len() && es[k].id.len() > 0 implies lookup(r, #[trigger] es[k].id) is Some by {
            if k < es.len() - 1 {
                assert(es[k] == d[k]);
                if lookup(prev, e.id) is None {
                    match tool_of(e, dir, zh) {
                        Some(t) => lemma_register_keeps_found(prev, t, es[k].id),
                        None => {},
                    }
                }
            }
        }
    }
}

proof fn lemma_rescan_settled(ts: Seq<ToolView>, es: Seq<EntryView>, dir: Seq<char>, zh: bool)
    requires
        forall|k: int| 0 <= k < es.len() && es[k].id.len() > 0 ==> lookup(ts, #[trigger] es[k].id) is Some,
    ensures
        register_new_entries(ts, es, dir, zh) == ts,
    decreases es.len(),
{
    if es.len() > 0 {
        let d = es.drop_last();
        assert forall|k: int| 0 <= k < d.len() && d[k].id.len() > 0 implies lookup(ts, #[trigger] d[k].id) is Some by {
            assert(d[k] == es[k]);
        }
        lemma_rescan_settled(ts, d, dir, zh);
        assert(es.last() == es[es.len() - 1]);
    }
}

/// A rescan keeps every registered tool as it is, leaves a tool registered under
/// the id of every entry that has one, and, run again on the same scan, changes
/// nothing.
pub proof fn law_rescan_settles(
    ts: Seq<ToolView>,
    es: Seq<EntryView>,
    dir: Seq<char>,
    zh: bool,
    name: Seq<char>,
)
    ensures
        lookup(ts, name) is Some ==> lookup(register_new_entries(ts, es, dir, zh), name) == lookup(
            ts,
            name,
        ),
        forall|k: int|
            0 <= k < es.len() && es[k].id.len() > 0 ==> lookup(
                register_new_entries(ts, es, dir, zh),
                #[trigger] es[k].id,
            ) is Some,
        register_new_entries(register_new_entries(ts, es, dir, zh), es, dir, zh)
            == register_new_entries(ts, es, dir, zh),
{
    if lookup(ts, name) is Some {
        lemma_rescan_keeps(ts, es, dir, zh, name);
    }
    lemma_rescan_finds(ts, es, dir, zh);
    lemma_rescan_settled(register_new_entries(ts, es, dir, zh), es, dir, zh);
}

/// A line cut at the first `c`, where the key holds none, gives back the key and the
/// value.
proof fn lemma_split_at_sep(k: Seq<char>, v: Seq<char>, c: char)
    requires
        forall|i: int| 0 <= i < k.len() ==> k[i] != c,
    ensures
        split_once(k + seq![c] + v, c) == Some((k, v)),
{
    let s = k + seq![c] + v;
    assert forall|i: int| 0 <= i < k.len() implies !in_set(CharSet::Only(c), #[trigger] s[i]) by {
        assert(s[i] == k[i]);
    }
    assert(s[k.len() as int] == c);
    lemma_set_pos_is(s, CharSet::Only(c), k.len() as int);
    assert(s.take(k.len() as int) =~= k);
    assert(s.skip(k.len() + 1 as int) =~= v);
}

/// A line with no `c` is not cut at `c`.
proof fn lemma_split_none(s: Seq<char>, c: char)
    requires
        forall|i: int| 0 <= i < s.len() ==> s[i] != c,
    ensures
        split_once(s, c) is None,
{
    assert forall|i: int| 0 <= i < s.len() implies !in_set(CharSet::Only(c), #[trigger] s[i]) by {}
    lemma_set_pos_is(s, CharSet::Only(c), s.len() as int);
}

/// The characters of a key, from those of its lowercase form.
proof fn lemma_key_chars(k: Seq<char>, m: Seq<char>)
    requires
        lower(k) == m,
        m.len() > 0,
        forall|i: int| 0 <= i < m.len() ==> #[trigger] m[i] != ':' && m[i] != '：',
        !is_ws(m[0]),
        !is_ws(m[m.len() - 1]),
    ensures
        k.len() == m.len(),
        forall|i: int| 0 <= i < k.len() ==> k[i] != ':' && k[i] != '：',
        !is_ws(k[0]),
        !is_ws(k.last()),
{
    assert(lower(k).len() == k.len());
    assert forall|i: int| 0 <= i < k.len() implies k[i] != ':' && k[i] != '：' by {
        assert(lower(k)[i] == lower_char(k[i]));
        assert(m[i] != ':' && m[i] != '：');
    }
    assert(lower(k)[0] == lower_char(k[0]));
    let j = k.len() - 1;
    assert(lower(k)[j] == lower_char(k[j]));
}

/// Display-name lines by their key: `显示名称` and `工具名称` name the Chinese display
/// name, `display_name` and `display name` (in any ASCII case) the English one. A
/// key, an ASCII or a full-width colon, then a value that is not blank, gives the key's
/// language and the trimmed value; with a blank value the line names nothing.
pub proof fn law_display_name_keys(k: Seq<char>, v: Seq<char>)
    ensures
        trim(v).len() > 0 && (k == "显示名称"@ || k == "工具名称"@) ==> display_name_line(
            k + ":"@ + v,
        ) == Some((DisplayNameKey::Chinese, trim(v))),
        trim(v).len() > 0 && (k == "显示名称"@ || k == "工具名称"@) && !v.contains(':')
            ==> display_name_line(k + "："@ + v) == Some((DisplayNameKey::Chinese, trim(v))),
        trim(v).len() > 0 && (lower(k) == "display_name"@ || lower(k) == "display name"@)
            ==> display_name_line(k + ":"@ + v) == Some((DisplayNameKey::English, trim(v))),
        trim(v).len() > 0 && (lower(k) == "display_name"@ || lower(k) == "display name"@)
            && !v.contains(':') ==> display_name_line(k + "："@ + v) == Some(
            (DisplayNameKey::English, trim(v)),
        ),
        trim(v).len() == 0 && !k.contains(':') ==> display_name_line(k + ":"@ + v) is None,
{
    reveal_strlit(":");
    reveal_strlit("：");
    reveal_strlit("显示名称");
    reveal_strlit("工具名称");
    reveal_strlit("display_name");
    reveal_strlit("display name");
    assert(k + ":"@ + v =~= k + seq![':'] + v);
    assert(k + "："@ + v =~= k + seq!['：'] + v);
    let named = k == "显示名称"@ || k == "工具名称"@ || lower(k) == "display_name"@ || lower(k)
        == "display name"@;
    if named {
        if k == "显示名称"@ || k == "工具名称"@ {
            assert(k.len() == 4);
        } else if lower(k) == "display_name"@ {
            lemma_key_chars(k, "display_name"@);
        } else {
            lemma_key_chars(k, "display name"@);
        }
        lemma_trim_fixed(k);
        lemma_split_at_sep(k, v, ':');
        assert(trim(k) == k);
        assert(colon_split(k + seq![':'] + v) == Some((k, v)));
        assert(display_name_key(k) is Some);
        if !v.contains(':') {
            let s = k + seq!['：'] + v;
            assert forall|i: int| 0 <= i < s.len() implies s[i] != ':' by {
                if i >= k.len() + 1 {
                    assert(s[i] == v[i - k.len() - 1]);
                }
            }
            lemma_split_none(s, ':');
            lemma_split_at_sep(k, v, '：');
        }
    }
    if !k.contains(':') {
        lemma_split_at_sep(k, v, ':');
    }
}

/// Description lines by their key: `描述` and `功能介绍` name the Chinese description,
/// `description` (in any ASCII case) the English one. A key, an ASCII or a full-width
/// colon, then a value that is not blank, gives the key's language and the trimmed
/// value; with a blank value the line names nothing.
pub proof fn law_description_keys(k: Seq<char>, v: Seq<char>)
    ensures
        trim(v).len() > 0 && (k == "描述"@ || k == "功能介绍"@) ==> description_line(k + ":"@ + v)
            == Some((DescriptionKey::Chinese, trim(v))),
        trim(v).len() > 0 && (k == "描述"@ || k == "功能介绍"@) && !v.contains(':')
            ==> description_line(k + "："@ + v) == Some((DescriptionKey::Chinese, trim(v))),
        trim(v).len() > 0 && lower(k) == "description"@ ==> description_line(k + ":"@ + v) == Some(
            (DescriptionKey::English, trim(v)),
        ),
        trim(v).len() > 0 && lower(k) == "description"@ && !v.contains(':') ==> description_line(
            k + "："@ + v,
        ) == Some((DescriptionKey::English, trim(v))),
        trim(v).len() == 0 && !k.contains(':') ==> description_line(k + ":"@ + v) is None,
{
    reveal_strlit(":");
    reveal_strlit("：");
    reveal_strlit("描述");
    reveal_strlit("功能介绍");
    reveal_strlit("description");
    assert(k + ":"@ + v =~= k + seq![':'] + v);
    assert(k + "："@ + v =~= k + seq!['：'] + v);
    if k == "描述"@ || k == "功能介绍"@ || lower(k) == "description"@ {
        if k == "描述"@ || k == "功能介绍"@ {
            assert(k.len() == 2 || k.len() == 4);
        } else {
            lemma_key_chars(k, "description"@);
        }
        lemma_trim_fixed(k);
        lemma_split_at_sep(k, v, ':');
        assert(trim(k) == k);
        assert(colon_split(k + seq![':'] + v) == Some((k, v)));
        assert(description_key(k) is Some);
        if !v.contains(':') {
            let s = k + seq!['：'] + v;
            assert forall|i: int| 0 <= i < s.len() implies s[i] != ':' by {
                if i >= k.len() + 1 {
                    assert(s[i] == v[i - k.len() - 1]);
                }
            }
            lemma_split_none(s, ':');
            lemma_split_at_sep(k, v, '：');
        }
    }
    if !k.contains(':') {
        lemma_split_at_sep(k, v, ':');
    }
}

/// Script output of at most 20000 characters is kept whole; longer output keeps its
/// first 20000 characters and a note of the cut.
pub proof fn law_clip_output(value: Seq<char>)
    ensures
        value.len() <= 20000 ==> clipped_output(value, true) == value && clipped_output(value, false)
            == value,
        value.len() > 20000 ==> clipped_output(value, false) == value.take(20000)
            + "\n...[truncated to 20000 chars]"@,
        value.len() > 20000 ==> clipped_output(value, true) == value.take(20000)
            + "\n...[已截断到 20000 字符]"@,
{
    reveal_strlit("\n...[");
    reveal_strlit("已截断到");
    reveal_strlit("truncated to");
    reveal_strlit(" 20000 ");
    reveal_strlit("字符");
    reveal_strlit("chars");
    reveal_strlit("]");
    reveal_strlit("\n...[truncated to 20000 chars]");
    reveal_strlit("\n...[已截断到 20000 字符]");
    if value.len() > 20000 {
        assert(clipped_output(value, false) =~= value.take(20000) + "\n...[truncated to 20000 chars]"@);
        assert(clipped_output(value, true) =~= value.take(20000) + "\n...[已截断到 20000 字符]"@);
    }
}

proof fn lemma_ascii_classes(c: char)
    ensures
        crate::text::is_ascii_alpha(c) <==> ('a' <= c <= 'z' || 'A' <= c <= 'Z'),
        crate::text::is_ascii_alnum(c) <==> ('a' <= c <= 'z' || 'A' <= c <= 'Z' || '0' <= c <= '9'),
{
    assert(('a' as u32) == 97 && ('z' as u32) == 122 && ('A' as u32) == 65 && ('Z' as u32) == 90
        && ('0' as u32) == 48 && ('9' as u32) == 57);
}

/// A tool id is an ASCII letter followed by ASCII letters, digits and underscores;
/// a registration is refused, in this order, without an id, with an invalid id, or
/// without a path.
pub proof fn law_valid_id(id: Seq<char>, path: Seq<char>)
    ensures
        valid_id(id) <==> (id.len() > 0 && ('a' <= id[0] <= 'z' || 'A' <= id[0] <= 'Z')
            && forall|k: int|
            #![trigger id[k]]
            0 <= k < id.len() ==> ('a' <= id[k] <= 'z' || 'A' <= id[k] <= 'Z' || '0' <= id[k]
                <= '9' || id[k] == '_')),
        trim(id).len() == 0 ==> registration_checked(Some(id), Some(path)) == Err::<
            (Seq<char>, Seq<char>),
            Seq<char>,
        >("id is required"@),
        trim(id).len() > 0 && !valid_id(trim(id)) ==> registration_checked(Some(id), Some(path))
            == Err::<(Seq<char>, Seq<char>), Seq<char>>(
            "id must start with an ASCII letter and contain only ASCII alphanumeric and underscore"@,
        ),
        valid_id(trim(id)) && trim(path).len() == 0 ==> registration_checked(Some(id), Some(path))
            == Err::<(Seq<char>, Seq<char>), Seq<char>>("path is required"@),
        valid_id(trim(id)) && trim(path).len() > 0 ==> registration_checked(Some(id), Some(path))
            == Ok::<(Seq<char>, Seq<char>), Seq<char>>((trim(id), trim(path))),
{
    if id.len() > 0 {
        lemma_ascii_classes(id[0]);
    }
    assert forall|k: int| 0 <= k < id.len() implies (crate::text::is_ascii_alnum(#[trigger] id[k])
        || id[k] == '_') <==> ('a' <= id[k] <= 'z' || 'A' <= id[k] <= 'Z' || '0' <= id[k] <= '9'
        || id[k] == '_') by {
        lemma_ascii_classes(id[k]);
    }
}

} // verus!
