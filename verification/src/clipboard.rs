//! Clipboard contents: images as data URLs, the targets and text that clipboard
//! tools print, and file paths pasted as text.
use crate::text::{
    chars_of, contains_str, copy_range, eq_chars, eq_str, find, find_in, lines, lower, push_all,
    push_str, split_lines, split_once, split_once_char, starts_with, starts_with_str, string_of,
    to_lower, trim, trim_ws, views, CharSet, contains, decimal, decimal_chars, is_ws, match_at,
    lemma_find_ensures, lemma_trim_fixed,
};
use crate::tools::scripts::joined_path;
use base64::Engine;
use vstd::prelude::*;

verus! {

/// Images larger than this are not read from the clipboard.
pub const MAX_CLIPBOARD_IMAGE_BYTES: usize = 10485760;

/// An image read from the clipboard.
#[derive(Debug)]
pub struct ClipboardImage {
    pub mime: String,
    pub data: Vec<u8>,
}

/// An image pasted into the input: its bytes, or a path to it.
#[derive(Debug)]
pub enum PastedImage {
    Binary(ClipboardImage),
    Path(String),
}

/// What the clipboard holds, as far as pasting goes.
#[derive(Debug)]
pub enum ClipboardContent {
    /// Nothing that can be pasted.
    Empty,
    Image(ClipboardImage),
    ImagePath(String),
    TextPath(String),
}

/// A file path found in the clipboard's text.
#[derive(Debug)]
pub struct ClipboardPath {
    pub path: String,
    pub is_image: bool,
}

/// The character of a six-bit value in the standard Base64 alphabet.
pub open spec fn b64_char(v: int) -> char {
    if v < 26 {
        ((65 + v) as u32) as char
    } else if v < 52 {
        ((97 + v - 26) as u32) as char
    } else if v < 62 {
        ((48 + v - 52) as u32) as char
    } else if v == 62 {
        '+'
    } else {
        '/'
    }
}

/// The standard Base64 encoding (RFC 4648 alphabet, with `=` padding) of some bytes:
/// each group of three bytes gives four characters of six bits each; a last group of
/// one or two bytes is padded.
pub open spec fn base64_standard(data: Seq<u8>) -> Seq<char>
    decreases data.len(),
{
    if data.len() == 0 {
        seq![]
    } else if data.len() == 1 {
        let a = data[0] as int;
        seq![b64_char(a / 4), b64_char((a % 4) * 16), '=', '=']
    } else if data.len() == 2 {
        let a = data[0] as int;
        let b = data[1] as int;
        seq![b64_char(a / 4), b64_char((a % 4) * 16 + b / 16), b64_char((b % 16) * 4), '=']
    } else {
        let a = data[0] as int;
        let b = data[1] as int;
        let c = data[2] as int;
        seq![
            b64_char(a / 4),
            b64_char((a % 4) * 16 + b / 16),
            b64_char((b % 16) * 4 + c / 64),
            b64_char(c % 64),
        ] + base64_standard(data.skip(3))
    }
}

/// `base64::engine::general_purpose::STANDARD.encode(data)`.
///
/// Trusted: the result is the standard Base64 text of the bytes, as
/// `base64_standard` spells it out. The crate panics only when the length of that
/// text overflows `usize`, which the bound on the input rules out.
#[verifier::external_body]
fn base64_encode(data: &[u8]) -> (r: String)
    requires
        data@.len() <= isize::MAX,
    ensures
        r@ == base64_standard(data@),
{
    base64::engine::general_purpose::STANDARD.encode(data)
}

/// "data:{mime};base64,{Base64 of the bytes}".
pub open spec fn data_url_of(mime: Seq<char>, data: Seq<u8>) -> Seq<char> {
    "data:"@ + mime + ";base64,"@ + base64_standard(data)
}

/// The second `/`-separated part of a MIME type when it is not empty, else "png".
pub open spec fn extension_of(mime: Seq<char>) -> Seq<char> {
    match split_once(mime, '/') {
        Some((_, rest)) => {
            let sub = match split_once(rest, '/') {
                Some((a, _)) => a,
                None => rest,
            };
            if sub.len() > 0 {
                sub
            } else {
                "png"@
            }
        },
        None => "png"@,
    }
}

/// "img_{ms}_{index}.{ext}".
pub open spec fn temp_name(ms: nat, index: nat, ext: Seq<char>) -> Seq<char> {
    "img_"@ + decimal(ms) + "_"@ + decimal(index) + "."@ + ext
}

impl ClipboardImage {
    /// The image as a data URL (`data_url`).
    pub fn data_url(&self) -> (r: String)
        requires
            self.data@.len() <= isize::MAX,
        ensures
            r@ == data_url_of(self.mime@, self.data@),
    {
        let encoded = base64_encode(self.data.as_slice());
        let mut out: Vec<char> = Vec::new();
        push_str(&mut out, "data:");
        push_str(&mut out, self.mime.as_str());
        push_str(&mut out, ";base64,");
        push_str(&mut out, encoded.as_str());
        proof {
            assert(out@ =~= data_url_of(self.mime@, self.data@));
        }
        string_of(out.as_slice())
    }

    /// The file extension for the image's MIME type.
    pub fn extension(&self) -> (r: String)
        ensures
            r@ == extension_of(self.mime@),
    {
        let m = chars_of(self.mime.as_str());
        match split_once_char(m.as_slice(), '/') {
            Some((_, rest)) => {
                let sub = match split_once_char(rest.as_slice(), '/') {
                    Some((a, _)) => a,
                    None => rest,
                };
                if sub.len() > 0 {
                    string_of(sub.as_slice())
                } else {
                    string_of(chars_of("png").as_slice())
                }
            },
            None => string_of(chars_of("png").as_slice()),
        }
    }

    /// The name of the temporary file that `write_temp_file` writes for this image,
    /// taken at `ms` milliseconds since the epoch.
    pub fn temp_file_name(&self, ms: u64, index: u64) -> (r: String)
        ensures
            r@ == temp_name(ms as nat, index as nat, extension_of(self.mime@)),
    {
        let ext = self.extension();
        let mut out: Vec<char> = Vec::new();
        push_str(&mut out, "img_");
        let a = decimal_chars(ms);
        push_all(&mut out, a.as_slice());
        push_str(&mut out, "_");
        let b = decimal_chars(index);
        push_all(&mut out, b.as_slice());
        push_str(&mut out, ".");
        push_str(&mut out, ext.as_str());
        proof {
            assert(out@ =~= temp_name(ms as nat, index as nat, extension_of(self.mime@)));
        }
        string_of(out.as_slice())
    }
}

/// The image a clipboard tool printed: its output when it succeeded with some bytes,
/// up to 10 MiB (`try_command`, once the tool has run).
pub fn image_from_output(success: bool, stdout: Vec<u8>, mime: &str) -> (r: Option<ClipboardImage>)
    ensures
        match r {
            Some(img) => success && stdout@.len() > 0 && stdout@.len() <= MAX_CLIPBOARD_IMAGE_BYTES
                && img.mime@ == mime@ && img.data@ == stdout@,
            None => !(success && stdout@.len() > 0 && stdout@.len() <= MAX_CLIPBOARD_IMAGE_BYTES),
        },
{
    if success && stdout.len() > 0 && stdout.len() <= MAX_CLIPBOARD_IMAGE_BYTES {
        Some(ClipboardImage { mime: string_of(chars_of(mime).as_slice()), data: stdout })
    } else {
        None
    }
}

/// The trimmed non-blank lines.
pub open spec fn trimmed_nonblank(ls: Seq<Seq<char>>) -> Seq<Seq<char>>
    decreases ls.len(),
{
    if ls.len() == 0 {
        seq![]
    } else if trim(ls.last()).len() == 0 {
        trimmed_nonblank(ls.drop_last())
    } else {
        trimmed_nonblank(ls.drop_last()).push(trim(ls.last()))
    }
}

pub open spec fn string_views(v: Seq<String>) -> Seq<Seq<char>> {
    v.map_values(|s: String| s@)
}

/// The targets a clipboard tool listed: the trimmed non-blank lines of its output when
/// it succeeded and printed something, unless there are none
/// (`try_targets_command`, once the tool has run).
pub fn targets_from_output(success: bool, stdout: &str) -> (r: Option<Vec<String>>)
    ensures
        match r {
            Some(ts) => success && stdout@.len() > 0 && string_views(ts@) == trimmed_nonblank(
                lines(stdout@),
            ) && ts@.len() > 0,
            None => !success || stdout@.len() == 0 || trimmed_nonblank(lines(stdout@)).len() == 0,
        },
{
    if !success || stdout.is_empty() {
        return None;
    }
    let sc = chars_of(stdout);
    let ls = split_lines(sc.as_slice());
    let mut out: Vec<String> = Vec::new();
    let mut i: usize = 0;
    while i < ls.len()
        invariant
            0 <= i <= ls@.len(),
            string_views(out@) == trimmed_nonblank(views(ls@).take(i as int)),
        decreases ls.len() - i,
    {
        proof {
            assert(views(ls@).take(i + 1).drop_last() =~= views(ls@).take(i as int));
            assert(views(ls@).take(i + 1).last() == ls@[i as int]@);
        }
        let t = trim_ws(ls[i].as_slice());
        if t.len() > 0 {
            let ghost before = string_views(out@);
            out.push(string_of(t.as_slice()));
            proof {
                assert(string_views(out@) =~= before.push(t@));
            }
        }
        i = i + 1;
    }
    proof {
        assert(views(ls@).take(ls@.len() as int) =~= views(ls@));
    }
    if out.len() == 0 {
        None
    } else {
        Some(out)
    }
}

/// The text a clipboard tool printed, trimmed, when it succeeded and the text is not
/// blank (`try_text_command`, once the tool has run).
pub fn text_from_output(success: bool, stdout: &str) -> (r: Option<String>)
    ensures
        match r {
            Some(t) => success && stdout@.len() > 0 && t@ == trim(stdout@) && t@.len() > 0,
            None => !success || stdout@.len() == 0 || trim(stdout@).len() == 0,
        },
{
    if !success || stdout.is_empty() {
        return None;
    }
    let sc = chars_of(stdout);
    let t = trim_ws(sc.as_slice());
    if t.len() == 0 {
        None
    } else {
        Some(string_of(t.as_slice()))
    }
}

pub open spec fn is_file_list_target(t: Seq<char>) -> bool {
    t == "text/uri-list"@ || t == "x-special/gnome-copied-files"@ || t
        == "application/glfw+clipboard-32678"@
}

pub open spec fn is_text_target(t: Seq<char>) -> bool {
    t == "text/plain"@ || t == "TEXT"@ || t == "STRING"@ || t == "UTF8_STRING"@
}

/// What the clipboard's targets offer: a list of files, an image, plain text.
pub struct ClipboardOffer {
    pub has_uri_list: bool,
    pub has_image: bool,
    pub has_text: bool,
}

/// Reads the clipboard's targets (the first step of `read_clipboard`).
pub fn clipboard_offer(targets: &[String]) -> (o: ClipboardOffer)
    ensures
        o.has_uri_list == exists|i: int| 0 <= i < targets@.len() && is_file_list_target(#[trigger] targets@[i]@),
        o.has_image == exists|i: int| 0 <= i < targets@.len() && starts_with(#[trigger] targets@[i]@, "image/"@),
        o.has_text == exists|i: int| 0 <= i < targets@.len() && is_text_target(#[trigger] targets@[i]@),
{
    let mut o = ClipboardOffer { has_uri_list: false, has_image: false, has_text: false };
    let mut i: usize = 0;
    while i < targets.len()
        invariant
            0 <= i <= targets@.len(),
            o.has_uri_list == exists|k: int| 0 <= k < i && is_file_list_target(#[trigger] targets@[k]@),
            o.has_image == exists|k: int| 0 <= k < i && starts_with(#[trigger] targets@[k]@, "image/"@),
            o.has_text == exists|k: int| 0 <= k < i && is_text_target(#[trigger] targets@[k]@),
        decreases targets.len() - i,
    {
        let t = chars_of(targets[i].as_str());
        let ts = t.as_slice();
        if eq_str(ts, "text/uri-list") || eq_str(ts, "x-special/gnome-copied-files") || eq_str(
            ts,
            "application/glfw+clipboard-32678",
        ) {
            o.has_uri_list = true;
        }
        if starts_with_str(ts, "image/") {
            o.has_image = true;
        }
        if eq_str(ts, "text/plain") || eq_str(ts, "TEXT") || eq_str(ts, "STRING") || eq_str(
            ts,
            "UTF8_STRING",
        ) {
            o.has_text = true;
        }
        i = i + 1;
    }
    o
}

/// Whether pasted text is worth reading as a path: a file list was offered, or the
/// text starts with "file://" or "/".
pub fn text_may_be_path(has_uri_list: bool, text: &str) -> (b: bool)
    ensures
        b == (has_uri_list || starts_with(text@, "file://"@) || starts_with(text@, "/"@)),
{
    let t = chars_of(text);
    has_uri_list || starts_with_str(t.as_slice(), "file://") || starts_with_str(t.as_slice(), "/")
}

/// The path that pasted text names: one line, a "file://" prefix dropped; an absolute
/// path as it is, "~/…" under the home directory; nothing else.
pub open spec fn path_candidate(text: Seq<char>, home: Option<Seq<char>>) -> Option<Seq<char>> {
    let t = trim(text);
    if t.len() == 0 || contains(t, "\n"@) || contains(t, "\r"@) {
        None
    } else {
        let raw = if starts_with(t, "file://"@) {
            t.skip(7)
        } else {
            t
        };
        if starts_with(raw, "/"@) {
            Some(raw)
        } else if starts_with(raw, "~/"@) {
            match home {
                Some(h) => Some(joined_path(h, raw.skip(2))),
                None => None,
            }
        } else {
            None
        }
    }
}

/// The path that pasted text names, with the home directory when there is one (the
/// first step of `parse_clipboard_path`).
pub fn clipboard_path_candidate(text: &str, home: Option<&str>) -> (r: Option<String>)
    ensures
        match r {
            Some(p) => path_candidate(text@, crate::tools::report::opt_view(home)) == Some(p@),
            None => path_candidate(text@, crate::tools::report::opt_view(home)) is None,
        },
{
    let tc = chars_of(text);
    let t = trim_ws(tc.as_slice());
    if t.len() == 0 || contains_str(t.as_slice(), "\n") || contains_str(t.as_slice(), "\r") {
        return None;
    }
    let raw = if starts_with_str(t.as_slice(), "file://") {
        proof {
            reveal_strlit("file://");
        }
        let r = copy_range(t.as_slice(), 7, t.len());
        proof {
            assert(r@ =~= t@.skip(7));
        }
        r
    } else {
        t
    };
    if starts_with_str(raw.as_slice(), "/") {
        return Some(string_of(raw.as_slice()));
    }
    if starts_with_str(raw.as_slice(), "~/") {
        proof {
            reveal_strlit("~/");
        }
        match home {
            Some(h) => {
                let rest = copy_range(raw.as_slice(), 2, raw.len());
                proof {
                    assert(rest@ =~= raw@.skip(2));
                }
                let rs = string_of(rest.as_slice());
                return Some(crate::tools::scripts::resolve_script_path(rs.as_str(), h));
            },
            None => return None,
        }
    }
    None
}


/// Start of the `/`-separated segment that ends at `end`.
pub open spec fn seg_start(p: Seq<char>, end: int) -> int
    decreases end,
{
    if end <= 0 {
        0
    } else if p[end - 1] == '/' {
        end
    } else {
        seg_start(p, end - 1)
    }
}

/// Bounds of the last component of `p.take(end)` that is neither empty nor ".";
/// `(0, 0)` when there is none. Trailing separators and "." components do not count,
/// as with `Path::file_name`.
pub open spec fn last_name_range(p: Seq<char>, end: int) -> (int, int)
    decreases end,
{
    if end <= 0 {
        (0, 0)
    } else {
        let s = seg_start(p, end);
        if s == end || (s + 1 == end && p[s] == '.') {
            if s == 0 {
                (0, 0)
            } else {
                last_name_range(p, s - 1)
            }
        } else {
            (s, end)
        }
    }
}

/// The last `.` in `name.take(k)`, or -1.
pub open spec fn dot_pos(name: Seq<char>, k: int) -> int
    decreases k,
{
    if k <= 0 {
        -1
    } else if name[k - 1] == '.' {
        k - 1
    } else {
        dot_pos(name, k - 1)
    }
}

/// `Path::extension` of a file name: the text after its last `.`, unless there is no
/// `.`, the only `.` leads the name, or the name is "..".
pub open spec fn name_extension(name: Seq<char>) -> Option<Seq<char>> {
    let d = dot_pos(name, name.len() as int);
    if name.len() == 0 || name == ".."@ || d <= 0 {
        None
    } else {
        Some(name.subrange(d + 1, name.len() as int))
    }
}

/// `Path::new(p).extension()`.
pub open spec fn path_extension(p: Seq<char>) -> Option<Seq<char>> {
    let (s, e) = last_name_range(p, p.len() as int);
    name_extension(p.subrange(s, e))
}

/// The file extensions that mark an image.
pub open spec fn is_image_extension(ext: Seq<char>) -> bool {
    let l = lower(ext);
    l == "png"@ || l == "jpg"@ || l == "jpeg"@ || l == "gif"@ || l == "webp"@ || l == "bmp"@
        || l == "svg"@
}

/// Whether a path names an image by its extension, in any ASCII case.
pub open spec fn names_image(p: Seq<char>) -> bool {
    match path_extension(p) {
        Some(ext) => is_image_extension(ext),
        None => false,
    }
}

fn segment_start(p: &[char], end: usize) -> (s: usize)
    requires
        end <= p@.len(),
    ensures
        s as int == seg_start(p@, end as int),
        s <= end,
{
    let mut i = end;
    while i > 0 && p[i - 1] != '/'
        invariant
            i <= end <= p@.len(),
            seg_start(p@, end as int) == seg_start(p@, i as int),
        decreases i,
    {
        i = i - 1;
    }
    i
}

fn last_name(p: &[char]) -> (r: (usize, usize))
    ensures
        r.0 as int == last_name_range(p@, p@.len() as int).0,
        r.1 as int == last_name_range(p@, p@.len() as int).1,
        r.0 <= r.1 <= p@.len(),
{
    let mut end = p.len();
    loop
        invariant
            end <= p@.len(),
            last_name_range(p@, p@.len() as int) == last_name_range(p@, end as int),
        decreases end,
    {
        if end == 0 {
            return (0, 0);
        }
        let s = segment_start(p, end);
        if s == end || (s + 1 == end && p[s] == '.') {
            if s == 0 {
                return (0, 0);
            }
            end = s - 1;
        } else {
            return (s, end);
        }
    }
}

fn extension_in(name: &[char]) -> (r: Option<Vec<char>>)
    ensures
        match r {
            Some(e) => name_extension(name@) == Some(e@),
            None => name_extension(name@) is None,
        },
{
    let mut k = name.len();
    while k > 0 && name[k - 1] != '.'
        invariant
            k <= name@.len(),
            dot_pos(name@, name@.len() as int) == dot_pos(name@, k as int),
        decreases k,
    {
        k = k - 1;
    }
    if name.len() == 0 || eq_str(name, "..") || k <= 1 {
        None
    } else {
        Some(copy_range(name, k, name.len()))
    }
}

/// Whether a path names an image (the `is_image` of `parse_clipboard_path`): its
/// extension, lowercased, is one of png, jpg, jpeg, gif, webp, bmp, svg.
pub fn is_image_path(path: &str) -> (b: bool)
    ensures
        b == names_image(path@),
{
    let p = chars_of(path);
    let (s, e) = last_name(p.as_slice());
    let name = copy_range(p.as_slice(), s, e);
    match extension_in(name.as_slice()) {
        Some(ext) => {
            let l = to_lower(ext.as_slice());
            let ls = l.as_slice();
            eq_str(ls, "png") || eq_str(ls, "jpg") || eq_str(ls, "jpeg") || eq_str(ls, "gif")
                || eq_str(ls, "webp") || eq_str(ls, "bmp") || eq_str(ls, "svg")
        },
        None => false,
    }
}

// ---------------------------------------------------------------------------
// Reading the clipboard, step by step
// ---------------------------------------------------------------------------

/// What a clipboard read is waiting for.
#[derive(Clone, Copy, PartialEq, Eq, Structural, Debug)]
pub enum ClipboardStage {
    /// The output of a tool that lists the targets.
    Targets,
    /// The output of a tool that prints the text.
    Text,
    /// Whether the path the text names exists.
    CheckPath,
    /// The output of a tool that prints the image.
    Image,
    /// Nothing: the read is over.
    Done,
}

/// A clipboard read in progress (`read_clipboard`): the stage, which tool of the
/// stage is being tried, what the targets offer, and the path to check.
#[derive(Debug)]
pub struct ClipboardReader {
    pub stage: ClipboardStage,
    pub tool: usize,
    pub has_uri_list: bool,
    pub has_image: bool,
    pub has_text: bool,
    pub path: String,
}

/// What a step of the read learned.
#[derive(Debug)]
pub enum ClipboardEvent {
    /// The targets a tool listed (`None`: the tool gave none).
    Targets(Option<Vec<String>>),
    /// The text a tool printed (`None`: the tool gave none).
    Text(Option<String>),
    /// Whether the path exists.
    PathExists(bool),
    /// The image a tool printed (`None`: the tool gave none).
    Image(Option<ClipboardImage>),
}

/// A read as values: stage, tool, the three offers, the path.
pub type ReaderView = (ClipboardStage, nat, bool, bool, bool, Seq<char>);

/// An event as values.
pub enum EventView {
    Targets(Option<Seq<Seq<char>>>),
    Text(Option<Seq<char>>),
    PathExists(bool),
    Image(Option<(Seq<char>, Seq<u8>)>),
}

/// What is pasted, as values.
pub enum ContentView {
    Empty,
    Image(Seq<char>, Seq<u8>),
    ImagePath(Seq<char>),
    TextPath(Seq<char>),
}

pub open spec fn reader_view(r: ClipboardReader) -> ReaderView {
    (r.stage, r.tool as nat, r.has_uri_list, r.has_image, r.has_text, r.path@)
}

pub open spec fn event_view(e: ClipboardEvent) -> EventView {
    match e {
        ClipboardEvent::Targets(Some(ts)) => EventView::Targets(Some(string_views(ts@))),
        ClipboardEvent::Targets(None) => EventView::Targets(None),
        ClipboardEvent::Text(Some(t)) => EventView::Text(Some(t@)),
        ClipboardEvent::Text(None) => EventView::Text(None),
        ClipboardEvent::PathExists(b) => EventView::PathExists(b),
        ClipboardEvent::Image(Some(img)) => EventView::Image(Some((img.mime@, img.data@))),
        ClipboardEvent::Image(None) => EventView::Image(None),
    }
}

pub open spec fn content_view(c: ClipboardContent) -> ContentView {
    match c {
        ClipboardContent::Empty => ContentView::Empty,
        ClipboardContent::Image(img) => ContentView::Image(img.mime@, img.data@),
        ClipboardContent::ImagePath(p) => ContentView::ImagePath(p@),
        ClipboardContent::TextPath(p) => ContentView::TextPath(p@),
    }
}

pub open spec fn opt_content_view(c: Option<ClipboardContent>) -> Option<ContentView> {
    match c {
        Some(x) => Some(content_view(x)),
        None => None,
    }
}

/// The tools tried at each stage, in order: `wl-paste`, then `xclip` (and `xsel` for
/// text).
pub open spec fn tool_count(stage: ClipboardStage) -> nat {
    match stage {
        ClipboardStage::Text => 3,
        ClipboardStage::Targets | ClipboardStage::Image => 2,
        _ => 0,
    }
}

/// The first read of the clipboard: list the targets with the first tool.
pub open spec fn start_view() -> ReaderView {
    (ClipboardStage::Targets, 0, false, false, false, seq![])
}

/// The offer of the targets: a list of files, an image, text.
pub open spec fn offer_of(ts: Seq<Seq<char>>) -> (bool, bool, bool) {
    (
        exists|i: int| 0 <= i < ts.len() && is_file_list_target(#[trigger] ts[i]),
        exists|i: int| 0 <= i < ts.len() && starts_with(#[trigger] ts[i], "image/"@),
        exists|i: int| 0 <= i < ts.len() && is_text_target(#[trigger] ts[i]),
    )
}

/// After the targets: the text when files or text are offered, else the image when
/// one is offered, else nothing is pasted.
pub open spec fn after_targets(o: (bool, bool, bool)) -> (ReaderView, Option<ContentView>) {
    if o.0 || o.2 {
        ((ClipboardStage::Text, 0, o.0, o.1, o.2, seq![]), None)
    } else if o.1 {
        ((ClipboardStage::Image, 0, o.0, o.1, o.2, seq![]), None)
    } else {
        ((ClipboardStage::Done, 0, o.0, o.1, o.2, seq![]), Some(ContentView::Empty))
    }
}

/// After the text gave no path: the image when one is offered, else nothing.
pub open spec fn after_text(r: ReaderView) -> (ReaderView, Option<ContentView>) {
    if r.3 {
        ((ClipboardStage::Image, 0, r.2, r.3, r.4, seq![]), None)
    } else {
        ((ClipboardStage::Done, 0, r.2, r.3, r.4, seq![]), Some(ContentView::Empty))
    }
}

/// One step of a clipboard read: a tool that gave nothing hands over to the next
/// tool of the stage; the last one to the next stage; an event that does not belong
/// to the stage changes nothing.
pub open spec fn step_view(r: ReaderView, e: EventView, home: Option<Seq<char>>) -> (
    ReaderView,
    Option<ContentView>,
) {
    match r.0 {
        ClipboardStage::Targets => match e {
            EventView::Targets(Some(ts)) => after_targets(offer_of(ts)),
            EventView::Targets(None) => if r.1 + 1 < tool_count(r.0) {
                ((r.0, r.1 + 1, r.2, r.3, r.4, r.5), None)
            } else {
                after_targets((false, false, false))
            },
            _ => (r, None),
        },
        ClipboardStage::Text => match e {
            EventView::Text(Some(t)) => if (r.2 || starts_with(t, "file://"@) || starts_with(t, "/"@))
                && path_candidate(t, home) is Some {
                ((ClipboardStage::CheckPath, 0, r.2, r.3, r.4, path_candidate(t, home).unwrap()), None)
            } else {
                after_text(r)
            },
            EventView::Text(None) => if r.1 + 1 < tool_count(r.0) {
                ((r.0, r.1 + 1, r.2, r.3, r.4, r.5), None)
            } else {
                after_text(r)
            },
            _ => (r, None),
        },
        ClipboardStage::CheckPath => match e {
            EventView::PathExists(true) => (
                (ClipboardStage::Done, 0, r.2, r.3, r.4, r.5),
                Some(
                    if names_image(r.5) {
                        ContentView::ImagePath(r.5)
                    } else {
                        ContentView::TextPath(r.5)
                    },
                ),
            ),
            EventView::PathExists(false) => after_text(r),
            _ => (r, None),
        },
        ClipboardStage::Image => match e {
            EventView::Image(Some((mime, data))) => (
                (ClipboardStage::Done, 0, r.2, r.3, r.4, r.5),
                Some(ContentView::Image(mime, data)),
            ),
            EventView::Image(None) => if r.1 + 1 < tool_count(r.0) {
                ((r.0, r.1 + 1, r.2, r.3, r.4, r.5), None)
            } else {
                ((ClipboardStage::Done, 0, r.2, r.3, r.4, r.5), Some(ContentView::Empty))
            },
            _ => (r, None),
        },
        ClipboardStage::Done => (r, None),
    }
}

/// The first step of a read.
pub fn clipboard_start() -> (r: ClipboardReader)
    ensures
        reader_view(r) == start_view(),
{
    let r = ClipboardReader {
        stage: ClipboardStage::Targets,
        tool: 0,
        has_uri_list: false,
        has_image: false,
        has_text: false,
        path: String::new(),
    };
    proof {
        assert(r.path@ =~= Seq::<char>::empty());
    }
    r
}

fn reader(stage: ClipboardStage, has_uri_list: bool, has_image: bool, has_text: bool, path: String) -> (r:
    ClipboardReader)
    ensures
        reader_view(r) == (stage, 0nat, has_uri_list, has_image, has_text, path@),
{
    ClipboardReader { stage, tool: 0, has_uri_list, has_image, has_text, path }
}

fn no_path() -> (s: String)
    ensures
        s@ == Seq::<char>::empty(),
{
    let s = String::new();
    proof {
        assert(s@ =~= Seq::<char>::empty());
    }
    s
}

fn targets_read(o: ClipboardOffer) -> (r: (ClipboardReader, Option<ClipboardContent>))
    ensures
        (reader_view(r.0), opt_content_view(r.1)) == after_targets((o.has_uri_list, o.has_image, o.has_text)),
{
    if o.has_uri_list || o.has_text {
        (reader(ClipboardStage::Text, o.has_uri_list, o.has_image, o.has_text, no_path()), None)
    } else if o.has_image {
        (reader(ClipboardStage::Image, o.has_uri_list, o.has_image, o.has_text, no_path()), None)
    } else {
        (
            reader(ClipboardStage::Done, o.has_uri_list, o.has_image, o.has_text, no_path()),
            Some(ClipboardContent::Empty),
        )
    }
}

fn text_done(r: &ClipboardReader) -> (out: (ClipboardReader, Option<ClipboardContent>))
    ensures
        (reader_view(out.0), opt_content_view(out.1)) == after_text(reader_view(*r)),
{
    if r.has_image {
        (reader(ClipboardStage::Image, r.has_uri_list, r.has_image, r.has_text, no_path()), None)
    } else {
        (
            reader(ClipboardStage::Done, r.has_uri_list, r.has_image, r.has_text, no_path()),
            Some(ClipboardContent::Empty),
        )
    }
}

fn next_tool(r: ClipboardReader, count: usize) -> (out: (ClipboardReader, bool))
    ensures
        out.1 == (r.tool + 1 < count),
        out.1 ==> reader_view(out.0) == (r.stage, (r.tool + 1) as nat, r.has_uri_list, r.has_image, r.has_text, r.path@),
        !out.1 ==> reader_view(out.0) == reader_view(r),
{
    if r.tool < count && r.tool + 1 < count {
        let ClipboardReader { stage, tool, has_uri_list, has_image, has_text, path } = r;
        (ClipboardReader { stage, tool: tool + 1, has_uri_list, has_image, has_text, path }, true)
    } else {
        (r, false)
    }
}

/// Takes one step of a clipboard read (`read_clipboard`): returns the next step, and
/// what is pasted once the read is over. `home` is the home directory, if known.
pub fn clipboard_step(r: ClipboardReader, e: ClipboardEvent, home: Option<&str>) -> (out: (
    ClipboardReader,
    Option<ClipboardContent>,
))
    ensures
        (reader_view(out.0), opt_content_view(out.1)) == step_view(
            reader_view(r),
            event_view(e),
            crate::tools::report::opt_view(home),
        ),
{
    match r.stage {
        ClipboardStage::Targets => match e {
            ClipboardEvent::Targets(Some(ts)) => {
                let o = clipboard_offer(ts.as_slice());
                proof {
                    let sv = string_views(ts@);
                    assert(sv.len() == ts@.len());
                    if o.has_uri_list {
                        let i = choose|i: int| 0 <= i < ts@.len() && is_file_list_target(#[trigger] ts@[i]@);
                        assert(sv[i] == ts@[i]@);
                    }
                    if offer_of(sv).0 {
                        let i = choose|i: int| 0 <= i < sv.len() && is_file_list_target(#[trigger] sv[i]);
                        assert(sv[i] == ts@[i]@);
                    }
                    if o.has_image {
                        let i = choose|i: int| 0 <= i < ts@.len() && starts_with(#[trigger] ts@[i]@, "image/"@);
                        assert(sv[i] == ts@[i]@);
                    }
                    if offer_of(sv).1 {
                        let i = choose|i: int| 0 <= i < sv.len() && starts_with(#[trigger] sv[i], "image/"@);
                        assert(sv[i] == ts@[i]@);
                    }
                    if o.has_text {
                        let i = choose|i: int| 0 <= i < ts@.len() && is_text_target(#[trigger] ts@[i]@);
                        assert(sv[i] == ts@[i]@);
                    }
                    if offer_of(sv).2 {
                        let i = choose|i: int| 0 <= i < sv.len() && is_text_target(#[trigger] sv[i]);
                        assert(sv[i] == ts@[i]@);
                    }
                    assert((o.has_uri_list, o.has_image, o.has_text) == offer_of(sv));
                }
                targets_read(o)
            },
            ClipboardEvent::Targets(None) => {
                let (n, more) = next_tool(r, 2);
                if more {
                    (n, None)
                } else {
                    targets_read(ClipboardOffer { has_uri_list: false, has_image: false, has_text: false })
                }
            },
            other => (r, None),
        },
        ClipboardStage::Text => match e {
            ClipboardEvent::Text(Some(t)) => {
                if text_may_be_path(r.has_uri_list, t.as_str()) {
                    match clipboard_path_candidate(t.as_str(), home) {
                        Some(p) => {
                            return (
                                reader(ClipboardStage::CheckPath, r.has_uri_list, r.has_image, r.has_text, p),
                                None,
                            );
                        },
                        None => {},
                    }
                }
                text_done(&r)
            },
            ClipboardEvent::Text(None) => {
                let (n, more) = next_tool(r, 3);
                if more {
                    (n, None)
                } else {
                    text_done(&n)
                }
            },
            other => (r, None),
        },
        ClipboardStage::CheckPath => match e {
            ClipboardEvent::PathExists(true) => {
                let image = is_image_path(r.path.as_str());
                let p = string_of(chars_of(r.path.as_str()).as_slice());
                let content = if image {
                    ClipboardContent::ImagePath(p)
                } else {
                    ClipboardContent::TextPath(p)
                };
                let ClipboardReader { stage, tool, has_uri_list, has_image, has_text, path } = r;
                (reader(ClipboardStage::Done, has_uri_list, has_image, has_text, path), Some(content))
            },
            ClipboardEvent::PathExists(false) => text_done(&r),
            other => (r, None),
        },
        ClipboardStage::Image => match e {
            ClipboardEvent::Image(Some(img)) => {
                let ClipboardReader { stage, tool, has_uri_list, has_image, has_text, path } = r;
                (reader(ClipboardStage::Done, has_uri_list, has_image, has_text, path), Some(ClipboardContent::Image(img)))
            },
            ClipboardEvent::Image(None) => {
                let (n, more) = next_tool(r, 2);
                if more {
                    (n, None)
                } else {
                    let ClipboardReader { stage, tool, has_uri_list, has_image, has_text, path } = n;
                    (reader(ClipboardStage::Done, has_uri_list, has_image, has_text, path), Some(ClipboardContent::Empty))
                }
            },
            other => (r, None),
        },
        ClipboardStage::Done => (r, None),
    }
}

/// The command a stage runs with its tool: the program and its arguments.
pub open spec fn command_view(stage: ClipboardStage, tool: nat) -> Option<(Seq<char>, Seq<Seq<char>>)> {
    match stage {
        ClipboardStage::Targets => if tool == 0 {
            Some(("wl-paste"@, seq!["-l"@]))
        } else if tool == 1 {
            Some(("xclip"@, seq!["-selection"@, "clipboard"@, "-t"@, "TARGETS"@, "-o"@]))
        } else {
            None
        },
        ClipboardStage::Text => if tool == 0 {
            Some(("wl-paste"@, seq![]))
        } else if tool == 1 {
            Some(("xclip"@, seq!["-selection"@, "clipboard"@, "-o"@]))
        } else if tool == 2 {
            Some(("xsel"@, seq!["--clipboard"@, "--output"@]))
        } else {
            None
        },
        ClipboardStage::Image => if tool == 0 {
            Some(("wl-paste"@, seq!["-t"@, "image/png"@]))
        } else if tool == 1 {
            Some(("xclip"@, seq!["-selection"@, "clipboard"@, "-t"@, "image/png"@, "-o"@]))
        } else {
            None
        },
        _ => None,
    }
}

pub open spec fn str_views(v: Seq<&'static str>) -> Seq<Seq<char>> {
    v.map_values(|s: &'static str| s@)
}

fn args_of(a: &[&'static str]) -> (v: Vec<&'static str>)
    ensures
        v@ == a@,
{
    let mut v: Vec<&'static str> = Vec::new();
    let mut i: usize = 0;
    while i < a.len()
        invariant
            0 <= i <= a@.len(),
            v@ == a@.take(i as int),
        decreases a.len() - i,
    {
        v.push(a[i]);
        i = i + 1;
        proof {
            assert(v@ =~= a@.take(i as int));
        }
    }
    proof {
        assert(a@.take(a@.len() as int) =~= a@);
    }
    v
}

/// The command to run for a stage and tool (`read_clipboard`'s tools, in order);
/// none when the stage runs no tool or has no tool left.
pub fn clipboard_command(stage: ClipboardStage, tool: usize) -> (r: Option<(&'static str, Vec<&'static str>)>)
    ensures
        match r {
            Some((p, args)) => command_view(stage, tool as nat) == Some((p@, str_views(args@))),
            None => command_view(stage, tool as nat) is None,
        },
{
    let (program, args): (&'static str, Vec<&'static str>) = match stage {
        ClipboardStage::Targets => if tool == 0 {
            let a: [&'static str; 1] = ["-l"];
            ("wl-paste", args_of(&a))
        } else if tool == 1 {
            let a: [&'static str; 5] = ["-selection", "clipboard", "-t", "TARGETS", "-o"];
            ("xclip", args_of(&a))
        } else {
            return None;
        },
        ClipboardStage::Text => if tool == 0 {
            ("wl-paste", Vec::new())
        } else if tool == 1 {
            let a: [&'static str; 3] = ["-selection", "clipboard", "-o"];
            ("xclip", args_of(&a))
        } else if tool == 2 {
            let a: [&'static str; 2] = ["--clipboard", "--output"];
            ("xsel", args_of(&a))
        } else {
            return None;
        },
        ClipboardStage::Image => if tool == 0 {
            let a: [&'static str; 2] = ["-t", "image/png"];
            ("wl-paste", args_of(&a))
        } else if tool == 1 {
            let a: [&'static str; 5] = ["-selection", "clipboard", "-t", "image/png", "-o"];
            ("xclip", args_of(&a))
        } else {
            return None;
        },
        _ => {
            return None;
        },
    };
    proof {
        assert(str_views(args@) =~= command_view(stage, tool as nat).unwrap().1);
    }
    Some((program, args))
}


proof fn lemma_seg_start_at(p: Seq<char>, k: int, end: int)
    requires
        0 <= k < end <= p.len(),
        p[k] == '/',
        forall|j: int| k < j < end ==> p[j] != '/',
    ensures
        seg_start(p, end) == k + 1,
    decreases end,
{
    if end > k + 1 {
        lemma_seg_start_at(p, k, end - 1);
    }
}

proof fn lemma_dot_pos_at(name: Seq<char>, d: int, k: int)
    requires
        0 <= d < k <= name.len(),
        name[d] == '.',
        forall|j: int| d < j < k ==> name[j] != '.',
    ensures
        dot_pos(name, k) == d,
    decreases k,
{
    if k > d + 1 {
        lemma_dot_pos_at(name, d, k - 1);
    }
}

/// A file name's extension: for a path `dir/stem.ext` whose stem is not empty and
/// holds no `/`, and whose extension is not empty and holds neither `/` nor `.`,
/// the extension is `ext`.
pub proof fn law_path_extension(dir: Seq<char>, stem: Seq<char>, ext: Seq<char>)
    requires
        stem.len() > 0,
        forall|j: int| 0 <= j < stem.len() ==> stem[j] != '/',
        ext.len() > 0,
        forall|j: int| 0 <= j < ext.len() ==> ext[j] != '/' && ext[j] != '.',
    ensures
        path_extension(dir + "/"@ + stem + "."@ + ext) == Some(ext),
{
    reveal_strlit("/");
    reveal_strlit(".");
    reveal_strlit("..");
    let p = dir + "/"@ + stem + "."@ + ext;
    let k = dir.len() as int;
    let n = p.len() as int;
    assert(p[k] == '/');
    assert forall|j: int| k < j < n implies p[j] != '/' by {
        if j < k + 1 + stem.len() {
            assert(p[j] == stem[j - k - 1]);
        } else if j > k + 1 + stem.len() {
            assert(p[j] == ext[j - k - 2 - stem.len()]);
        }
    }
    lemma_seg_start_at(p, k, n);
    assert(last_name_range(p, n) == (k + 1, n));
    let name = p.subrange(k + 1, n);
    assert(name =~= stem + "."@ + ext);
    let d = stem.len() as int;
    assert(name[d] == '.');
    assert forall|j: int| d < j < name.len() implies name[j] != '.' by {
        assert(name[j] == ext[j - d - 1]);
    }
    lemma_dot_pos_at(name, d, name.len() as int);
    assert(name != ".."@) by {
        assert(name.len() != 2 || name[0] != '.' || name[1] != '.');
    }
    assert(name.subrange(d + 1, name.len() as int) =~= ext);
}

/// The image extensions: a path names an image exactly when its extension, in
/// lowercase, is png, jpg, jpeg, gif, webp, bmp or svg.
pub proof fn law_image_extensions(p: Seq<char>)
    ensures
        names_image(p) <==> (path_extension(p) matches Some(e) && {
            let l = lower(e);
            l == "jpg"@ || l == "png"@ || l == "jpeg"@ || l == "gif"@ || l == "webp"@ || l == "bmp"@
                || l == "svg"@
        }),
{
}

/// A text without a given character does not contain it.
proof fn lemma_lacks_char(t: Seq<char>, c: char)
    requires
        forall|i: int| 0 <= i < t.len() ==> t[i] != c,
    ensures
        !contains(t, seq![c]),
{
    lemma_find_ensures(t, seq![c]);
    if let Some(k) = crate::text::find(t, seq![c]) {
        assert(t.subrange(k, k + 1)[0] == t[k]);
    }
}

/// Pasted paths: an absolute path on one line, as it is or as a "file://" URL, names
/// itself; "~/" and a relative path names that path under the home directory.
pub proof fn law_pasted_paths(p: Seq<char>, home: Seq<char>)
    ensures
        p.len() > 0 && p[0] == '/' && !is_ws(p.last()) && (forall|i: int|
            0 <= i < p.len() ==> p[i] != '\n' && p[i] != '\r') ==> path_candidate(p, None)
            == Some(p) && path_candidate("file://"@ + p, None) == Some(p),
        p.len() > 0 && p[0] != '/' && !is_ws(p.last()) && (forall|i: int|
            0 <= i < p.len() ==> p[i] != '\n' && p[i] != '\r') && home.len() > 0 && home.last()
            != '/' ==> path_candidate("~/"@ + p, Some(home)) == Some(home + "/"@ + p),
{
    reveal_strlit("file://");
    reveal_strlit("~/");
    reveal_strlit("/");
    reveal_strlit("\n");
    reveal_strlit("\r");
    if p.len() > 0 && !is_ws(p.last()) && (forall|i: int|
        0 <= i < p.len() ==> p[i] != '\n' && p[i] != '\r') {
        if p[0] == '/' {
            lemma_trim_fixed(p);
            lemma_lacks_char(p, '\n');
            lemma_lacks_char(p, '\r');
            assert("\n"@ =~= seq!['\n']);
            assert("\r"@ =~= seq!['\r']);
            assert(p.subrange(0, 1) =~= "/"@);
            let u = "file://"@ + p;
            assert(u[0] == 'f');
            assert(u.last() == p.last());
            lemma_trim_fixed(u);
            assert forall|i: int| 0 <= i < u.len() implies u[i] != '\n' && u[i] != '\r' by {
                if i >= 7 {
                    assert(u[i] == p[i - 7]);
                }
            }
            lemma_lacks_char(u, '\n');
            lemma_lacks_char(u, '\r');
            assert(u.subrange(0, 7) =~= "file://"@);
            assert(u.skip(7) =~= p);
        }
        if p[0] != '/' && home.len() > 0 && home.last() != '/' {
            let u = "~/"@ + p;
            assert(u[0] == '~');
            assert(u.last() == p.last());
            lemma_trim_fixed(u);
            assert forall|i: int| 0 <= i < u.len() implies u[i] != '\n' && u[i] != '\r' by {
                if i >= 2 {
                    assert(u[i] == p[i - 2]);
                }
            }
            lemma_lacks_char(u, '\n');
            lemma_lacks_char(u, '\r');
            assert("\n"@ =~= seq!['\n']);
            assert("\r"@ =~= seq!['\r']);
            assert(u.subrange(0, 2) =~= "~/"@);
            assert(!match_at(u, "file://"@, 0)) by {
                assert(u.len() < 7 || u.subrange(0, 7)[0] != 'f');
            }
            assert(!match_at(u, "/"@, 0)) by {
                assert(u.subrange(0, 1)[0] == '~');
            }
            assert(u.skip(2) =~= p);
            assert(!match_at(p, "/"@, 0)) by {
                assert(p.subrange(0, 1)[0] == p[0]);
            }
        }
    }
}

/// The clipboard targets by what they offer: "text/uri-list",
/// "x-special/gnome-copied-files" and "application/glfw+clipboard-32678" a list of
/// files; "text/plain", "TEXT", "STRING" and "UTF8_STRING" plain text; any "image/…"
/// type an image.
pub proof fn law_clipboard_targets(t: Seq<char>)
    ensures
        is_file_list_target(t) <==> (t == "x-special/gnome-copied-files"@ || t == "text/uri-list"@
            || t == "application/glfw+clipboard-32678"@),
        is_text_target(t) <==> (t == "TEXT"@ || t == "text/plain"@ || t == "UTF8_STRING"@ || t
            == "STRING"@),
{
    reveal_strlit("text/uri-list");
    reveal_strlit("x-special/gnome-copied-files");
    reveal_strlit("application/glfw+clipboard-32678");
    reveal_strlit("text/plain");
    reveal_strlit("TEXT");
    reveal_strlit("STRING");
    reveal_strlit("UTF8_STRING");
}

} // verus!
