//! Local issue diagnostics: reading the probe request, choosing what to probe, and
//! turning what the probes printed into checks, findings and log excerpts. Running the
//! probes and assembling the JSON report is the application's part.
use crate::text::{
    chars_of, contains, contains_str, copy_range, ends_with, eq_str, has_suffix, lines, lower,
    prefix_chars, push_all, push_str, split_lines, split_once, split_once_char, starts_with,
    string_of, take_chars, to_lower, trim, trim_ws, views, words, split_words, join, join_parts,
    decimal, decimal_chars, replace, replace_all, trim_chars, trim_set, trim_end_set, CharSet,
    find, find_in, is_ascii_hex, is_ascii_alnum,
};
use crate::tools::report::opt_view;
use vstd::prelude::*;

verus! {

// ---------------------------------------------------------------------------
// Request
// ---------------------------------------------------------------------------

/// What to probe.
#[derive(Clone, Copy, PartialEq, Eq, Structural, Debug)]
pub enum Mode {
    System,
    App,
    InputMethod,
    Display,
    Audio,
    PackageUpdate,
    Gpu,
    Network,
    Storage,
}

/// How far to probe.
#[derive(Clone, Copy, PartialEq, Eq, Structural, Debug)]
pub enum Depth {
    Quick,
    Normal,
    Full,
}

/// The platform that the request asks for.
#[derive(Clone, Copy, PartialEq, Eq, Structural, Debug)]
pub enum PlatformArg {
    Auto,
    Linux,
    Macos,
}

/// The platform that is probed.
#[derive(Clone, Copy, PartialEq, Eq, Structural, Debug)]
pub enum Platform {
    Linux,
    Macos,
    Unsupported,
}

/// The name of a mode in requests and reports.
pub open spec fn mode_name(m: Mode) -> Seq<char> {
    match m {
        Mode::System => "system"@,
        Mode::App => "app"@,
        Mode::InputMethod => "input_method"@,
        Mode::Display => "display"@,
        Mode::Audio => "audio"@,
        Mode::PackageUpdate => "package_update"@,
        Mode::Gpu => "gpu"@,
        Mode::Network => "network"@,
        Mode::Storage => "storage"@,
    }
}

/// The mode with the given name.
pub open spec fn mode_named(v: Seq<char>) -> Option<Mode> {
    if v == "system"@ {
        Some(Mode::System)
    } else if v == "app"@ {
        Some(Mode::App)
    } else if v == "input_method"@ {
        Some(Mode::InputMethod)
    } else if v == "display"@ {
        Some(Mode::Display)
    } else if v == "audio"@ {
        Some(Mode::Audio)
    } else if v == "package_update"@ {
        Some(Mode::PackageUpdate)
    } else if v == "gpu"@ {
        Some(Mode::Gpu)
    } else if v == "network"@ {
        Some(Mode::Network)
    } else if v == "storage"@ {
        Some(Mode::Storage)
    } else {
        None
    }
}

pub open spec fn depth_name(d: Depth) -> Seq<char> {
    match d {
        Depth::Quick => "quick"@,
        Depth::Normal => "normal"@,
        Depth::Full => "full"@,
    }
}

pub open spec fn depth_named(v: Seq<char>) -> Option<Depth> {
    if v == "quick"@ {
        Some(Depth::Quick)
    } else if v == "normal"@ {
        Some(Depth::Normal)
    } else if v == "full"@ {
        Some(Depth::Full)
    } else {
        None
    }
}

pub open spec fn platform_arg_name(p: PlatformArg) -> Seq<char> {
    match p {
        PlatformArg::Auto => "auto"@,
        PlatformArg::Linux => "linux"@,
        PlatformArg::Macos => "macos"@,
    }
}

pub open spec fn platform_arg_named(v: Seq<char>) -> Option<PlatformArg> {
    if v == "auto"@ {
        Some(PlatformArg::Auto)
    } else if v == "linux"@ {
        Some(PlatformArg::Linux)
    } else if v == "macos"@ {
        Some(PlatformArg::Macos)
    } else {
        None
    }
}

pub open spec fn platform_name(p: Platform) -> Seq<char> {
    match p {
        Platform::Linux => "linux"@,
        Platform::Macos => "macos"@,
        Platform::Unsupported => "unsupported"@,
    }
}

impl Mode {
    /// The mode's name (its `snake_case` serialisation).
    pub fn as_str(&self) -> (r: &'static str)
        ensures
            r@ == mode_name(*self),
    {
        match self {
            Mode::System => "system",
            Mode::App => "app",
            Mode::InputMethod => "input_method",
            Mode::Display => "display",
            Mode::Audio => "audio",
            Mode::PackageUpdate => "package_update",
            Mode::Gpu => "gpu",
            Mode::Network => "network",
            Mode::Storage => "storage",
        }
    }
}

impl Depth {
    /// The depth's name (its `snake_case` serialisation).
    pub fn as_str(&self) -> (r: &'static str)
        ensures
            r@ == depth_name(*self),
    {
        match self {
            Depth::Quick => "quick",
            Depth::Normal => "normal",
            Depth::Full => "full",
        }
    }
}

impl Platform {
    /// The platform's name (its `snake_case` serialisation).
    pub fn as_str(&self) -> (r: &'static str)
        ensures
            r@ == platform_name(*self),
    {
        match self {
            Platform::Linux => "linux",
            Platform::Macos => "macos",
            Platform::Unsupported => "unsupported",
        }
    }
}

fn message(prefix: &str, value: &str) -> (r: String)
    ensures
        r@ == prefix@ + value@,
{
    let mut out: Vec<char> = Vec::new();
    push_str(&mut out, prefix);
    push_str(&mut out, value);
    string_of(out.as_slice())
}

/// Reads a mode (`parse_mode`).
pub fn parse_mode(value: &str) -> (r: Result<Mode, String>)
    ensures
        match r {
            Ok(m) => mode_named(value@) == Some(m),
            Err(e) => mode_named(value@) is None && e@ == "unsupported diagnostic mode: "@ + value@,
        },
{
    let v = chars_of(value);
    let s = v.as_slice();
    if eq_str(s, "system") {
        Ok(Mode::System)
    } else if eq_str(s, "app") {
        Ok(Mode::App)
    } else if eq_str(s, "input_method") {
        Ok(Mode::InputMethod)
    } else if eq_str(s, "display") {
        Ok(Mode::Display)
    } else if eq_str(s, "audio") {
        Ok(Mode::Audio)
    } else if eq_str(s, "package_update") {
        Ok(Mode::PackageUpdate)
    } else if eq_str(s, "gpu") {
        Ok(Mode::Gpu)
    } else if eq_str(s, "network") {
        Ok(Mode::Network)
    } else if eq_str(s, "storage") {
        Ok(Mode::Storage)
    } else {
        Err(message("unsupported diagnostic mode: ", value))
    }
}

/// Reads a depth (`parse_depth`).
pub fn parse_depth(value: &str) -> (r: Result<Depth, String>)
    ensures
        match r {
            Ok(d) => depth_named(value@) == Some(d),
            Err(e) => depth_named(value@) is None && e@ == "unsupported diagnostic depth: "@ + value@,
        },
{
    let v = chars_of(value);
    let s = v.as_slice();
    if eq_str(s, "quick") {
        Ok(Depth::Quick)
    } else if eq_str(s, "normal") {
        Ok(Depth::Normal)
    } else if eq_str(s, "full") {
        Ok(Depth::Full)
    } else {
        Err(message("unsupported diagnostic depth: ", value))
    }
}

/// Reads a platform (`parse_platform_arg`).
pub fn parse_platform_arg(value: &str) -> (r: Result<PlatformArg, String>)
    ensures
        match r {
            Ok(p) => platform_arg_named(value@) == Some(p),
            Err(e) => platform_arg_named(value@) is None && e@ == "unsupported diagnostic platform: "@
                + value@,
        },
{
    let v = chars_of(value);
    let s = v.as_slice();
    if eq_str(s, "auto") {
        Ok(PlatformArg::Auto)
    } else if eq_str(s, "linux") {
        Ok(PlatformArg::Linux)
    } else if eq_str(s, "macos") {
        Ok(PlatformArg::Macos)
    } else {
        Err(message("unsupported diagnostic platform: ", value))
    }
}

/// Every mode, depth and platform reads back from its own name, and no two share one.
pub proof fn law_names_read_back(m: Mode, d: Depth, p: PlatformArg)
    ensures
        mode_named(mode_name(m)) == Some(m),
        depth_named(depth_name(d)) == Some(d),
        platform_arg_named(platform_arg_name(p)) == Some(p),
{
    let names = seq![
        "system"@,
        "app"@,
        "input_method"@,
        "display"@,
        "audio"@,
        "package_update"@,
        "gpu"@,
        "network"@,
        "storage"@,
    ];
    reveal_strlit("system");
    reveal_strlit("app");
    reveal_strlit("input_method");
    reveal_strlit("display");
    reveal_strlit("audio");
    reveal_strlit("package_update");
    reveal_strlit("gpu");
    reveal_strlit("network");
    reveal_strlit("storage");
    reveal_strlit("quick");
    reveal_strlit("normal");
    reveal_strlit("full");
    reveal_strlit("auto");
    reveal_strlit("linux");
    reveal_strlit("macos");
    assert forall|i: int, j: int| 0 <= i < j < 9 implies #[trigger] names[i] != #[trigger] names[j] by {
        if names[i].len() == names[j].len() {
            assert(names[i][0] != names[j][0] || names[i][1] != names[j][1]);
        }
    }
    match m {
        Mode::System => assert(names[0] == mode_name(m)),
        Mode::App => assert(names[1] == mode_name(m)),
        Mode::InputMethod => assert(names[2] == mode_name(m)),
        Mode::Display => assert(names[3] == mode_name(m)),
        Mode::Audio => assert(names[4] == mode_name(m)),
        Mode::PackageUpdate => assert(names[5] == mode_name(m)),
        Mode::Gpu => assert(names[6] == mode_name(m)),
        Mode::Network => assert(names[7] == mode_name(m)),
        Mode::Storage => assert(names[8] == mode_name(m)),
    }
    assert("quick"@ != "normal"@ && "quick"@ != "full"@ && "normal"@ != "full"@) by {
        assert("quick"@.len() != "normal"@.len());
        assert("quick"@.len() != "full"@.len());
        assert("normal"@.len() != "full"@.len());
    }
    assert("auto"@ != "linux"@ && "auto"@ != "macos"@ && "linux"@ != "macos"@) by {
        assert("auto"@[0] != "linux"@[0]);
        assert("linux"@[0] != "macos"@[0]);
    }
}

/// The platform to probe: the one asked for, else the one this program runs on
/// (`os` is `std::env::consts::OS`).
pub open spec fn platform_of(arg: PlatformArg, os: Seq<char>) -> Platform {
    match arg {
        PlatformArg::Linux => Platform::Linux,
        PlatformArg::Macos => Platform::Macos,
        PlatformArg::Auto => if os == "linux"@ {
            Platform::Linux
        } else if os == "macos"@ {
            Platform::Macos
        } else {
            Platform::Unsupported
        },
    }
}

/// Picks the platform to probe (`detect_platform`).
pub fn detect_platform(arg: PlatformArg, os: &str) -> (p: Platform)
    ensures
        p == platform_of(arg, os@),
{
    match arg {
        PlatformArg::Linux => Platform::Linux,
        PlatformArg::Macos => Platform::Macos,
        PlatformArg::Auto => {
            let o = chars_of(os);
            if eq_str(o.as_slice(), "linux") {
                Platform::Linux
            } else if eq_str(o.as_slice(), "macos") {
                Platform::Macos
            } else {
                Platform::Unsupported
            }
        },
    }
}

// ---------------------------------------------------------------------------
// Inferring the request from the user's words
// ---------------------------------------------------------------------------

pub open spec fn str_views(v: Seq<&str>) -> Seq<Seq<char>> {
    v.map_values(|s: &str| s@)
}

/// Some needle occurs in the text.
pub open spec fn any_of(t: Seq<char>, needles: Seq<Seq<char>>) -> bool {
    exists|i: int| 0 <= i < needles.len() && contains(t, #[trigger] needles[i])
}

/// Whether any of the needles occurs in the text (`contains_any`).
pub fn contains_any(text: &[char], needles: &[&str]) -> (b: bool)
    ensures
        b == any_of(text@, str_views(needles@)),
{
    let mut i: usize = 0;
    while i < needles.len()
        invariant
            0 <= i <= needles@.len(),
            forall|k: int| 0 <= k < i ==> !contains(text@, #[trigger] str_views(needles@)[k]),
        decreases needles.len() - i,
    {
        if contains_str(text, needles[i]) {
            proof {
                assert(contains(text@, str_views(needles@)[i as int]));
            }
            return true;
        }
        i = i + 1;
    }
    false
}

pub open spec fn im_text() -> Seq<Seq<char>> {
    seq!["输入法"@, "打不了中文"@, "候选框"@, "fcitx"@, "fcitx5"@, "ibus"@, "拼音"@]
}

fn has_im_text(t: &[char]) -> (b: bool)
    ensures
        b == any_of(t@, im_text()),
{
    let needles: [&str; 7] = ["输入法", "打不了中文", "候选框", "fcitx", "fcitx5", "ibus", "拼音"];
    let b = contains_any(t, &needles);
    proof {
        assert(str_views(needles@) =~= im_text());
    }
    b
}

pub open spec fn im_lower() -> Seq<Seq<char>> {
    seq!["ime"@, "input method"@]
}

fn has_im_lower(t: &[char]) -> (b: bool)
    ensures
        b == any_of(t@, im_lower()),
{
    let needles: [&str; 2] = ["ime", "input method"];
    let b = contains_any(t, &needles);
    proof {
        assert(str_views(needles@) =~= im_lower());
    }
    b
}

pub open spec fn audio_text() -> Seq<Seq<char>> {
    seq!["没声音"@, "声音"@, "麦克风"@, "耳机"@, "音频"@]
}

fn has_audio_text(t: &[char]) -> (b: bool)
    ensures
        b == any_of(t@, audio_text()),
{
    let needles: [&str; 5] = ["没声音", "声音", "麦克风", "耳机", "音频"];
    let b = contains_any(t, &needles);
    proof {
        assert(str_views(needles@) =~= audio_text());
    }
    b
}

pub open spec fn audio_lower() -> Seq<Seq<char>> {
    seq!["audio"@, "sound"@, "microphone"@, "pipewire"@, "wireplumber"@]
}

fn has_audio_lower(t: &[char]) -> (b: bool)
    ensures
        b == any_of(t@, audio_lower()),
{
    let needles: [&str; 5] = ["audio", "sound", "microphone", "pipewire", "wireplumber"];
    let b = contains_any(t, &needles);
    proof {
        assert(str_views(needles@) =~= audio_lower());
    }
    b
}

pub open spec fn display_text() -> Seq<Seq<char>> {
    seq!["屏幕分享"@, "黑屏"@, "截图"@, "录屏"@, "显示器"@, "窗口"@, "闪屏"@]
}

fn has_display_text(t: &[char]) -> (b: bool)
    ensures
        b == any_of(t@, display_text()),
{
    let needles: [&str; 7] = ["屏幕分享", "黑屏", "截图", "录屏", "显示器", "窗口", "闪屏"];
    let b = contains_any(t, &needles);
    proof {
        assert(str_views(needles@) =~= display_text());
    }
    b
}

pub open spec fn display_lower() -> Seq<Seq<char>> {
    seq!["display"@, "screen"@, "wayland"@, "xwayland"@, "portal"@]
}

fn has_display_lower(t: &[char]) -> (b: bool)
    ensures
        b == any_of(t@, display_lower()),
{
    let needles: [&str; 5] = ["display", "screen", "wayland", "xwayland", "portal"];
    let b = contains_any(t, &needles);
    proof {
        assert(str_views(needles@) =~= display_lower());
    }
    b
}

pub open spec fn package_text() -> Seq<Seq<char>> {
    seq!["更新"@, "安装包"@, "依赖"@, "滚挂"@, "包管理"@]
}

fn has_package_text(t: &[char]) -> (b: bool)
    ensures
        b == any_of(t@, package_text()),
{
    let needles: [&str; 5] = ["更新", "安装包", "依赖", "滚挂", "包管理"];
    let b = contains_any(t, &needles);
    proof {
        assert(str_views(needles@) =~= package_text());
    }
    b
}

pub open spec fn package_lower() -> Seq<Seq<char>> {
    seq!["pacman"@, "yay"@, "paru"@, "aur"@, "dnf"@, "apt"@, "brew"@]
}

fn has_package_lower(t: &[char]) -> (b: bool)
    ensures
        b == any_of(t@, package_lower()),
{
    let needles: [&str; 7] = ["pacman", "yay", "paru", "aur", "dnf", "apt", "brew"];
    let b = contains_any(t, &needles);
    proof {
        assert(str_views(needles@) =~= package_lower());
    }
    b
}

pub open spec fn gpu_text() -> Seq<Seq<char>> {
    seq!["显卡"@, "驱动"@, "独显"@, "核显"@]
}

fn has_gpu_text(t: &[char]) -> (b: bool)
    ensures
        b == any_of(t@, gpu_text()),
{
    let needles: [&str; 4] = ["显卡", "驱动", "独显", "核显"];
    let b = contains_any(t, &needles);
    proof {
        assert(str_views(needles@) =~= gpu_text());
    }
    b
}

pub open spec fn gpu_lower() -> Seq<Seq<char>> {
    seq!["gpu"@, "nvidia"@, "amd"@, "mesa"@, "vulkan"@]
}

fn has_gpu_lower(t: &[char]) -> (b: bool)
    ensures
        b == any_of(t@, gpu_lower()),
{
    let needles: [&str; 5] = ["gpu", "nvidia", "amd", "mesa", "vulkan"];
    let b = contains_any(t, &needles);
    proof {
        assert(str_views(needles@) =~= gpu_lower());
    }
    b
}

pub open spec fn network_text() -> Seq<Seq<char>> {
    seq!["网络"@, "联网"@, "断网"@, "dns"@, "网卡"@, "wifi"@, "wi-fi"@]
}

fn has_network_text(t: &[char]) -> (b: bool)
    ensures
        b == any_of(t@, network_text()),
{
    let needles: [&str; 7] = ["网络", "联网", "断网", "dns", "网卡", "wifi", "wi-fi"];
    let b = contains_any(t, &needles);
    proof {
        assert(str_views(needles@) =~= network_text());
    }
    b
}

pub open spec fn network_lower() -> Seq<Seq<char>> {
    seq!["network"@, "internet"@, "wifi"@, "wi-fi"@, "dns"@]
}

fn has_network_lower(t: &[char]) -> (b: bool)
    ensures
        b == any_of(t@, network_lower()),
{
    let needles: [&str; 5] = ["network", "internet", "wifi", "wi-fi", "dns"];
    let b = contains_any(t, &needles);
    proof {
        assert(str_views(needles@) =~= network_lower());
    }
    b
}

pub open spec fn storage_text() -> Seq<Seq<char>> {
    seq!["磁盘"@, "硬盘"@, "空间"@, "挂载"@, "btrfs"@, "快照"@]
}

fn has_storage_text(t: &[char]) -> (b: bool)
    ensures
        b == any_of(t@, storage_text()),
{
    let needles: [&str; 6] = ["磁盘", "硬盘", "空间", "挂载", "btrfs", "快照"];
    let b = contains_any(t, &needles);
    proof {
        assert(str_views(needles@) =~= storage_text());
    }
    b
}

pub open spec fn storage_lower() -> Seq<Seq<char>> {
    seq!["disk"@, "storage"@, "mount"@, "btrfs"@, "filesystem"@]
}

fn has_storage_lower(t: &[char]) -> (b: bool)
    ensures
        b == any_of(t@, storage_lower()),
{
    let needles: [&str; 5] = ["disk", "storage", "mount", "btrfs", "filesystem"];
    let b = contains_any(t, &needles);
    proof {
        assert(str_views(needles@) =~= storage_lower());
    }
    b
}

pub open spec fn app_text() -> Seq<Seq<char>> {
    seq!["打不开"@, "启动不了"@, "闪退"@, "崩溃"@, "报错"@]
}

fn has_app_text(t: &[char]) -> (b: bool)
    ensures
        b == any_of(t@, app_text()),
{
    let needles: [&str; 5] = ["打不开", "启动不了", "闪退", "崩溃", "报错"];
    let b = contains_any(t, &needles);
    proof {
        assert(str_views(needles@) =~= app_text());
    }
    b
}

pub open spec fn start_text() -> Seq<Seq<char>> {
    seq!["打不开"@, "启动不了"@, "闪退"@, "崩溃"@]
}

fn has_start_text(t: &[char]) -> (b: bool)
    ensures
        b == any_of(t@, start_text()),
{
    let needles: [&str; 4] = ["打不开", "启动不了", "闪退", "崩溃"];
    let b = contains_any(t, &needles);
    proof {
        assert(str_views(needles@) =~= start_text());
    }
    b
}

pub open spec fn crash_lower() -> Seq<Seq<char>> {
    seq!["crash"@, "cannot start"@, "won't open"@, "not open"@]
}

fn has_crash_lower(t: &[char]) -> (b: bool)
    ensures
        b == any_of(t@, crash_lower()),
{
    let needles: [&str; 4] = ["crash", "cannot start", "won't open", "not open"];
    let b = contains_any(t, &needles);
    proof {
        assert(str_views(needles@) =~= crash_lower());
    }
    b
}

/// "mode is auto but query is empty; …".
pub open spec fn empty_auto_text() -> Seq<char> {
    "mode is auto but query is empty; provide query or a structured mode"@
}

/// The mode that a request's words point to, in order of precedence; `None` when
/// nothing does and the text is blank.
pub open spec fn inferred_mode(text: Seq<char>, has_target: bool) -> Option<Mode> {
    let l = lower(text);
    if any_of(text, im_text()) || any_of(l, im_lower()) {
        Some(Mode::InputMethod)
    } else if any_of(text, audio_text()) || any_of(l, audio_lower()) {
        Some(Mode::Audio)
    } else if any_of(text, display_text()) || any_of(l, display_lower()) {
        Some(Mode::Display)
    } else if any_of(text, package_text()) || any_of(l, package_lower()) {
        Some(Mode::PackageUpdate)
    } else if any_of(text, gpu_text()) || any_of(l, gpu_lower()) {
        Some(Mode::Gpu)
    } else if any_of(text, network_text()) || any_of(l, network_lower()) {
        Some(Mode::Network)
    } else if any_of(text, storage_text()) || any_of(l, storage_lower()) {
        Some(Mode::Storage)
    } else if has_target || any_of(text, app_text()) || any_of(l, crash_lower()) {
        Some(Mode::App)
    } else if text.len() == 0 {
        None
    } else {
        Some(Mode::System)
    }
}

/// The apps that a request can name, and the target each stands for.
pub open spec fn target_pairs() -> Seq<(Seq<char>, Seq<char>)> {
    seq![
        ("opencode"@, "opencode"@),
        ("open code"@, "opencode"@),
        ("linuxqq"@, "qq"@),
        ("qq"@, "qq"@),
        ("微信"@, "wechat"@),
        ("wechat"@, "wechat"@),
        ("steam"@, "steam"@),
        ("firefox"@, "firefox"@),
        ("chrome"@, "chrome"@),
        ("chromium"@, "chromium"@),
        ("wps"@, "wps"@),
        ("vscode"@, "code"@),
        ("code"@, "code"@),
    ]
}

/// The target of the first pair from `i` on whose needle occurs in the text or its
/// lowercase form.
pub open spec fn target_from(text: Seq<char>, pairs: Seq<(Seq<char>, Seq<char>)>, i: int) -> Option<
    Seq<char>,
>
    decreases pairs.len() - i,
{
    if i < 0 || i >= pairs.len() {
        None
    } else if contains(lower(text), pairs[i].0) || contains(text, pairs[i].0) {
        Some(pairs[i].1)
    } else {
        target_from(text, pairs, i + 1)
    }
}

/// The app that a request's words name (`infer_target`).
pub open spec fn inferred_target(text: Seq<char>) -> Option<Seq<char>> {
    target_from(text, target_pairs(), 0)
}

/// The symptom that a request's words and mode point to (`infer_symptom`).
pub open spec fn inferred_symptom(text: Seq<char>, mode: Mode) -> Option<Seq<char>> {
    match mode {
        Mode::InputMethod => Some("app_cannot_input_chinese"@),
        Mode::App => if any_of(text, start_text()) || any_of(lower(text), crash_lower()) {
            Some("cannot_start"@)
        } else {
            None
        },
        Mode::Audio => Some("audio_problem"@),
        Mode::Display => Some("display_problem"@),
        Mode::Network => Some("network_problem"@),
        Mode::PackageUpdate => Some("package_update_problem"@),
        Mode::Storage => Some("storage_problem"@),
        Mode::Gpu => Some("gpu_problem"@),
        Mode::System => None,
    }
}

pub open spec fn opt_or(a: Option<Seq<char>>, b: Option<Seq<char>>) -> Option<Seq<char>> {
    match a {
        Some(x) => Some(x),
        None => b,
    }
}

pub open spec fn opt_string(o: Option<String>) -> Option<Seq<char>> {
    match o {
        Some(s) => Some(s@),
        None => None,
    }
}

fn copy_opt(o: Option<&str>) -> (r: Option<String>)
    ensures
        opt_string(r) == opt_view(o),
{
    match o {
        Some(s) => Some(string_of(chars_of(s).as_slice())),
        None => None,
    }
}

fn lit(s: &str) -> (r: String)
    ensures
        r@ == s@,
{
    string_of(chars_of(s).as_slice())
}

/// The app that a request's words name (`infer_target`).
pub fn infer_target(text: &str) -> (r: Option<String>)
    ensures
        opt_string(r) == inferred_target(text@),
{
    let pairs: [(&str, &str); 13] = [
        ("opencode", "opencode"),
        ("open code", "opencode"),
        ("linuxqq", "qq"),
        ("qq", "qq"),
        ("微信", "wechat"),
        ("wechat", "wechat"),
        ("steam", "steam"),
        ("firefox", "firefox"),
        ("chrome", "chrome"),
        ("chromium", "chromium"),
        ("wps", "wps"),
        ("vscode", "code"),
        ("code", "code"),
    ];
    let ghost ps = pairs@.map_values(|p: (&str, &str)| (p.0@, p.1@));
    proof {
        assert(ps =~= target_pairs());
    }
    let t = chars_of(text);
    let l = to_lower(t.as_slice());
    let mut i: usize = 0;
    while i < 13
        invariant
            0 <= i <= 13,
            ps == pairs@.map_values(|p: (&str, &str)| (p.0@, p.1@)),
            ps == target_pairs(),
            t@ == text@,
            l@ == lower(text@),
            target_from(text@, ps, 0) == target_from(text@, ps, i as int),
        decreases 13 - i,
    {
        let (needle, target) = pairs[i];
        if contains_str(l.as_slice(), needle) || contains_str(t.as_slice(), needle) {
            return Some(lit(target));
        }
        i = i + 1;
    }
    None
}

/// The symptom that a request's words and mode point to (`infer_symptom`).
pub fn infer_symptom(text: &str, mode: Mode) -> (r: Option<String>)
    ensures
        opt_string(r) == inferred_symptom(text@, mode),
{
    match mode {
        Mode::InputMethod => Some(lit("app_cannot_input_chinese")),
        Mode::App => {
            let t = chars_of(text);
            let l = to_lower(t.as_slice());
            if has_start_text(t.as_slice()) || has_crash_lower(l.as_slice()) {
                Some(lit("cannot_start"))
            } else {
                None
            }
        },
        Mode::Audio => Some(lit("audio_problem")),
        Mode::Display => Some(lit("display_problem")),
        Mode::Network => Some(lit("network_problem")),
        Mode::PackageUpdate => Some(lit("package_update_problem")),
        Mode::Storage => Some(lit("storage_problem")),
        Mode::Gpu => Some(lit("gpu_problem")),
        Mode::System => None,
    }
}

/// A request whose mode was left to the words.
#[derive(Debug)]
pub struct InferredProbeRequest {
    pub mode: Mode,
    pub target: Option<String>,
    pub symptom: Option<String>,
}

pub open spec fn query_text(query: Option<Seq<char>>) -> Seq<char> {
    match query {
        Some(q) => trim(q),
        None => seq![],
    }
}

/// Works out the mode, target and symptom from the request's words
/// (`infer_probe_request`); a given target or symptom is kept.
pub fn infer_probe_request(query: Option<&str>, target: Option<&str>, symptom: Option<&str>) -> (r:
    Result<InferredProbeRequest, String>)
    ensures
        match r {
            Ok(req) => {
                let text = query_text(opt_view(query));
                &&& inferred_mode(text, target is Some) == Some(req.mode)
                &&& opt_string(req.target) == opt_or(opt_view(target), inferred_target(text))
                &&& opt_string(req.symptom) == opt_or(opt_view(symptom), inferred_symptom(text, req.mode))
            },
            Err(e) => inferred_mode(query_text(opt_view(query)), target is Some) is None && e@
                == empty_auto_text(),
        },
{
    let t = match query {
        Some(q) => {
            let c = chars_of(q);
            trim_ws(c.as_slice())
        },
        None => Vec::new(),
    };
    let ts = t.as_slice();
    let l = to_lower(ts);
    let ls = l.as_slice();
    let mode = if has_im_text(ts) || has_im_lower(ls) {
        Mode::InputMethod
    } else if has_audio_text(ts) || has_audio_lower(ls) {
        Mode::Audio
    } else if has_display_text(ts) || has_display_lower(ls) {
        Mode::Display
    } else if has_package_text(ts) || has_package_lower(ls) {
        Mode::PackageUpdate
    } else if has_gpu_text(ts) || has_gpu_lower(ls) {
        Mode::Gpu
    } else if has_network_text(ts) || has_network_lower(ls) {
        Mode::Network
    } else if has_storage_text(ts) || has_storage_lower(ls) {
        Mode::Storage
    } else if target.is_some() || has_app_text(ts) || has_crash_lower(ls) {
        Mode::App
    } else if ts.len() == 0 {
        return Err(lit("mode is auto but query is empty; provide query or a structured mode"));
    } else {
        Mode::System
    };
    let text = string_of(ts);
    let target = match target {
        Some(x) => Some(lit(x)),
        None => infer_target(text.as_str()),
    };
    let symptom = match symptom {
        Some(x) => Some(lit(x)),
        None => infer_symptom(text.as_str(), mode),
    };
    Ok(InferredProbeRequest { mode, target, symptom })
}

/// The arguments of an `inspect_issue` call as read from its JSON: each is the value
/// of its key when that is a string (`recent_minutes`: an unsigned integer).
#[derive(Debug)]
pub struct ProbeArgs {
    pub query: Option<String>,
    pub mode: Option<String>,
    pub target: Option<String>,
    pub symptom: Option<String>,
    pub depth: Option<String>,
    pub recent_minutes: Option<u64>,
    pub platform: Option<String>,
}

/// A probe request, checked.
#[derive(Debug)]
pub struct DiagnoseArgs {
    pub query: Option<String>,
    pub mode: Mode,
    pub target: Option<String>,
    pub symptom: Option<String>,
    pub depth: Depth,
    pub recent_minutes: u64,
    pub platform: PlatformArg,
}

/// A checked request as values: query, mode, target, symptom, depth, minutes of logs,
/// platform.
pub type ArgsView = (Option<Seq<char>>, Mode, Option<Seq<char>>, Option<Seq<char>>, Depth, u64, PlatformArg);

pub open spec fn args_view(a: DiagnoseArgs) -> ArgsView {
    (opt_string(a.query), a.mode, opt_string(a.target), opt_string(a.symptom), a.depth, a.recent_minutes, a.platform)
}

/// An optional string argument: trimmed, blank as absent, cut to `max` characters
/// (`optional_string`).
pub open spec fn optional_text(v: Option<Seq<char>>, max: nat) -> Option<Seq<char>> {
    match v {
        Some(s) => if trim(s).len() == 0 {
            None
        } else {
            Some(take_chars(trim(s), max as int))
        },
        None => None,
    }
}

/// Reads an optional string argument (`optional_string`, once its value is read).
pub fn optional_string(value: Option<&str>, max_chars: usize) -> (r: Option<String>)
    ensures
        opt_string(r) == optional_text(opt_view(value), max_chars as nat),
{
    match value {
        Some(v) => {
            let c = chars_of(v);
            let t = trim_ws(c.as_slice());
            if t.len() == 0 {
                None
            } else {
                let p = prefix_chars(t.as_slice(), max_chars);
                Some(string_of(p.as_slice()))
            }
        },
        None => None,
    }
}

pub open spec fn or_default(v: Option<Seq<char>>, d: Seq<char>) -> Seq<char> {
    match v {
        Some(s) => s,
        None => d,
    }
}

/// The minutes of logs to read: 30 by default, kept within 1..=1440.
pub open spec fn minutes_of(v: Option<u64>) -> u64 {
    let m = match v {
        Some(x) => x,
        None => 30,
    };
    if m < 1 {
        1
    } else if m > 1440 {
        1440
    } else {
        m
    }
}

/// What `parse_args` makes of the raw arguments: the mode, target and symptom
/// (inferred from the query when the mode is "auto" or absent), depth ("normal" by
/// default), minutes and platform ("auto" by default); or the first error.
pub open spec fn args_of(
    query: Option<Seq<char>>,
    mode: Option<Seq<char>>,
    target: Option<Seq<char>>,
    symptom: Option<Seq<char>>,
    depth: Option<Seq<char>>,
    recent_minutes: Option<u64>,
    platform: Option<Seq<char>>,
) -> Result<ArgsView, Seq<char>> {
    let q = optional_text(query, 500);
    let t0 = optional_text(target, 160);
    let s0 = optional_text(symptom, 200);
    let mode_raw = trim(or_default(mode, "auto"@));
    let text = query_text(q);
    let first: Result<(Mode, Option<Seq<char>>, Option<Seq<char>>), Seq<char>> = if mode_raw
        == "auto"@ {
        match inferred_mode(text, t0 is Some) {
            None => Err(empty_auto_text()),
            Some(md) => Ok((md, opt_or(t0, inferred_target(text)), opt_or(s0, inferred_symptom(text, md)))),
        }
    } else {
        match mode_named(mode_raw) {
            None => Err("unsupported diagnostic mode: "@ + mode_raw),
            Some(md) => Ok((md, t0, s0)),
        }
    };
    let depth_raw = trim(or_default(depth, "normal"@));
    let platform_raw = trim(or_default(platform, "auto"@));
    match first {
        Err(e) => Err(e),
        Ok((md, tg, sy)) => match depth_named(depth_raw) {
            None => Err("unsupported diagnostic depth: "@ + depth_raw),
            Some(dp) => match platform_arg_named(platform_raw) {
                None => Err("unsupported diagnostic platform: "@ + platform_raw),
                Some(pl) => Ok((q, md, tg, sy, dp, minutes_of(recent_minutes), pl)),
            },
        },
    }
}

fn trimmed_or(v: &Option<String>, d: &str) -> (r: String)
    ensures
        r@ == trim(or_default(opt_string(*v), d@)),
{
    let c = match v {
        Some(s) => chars_of(s.as_str()),
        None => chars_of(d),
    };
    string_of(trim_ws(c.as_slice()).as_slice())
}

fn opt_as_str(o: &Option<String>) -> (r: Option<&str>)
    ensures
        opt_view(r) == opt_string(*o),
{
    match o {
        Some(s) => Some(s.as_str()),
        None => None,
    }
}

/// Checks the arguments of an `inspect_issue` call (`parse_args`, once the JSON has
/// been read into `ProbeArgs`).
pub fn parse_args(args: &ProbeArgs) -> (r: Result<DiagnoseArgs, String>)
    ensures
        match r {
            Ok(a) => args_of(
                opt_string(args.query),
                opt_string(args.mode),
                opt_string(args.target),
                opt_string(args.symptom),
                opt_string(args.depth),
                args.recent_minutes,
                opt_string(args.platform),
            ) == Ok::<ArgsView, Seq<char>>(args_view(a)),
            Err(e) => args_of(
                opt_string(args.query),
                opt_string(args.mode),
                opt_string(args.target),
                opt_string(args.symptom),
                opt_string(args.depth),
                args.recent_minutes,
                opt_string(args.platform),
            ) == Err::<ArgsView, Seq<char>>(e@),
        },
{
    let query = optional_string(opt_as_str(&args.query), 500);
    let target0 = optional_string(opt_as_str(&args.target), 160);
    let symptom0 = optional_string(opt_as_str(&args.symptom), 200);
    let mode_raw = trimmed_or(&args.mode, "auto");
    let mc = chars_of(mode_raw.as_str());
    let (mode, target, symptom) = if eq_str(mc.as_slice(), "auto") {
        let inferred = infer_probe_request(
            opt_as_str(&query),
            opt_as_str(&target0),
            opt_as_str(&symptom0),
        );
        match inferred {
            Err(e) => return Err(e),
            Ok(req) => {
                (req.mode, req.target, req.symptom)
            },
        }
    } else {
        match parse_mode(mode_raw.as_str()) {
            Err(e) => return Err(e),
            Ok(m) => (m, target0, symptom0),
        }
    };
    let depth_raw = trimmed_or(&args.depth, "normal");
    let depth = match parse_depth(depth_raw.as_str()) {
        Err(e) => return Err(e),
        Ok(d) => d,
    };
    let m: u64 = match args.recent_minutes {
        Some(x) => x,
        None => 30,
    };
    let recent_minutes: u64 = if m < 1 {
        1
    } else if m > 1440 {
        1440
    } else {
        m
    };
    let platform_raw = trimmed_or(&args.platform, "auto");
    let platform = match parse_platform_arg(platform_raw.as_str()) {
        Err(e) => return Err(e),
        Ok(p) => p,
    };
    Ok(DiagnoseArgs { query, mode, target, symptom, depth, recent_minutes, platform })
}


// ---------------------------------------------------------------------------
// Processes
// ---------------------------------------------------------------------------

pub open spec fn is_digit(c: char) -> bool {
    48 <= c as u32 && c as u32 <= 57
}

pub open spec fn all_digits(d: Seq<char>) -> bool {
    forall|k: int| 0 <= k < d.len() ==> is_digit(#[trigger] d[k])
}

/// The value of a string of decimal digits.
pub open spec fn digits_value(d: Seq<char>) -> nat
    decreases d.len(),
{
    if d.len() == 0 {
        0
    } else {
        digits_value(d.drop_last()) * 10 + ((d.last() as u32) - 48) as nat
    }
}

/// `str::parse::<u32>`: an optional `+`, then at least one decimal digit, with a
/// value that fits.
pub open spec fn parsed_u32(s: Seq<char>) -> Option<u32> {
    let d = if s.len() > 0 && s[0] == '+' {
        s.drop_first()
    } else {
        s
    };
    if d.len() > 0 && all_digits(d) && digits_value(d) <= u32::MAX {
        Some(digits_value(d) as u32)
    } else {
        None
    }
}

proof fn lemma_digits_prefix(d: Seq<char>, k: int)
    requires
        0 <= k <= d.len(),
        all_digits(d),
    ensures
        digits_value(d.take(k)) <= digits_value(d),
    decreases d.len(),
{
    if k < d.len() {
        assert(all_digits(d.drop_last()));
        lemma_digits_prefix(d.drop_last(), k);
        assert(d.drop_last().take(k) =~= d.take(k));
    } else {
        assert(d.take(k) =~= d);
    }
}

/// Reads a `u32` the way `str::parse` does.
pub fn parse_u32(s: &[char]) -> (r: Option<u32>)
    ensures
        r == parsed_u32(s@),
{
    let start: usize = if s.len() > 0 && s[0] == '+' {
        1
    } else {
        0
    };
    let ghost d = if s@.len() > 0 && s@[0] == '+' {
        s@.drop_first()
    } else {
        s@
    };
    proof {
        assert(d =~= s@.subrange(start as int, s@.len() as int));
    }
    if start >= s.len() {
        return None;
    }
    let mut acc: u64 = 0;
    let mut i: usize = start;
    proof {
        assert(d.take(0) =~= Seq::<char>::empty());
    }
    while i < s.len()
        invariant
            start <= i <= s@.len(),
            d == s@.subrange(start as int, s@.len() as int),
            d == (if s@.len() > 0 && s@[0] == '+' {
                s@.drop_first()
            } else {
                s@
            }),
            acc as nat == digits_value(d.take(i - start)),
            acc <= u32::MAX,
            all_digits(d.take(i - start)),
        decreases s.len() - i,
    {
        let c = s[i];
        let ghost k = i - start;
        proof {
            assert(d[k] == c);
            assert(d.take(k + 1).drop_last() =~= d.take(k));
            assert(d.take(k + 1).last() == c);
        }
        let cu = c as u32;
        if !(48 <= cu && cu <= 57) {
            proof {
                assert(!is_digit(d[k]));
                assert(!all_digits(d));
            }
            return None;
        }
        let dv: u64 = (cu - 48) as u64;
        let next: u64 = acc * 10 + dv;
        if next > 4294967295 {
            proof {
                if all_digits(d) {
                    lemma_digits_prefix(d, k + 1);
                }
            }
            return None;
        }
        acc = next;
        i = i + 1;
    }
    proof {
        assert(d.take(d.len() as int) =~= d);
        assert(all_digits(d));
        assert(d.len() > 0);
    }
    Some(acc as u32)
}

/// The first whitespace-separated word of a line.
pub open spec fn first_word(line: Seq<char>) -> Option<Seq<char>> {
    if words(line).len() > 0 {
        Some(words(line)[0])
    } else {
        None
    }
}

/// The process id at the start of a `pgrep -af` line.
pub open spec fn pid_of(line: Seq<char>) -> Option<u32> {
    match first_word(line) {
        Some(w) => parsed_u32(w),
        None => None,
    }
}

fn line_pid(line: &[char]) -> (r: Option<u32>)
    ensures
        r == pid_of(line@),
{
    let ws = split_words(line);
    if ws.len() == 0 {
        None
    } else {
        parse_u32(ws[0].as_slice())
    }
}

/// Whether a `pgrep` line is about the process `pid` (`line_starts_with_pid`).
pub fn line_starts_with_pid(line: &str, pid: u32) -> (b: bool)
    ensures
        b == (pid_of(line@) == Some(pid)),
{
    let c = chars_of(line);
    match line_pid(c.as_slice()) {
        Some(p) => p == pid,
        None => false,
    }
}

pub open spec fn sat_sub(a: nat, b: nat) -> nat {
    if a >= b {
        (a - b) as nat
    } else {
        0
    }
}

/// How well a `pgrep -af` line matches the program `name`, both lowercased: the
/// program run by path counts 100, as a word 50; sandboxed renderers, helpers and
/// AppImage mounts count less.
pub open spec fn match_score(line: Seq<char>, name: Seq<char>) -> nat {
    let l = lower(line);
    let n = lower(name);
    let s1: nat = if contains(l, "/"@ + n + " "@) || ends_with(l, "/"@ + n) {
        100
    } else {
        0
    };
    let s2: nat = s1 + if contains(l, " "@ + n + " "@) || ends_with(l, " "@ + n) {
        50nat
    } else {
        0nat
    };
    let s3 = if contains(l, "--type=zygote"@) || contains(l, "--type=renderer"@) {
        sat_sub(s2, 30)
    } else {
        s2
    };
    let s4 = if contains(l, "clipsync"@) || contains(l, "helper"@) {
        sat_sub(s3, 20)
    } else {
        s3
    };
    if contains(l, "/tmp/.mount_"@) {
        sat_sub(s4, 10)
    } else {
        s4
    }
}

fn around(pre: &str, n: &[char], post: &str) -> (r: Vec<char>)
    ensures
        r@ == pre@ + n@ + post@,
{
    let mut out: Vec<char> = Vec::new();
    push_str(&mut out, pre);
    push_all(&mut out, n);
    push_str(&mut out, post);
    out
}

fn score_of(line: &[char], name: &[char]) -> (s: usize)
    ensures
        s as nat == match_score(line@, name@),
        s <= 150,
{
    let l = to_lower(line);
    let n = to_lower(name);
    let ls = l.as_slice();
    let slash_sp = around("/", n.as_slice(), " ");
    let slash = around("/", n.as_slice(), "");
    let sp_sp = around(" ", n.as_slice(), " ");
    let sp = around(" ", n.as_slice(), "");
    proof {
        reveal_strlit("");
        assert(slash@ =~= "/"@ + n@);
        assert(sp@ =~= " "@ + n@);
    }
    let mut score: usize = 0;
    if crate::text::contains_seq(ls, slash_sp.as_slice()) || has_suffix(ls, slash.as_slice()) {
        score = score + 100;
    }
    if crate::text::contains_seq(ls, sp_sp.as_slice()) || has_suffix(ls, sp.as_slice()) {
        score = score + 50;
    }
    if contains_str(ls, "--type=zygote") || contains_str(ls, "--type=renderer") {
        score = if score >= 30 {
            score - 30
        } else {
            0
        };
    }
    if contains_str(ls, "clipsync") || contains_str(ls, "helper") {
        score = if score >= 20 {
            score - 20
        } else {
            0
        };
    }
    if contains_str(ls, "/tmp/.mount_") {
        score = if score >= 10 {
            score - 10
        } else {
            0
        };
    }
    score
}

/// Scores a `pgrep -af` line against a program name (`process_match_score`).
pub fn process_match_score(line: &str, name: &str) -> (s: usize)
    ensures
        s as nat == match_score(line@, name@),
{
    let l = chars_of(line);
    let n = chars_of(name);
    score_of(l.as_slice(), n.as_slice())
}

/// A `pgrep -af` line that is about `name` and not about the probe itself.
pub open spec fn keeps_line(line: Seq<char>, name: Seq<char>, own_pid: u32) -> bool {
    contains(lower(line), lower(name)) && !contains(lower(line), "pgrep -af"@) && pid_of(line)
        != Some(own_pid)
}

pub open spec fn kept_lines(ls: Seq<Seq<char>>, name: Seq<char>, own_pid: u32) -> Seq<Seq<char>>
    decreases ls.len(),
{
    if ls.len() == 0 {
        seq![]
    } else if keeps_line(ls.last(), name, own_pid) {
        kept_lines(ls.drop_last(), name, own_pid).push(ls.last())
    } else {
        kept_lines(ls.drop_last(), name, own_pid)
    }
}

/// Inserts a line after every line that scores at least as well.
pub open spec fn insert_by_score(s: Seq<Seq<char>>, x: Seq<char>, name: Seq<char>) -> Seq<Seq<char>>
    decreases s.len(),
{
    if s.len() == 0 {
        seq![x]
    } else if match_score(s[0], name) < match_score(x, name) {
        seq![x] + s
    } else {
        seq![s[0]] + insert_by_score(s.drop_first(), x, name)
    }
}

/// The lines, best score first, lines of equal score in their order (the stable
/// sort by descending score).
pub open spec fn sorted_by_score(s: Seq<Seq<char>>, name: Seq<char>) -> Seq<Seq<char>>
    decreases s.len(),
{
    if s.len() == 0 {
        seq![]
    } else {
        insert_by_score(sorted_by_score(s.drop_last(), name), s.last(), name)
    }
}

/// The `pgrep -af` lines about `name`, best match first (`filtered_process_matches`;
/// `own_pid` is the probing process's id).
pub open spec fn process_matches(output: Seq<char>, name: Seq<char>, own_pid: u32) -> Seq<Seq<char>> {
    sorted_by_score(kept_lines(lines(output), name, own_pid), name)
}

proof fn lemma_insert_at(s: Seq<Seq<char>>, x: Seq<char>, name: Seq<char>, p: int)
    requires
        0 <= p <= s.len(),
        forall|j: int| 0 <= j < p ==> match_score(#[trigger] s[j], name) >= match_score(x, name),
        p == s.len() || match_score(s[p], name) < match_score(x, name),
    ensures
        insert_by_score(s, x, name) == s.take(p) + seq![x] + s.skip(p),
    decreases p,
{
    if p == 0 {
        assert(s.skip(0) =~= s);
        assert(s.take(0) + seq![x] + s.skip(0) =~= seq![x] + s);
    } else {
        let t = s.drop_first();
        assert forall|j: int| 0 <= j < p - 1 implies match_score(#[trigger] t[j], name) >= match_score(
            x,
            name,
        ) by {
            assert(t[j] == s[j + 1]);
        }
        lemma_insert_at(t, x, name, p - 1);
        assert(seq![s[0]] + (t.take(p - 1) + seq![x] + t.skip(p - 1)) =~= s.take(p) + seq![x] + s.skip(
            p,
        ));
    }
}

/// Keeps the `pgrep -af` lines about `name`, best match first
/// (`filtered_process_matches`).
pub fn filtered_process_matches(output: &str, name: &str, own_pid: u32) -> (r: Vec<String>)
    ensures
        crate::tools::linux_game::string_views(r@) == process_matches(output@, name@, own_pid),
{
    let oc = chars_of(output);
    let nc = chars_of(name);
    let ln = to_lower(nc.as_slice());
    let ls = split_lines(oc.as_slice());
    let ghost lv = views(ls@);
    let mut kept: Vec<Vec<char>> = Vec::new();
    let mut i: usize = 0;
    while i < ls.len()
        invariant
            0 <= i <= ls@.len(),
            lv == views(ls@),
            lv == lines(output@),
            nc@ == name@,
            ln@ == lower(name@),
            views(kept@) == kept_lines(lv.take(i as int), name@, own_pid),
        decreases ls.len() - i,
    {
        let line = ls[i].as_slice();
        proof {
            assert(lv.take(i + 1).drop_last() =~= lv.take(i as int));
            assert(lv.take(i + 1).last() == line@);
        }
        let lower_line = to_lower(line);
        let keep = crate::text::contains_seq(lower_line.as_slice(), ln.as_slice()) && !contains_str(
            lower_line.as_slice(),
            "pgrep -af",
        ) && !(match line_pid(line) {
            Some(p) => p == own_pid,
            None => false,
        });
        if keep {
            let ghost before = views(kept@);
            kept.push(crate::text::copy_range(line, 0, line.len()));
            proof {
                assert(line@.subrange(0, line@.len() as int) =~= line@);
                assert(views(kept@) =~= before.push(line@));
            }
        }
        i = i + 1;
    }
    proof {
        assert(lv.take(lv.len() as int) =~= lv);
    }
    let ghost kv = views(kept@);
    let mut out: Vec<Vec<char>> = Vec::new();
    let mut scores: Vec<usize> = Vec::new();
    let mut k: usize = 0;
    proof {
        assert(views(out@) =~= sorted_by_score(kv.take(0), name@));
    }
    while k < kept.len()
        invariant
            0 <= k <= kept@.len(),
            kv == views(kept@),
            nc@ == name@,
            views(out@) == sorted_by_score(kv.take(k as int), name@),
            scores@.len() == out@.len(),
            forall|j: int| 0 <= j < out@.len() ==> scores@[j] as nat == match_score(#[trigger] out@[j]@, name@),
        decreases kept.len() - k,
    {
        let x = kept[k].as_slice();
        let sx = score_of(x, nc.as_slice());
        let mut p: usize = 0;
        while p < out.len() && scores[p] >= sx
            invariant
                0 <= p <= out@.len(),
                scores@.len() == out@.len(),
                forall|j: int| 0 <= j < out@.len() ==> scores@[j] as nat == match_score(#[trigger] out@[j]@, name@),
                forall|j: int| 0 <= j < p ==> match_score(#[trigger] views(out@)[j], name@) >= match_score(x@, name@),
                sx as nat == match_score(x@, name@),
            decreases out.len() - p,
        {
            proof {
                assert(views(out@)[p as int] == out@[p as int]@);
            }
            p = p + 1;
        }
        let ghost before = views(out@);
        let ghost old_scores = scores@;
        proof {
            if p < out@.len() {
                assert(before[p as int] == out@[p as int]@);
            }
            lemma_insert_at(before, x@, name@, p as int);
            assert(kv.take(k + 1).drop_last() =~= kv.take(k as int));
            assert(kv.take(k + 1).last() == x@);
        }
        out.insert(p, crate::text::copy_range(x, 0, x.len()));
        scores.insert(p, sx);
        proof {
            assert(x@.subrange(0, x@.len() as int) =~= x@);
            assert(views(out@) =~= before.take(p as int) + seq![x@] + before.skip(p as int));
            assert forall|j: int| 0 <= j < out@.len() implies scores@[j] as nat == match_score(
                #[trigger] out@[j]@,
                name@,
            ) by {
                if j < p {
                    assert(out@[j]@ == before[j]);
                } else if j > p {
                    assert(out@[j]@ == before[j - 1]);
                }
            }
        }
        k = k + 1;
    }
    proof {
        assert(kv.take(kv.len() as int) =~= kv);
    }
    let mut r: Vec<String> = Vec::new();
    let mut m: usize = 0;
    while m < out.len()
        invariant
            0 <= m <= out@.len(),
            crate::tools::linux_game::string_views(r@) == views(out@).take(m as int),
        decreases out.len() - m,
    {
        let ghost before = crate::tools::linux_game::string_views(r@);
        r.push(string_of(out[m].as_slice()));
        proof {
            assert(crate::tools::linux_game::string_views(r@) =~= before.push(out@[m as int]@));
            assert(views(out@).take(m + 1) =~= views(out@).take(m as int).push(out@[m as int]@));
        }
        m = m + 1;
    }
    proof {
        assert(views(out@).take(out@.len() as int) =~= views(out@));
    }
    r
}

/// The process ids at the start of the lines, where there is one.
pub open spec fn pids_in(ls: Seq<Seq<char>>) -> Seq<u32>
    decreases ls.len(),
{
    if ls.len() == 0 {
        seq![]
    } else {
        match pid_of(ls.last()) {
            Some(p) => pids_in(ls.drop_last()).push(p),
            None => pids_in(ls.drop_last()),
        }
    }
}

/// The process ids of the matching lines (the end of `process_check`).
pub fn pids_of(matches: &[String]) -> (r: Vec<u32>)
    ensures
        r@ == pids_in(crate::tools::linux_game::string_views(matches@)),
{
    let ghost mv = crate::tools::linux_game::string_views(matches@);
    let mut r: Vec<u32> = Vec::new();
    let mut i: usize = 0;
    while i < matches.len()
        invariant
            0 <= i <= matches@.len(),
            mv == crate::tools::linux_game::string_views(matches@),
            r@ == pids_in(mv.take(i as int)),
        decreases matches.len() - i,
    {
        let c = chars_of(matches[i].as_str());
        proof {
            assert(mv.take(i + 1).drop_last() =~= mv.take(i as int));
            assert(mv.take(i + 1).last() == c@);
        }
        match line_pid(c.as_slice()) {
            Some(p) => r.push(p),
            None => {},
        }
        i = i + 1;
    }
    proof {
        assert(mv.take(mv.len() as int) =~= mv);
    }
    r
}


// ---------------------------------------------------------------------------
// Probe output
// ---------------------------------------------------------------------------

/// What a probe command left: its exit status, its output (clipped and redacted),
/// the error that kept it from running, whether it timed out.
#[derive(Debug)]
pub struct ProbeOutput {
    pub status: Option<i32>,
    pub stdout: String,
    pub stderr: String,
    pub error: Option<String>,
    pub timed_out: bool,
}

/// The seconds a probe may run: what it asks for and what the configuration allows,
/// each at least one.
pub open spec fn timeout_of(requested: u64, configured: u64) -> u64 {
    let r = if requested < 1 {
        1
    } else {
        requested
    };
    let c = if configured < 1 {
        1
    } else {
        configured
    };
    if r < c {
        r
    } else {
        c
    }
}

/// The timeout of a probe (the first step of `run_command`).
pub fn command_timeout(requested: u64, configured: u64) -> (s: u64)
    ensures
        s == timeout_of(requested, configured),
{
    let r = if requested < 1 {
        1
    } else {
        requested
    };
    let c = if configured < 1 {
        1
    } else {
        configured
    };
    if r < c {
        r
    } else {
        c
    }
}

/// At most `max` characters, with a mark where the text was cut (`clip`).
pub open spec fn clipped(text: Seq<char>, max: nat) -> Seq<char> {
    if text.len() <= max {
        text
    } else {
        text.take(max as int) + "\n...[truncated]"@
    }
}

fn clip_chars(text: &[char], max_chars: usize) -> (r: Vec<char>)
    ensures
        r@ == clipped(text@, max_chars as nat),
{
    if text.len() <= max_chars {
        copy_range(text, 0, text.len())
    } else {
        let mut out = copy_range(text, 0, max_chars);
        push_str(&mut out, "\n...[truncated]");
        out
    }
}

/// Clips a text (`clip`).
pub fn clip(text: &str, max_chars: usize) -> (r: String)
    ensures
        r@ == clipped(text@, max_chars as nat),
{
    let c = chars_of(text);
    let r = clip_chars(c.as_slice(), max_chars);
    proof {
        assert(c@.subrange(0, c@.len() as int) =~= c@);
    }
    string_of(r.as_slice())
}

pub open spec fn push_if(s: Seq<Seq<char>>, c: bool, x: Seq<char>) -> Seq<Seq<char>> {
    if c {
        s.push(x)
    } else {
        s
    }
}

/// The evidence of a probe: its output and its error output, trimmed and clipped to
/// 1000 characters, when not blank; its error; a timeout without an error.
pub open spec fn evidence_of(
    stdout: Seq<char>,
    stderr: Seq<char>,
    error: Option<Seq<char>>,
    timed_out: bool,
) -> Seq<Seq<char>> {
    let a = push_if(seq![], trim(stdout).len() > 0, clipped(trim(stdout), 1000));
    let b = push_if(a, trim(stderr).len() > 0, clipped(trim(stderr), 1000));
    let c = match error {
        Some(e) => b.push(e),
        None => b,
    };
    push_if(c, timed_out && error is None, "command timed out"@)
}

/// The evidence of a probe (`compact_evidence`).
pub fn compact_evidence(output: &ProbeOutput) -> (r: Vec<String>)
    ensures
        crate::tools::linux_game::string_views(r@) == evidence_of(
            output.stdout@,
            output.stderr@,
            opt_string(output.error),
            output.timed_out,
        ),
{
    let mut r: Vec<String> = Vec::new();
    let o = chars_of(output.stdout.as_str());
    let ot = trim_ws(o.as_slice());
    if ot.len() > 0 {
        let c = clip_chars(ot.as_slice(), 1000);
        r.push(string_of(c.as_slice()));
    }
    let ghost a = crate::tools::linux_game::string_views(r@);
    proof {
        assert(a =~= push_if(seq![], trim(output.stdout@).len() > 0, clipped(trim(output.stdout@), 1000)));
    }
    let e = chars_of(output.stderr.as_str());
    let et = trim_ws(e.as_slice());
    if et.len() > 0 {
        let c = clip_chars(et.as_slice(), 1000);
        r.push(string_of(c.as_slice()));
        proof {
            assert(crate::tools::linux_game::string_views(r@) =~= a.push(c@));
        }
    }
    let ghost b = crate::tools::linux_game::string_views(r@);
    match &output.error {
        Some(err) => {
            r.push(string_of(chars_of(err.as_str()).as_slice()));
            proof {
                assert(crate::tools::linux_game::string_views(r@) =~= b.push(err@));
            }
        },
        None => {},
    }
    let ghost c = crate::tools::linux_game::string_views(r@);
    if output.timed_out && output.error.is_none() {
        r.push(lit("command timed out"));
        proof {
            assert(crate::tools::linux_game::string_views(r@) =~= c.push("command timed out"@));
        }
    }
    r
}

// ---------------------------------------------------------------------------
// Reading command output
// ---------------------------------------------------------------------------

/// The value of the first `key=value` line with the key, its quotes trimmed.
pub open spec fn release_from(ls: Seq<Seq<char>>, key: Seq<char>, i: int) -> Option<Seq<char>>
    decreases ls.len() - i,
{
    if i < 0 || i >= ls.len() {
        None
    } else {
        match split_once(ls[i], '=') {
            Some((name, value)) => if name == key {
                Some(trim_set(value, CharSet::Only('"')))
            } else {
                release_from(ls, key, i + 1)
            },
            None => release_from(ls, key, i + 1),
        }
    }
}

/// A value of `/etc/os-release` (`os_release_value`).
pub fn os_release_value(text: &str, key: &str) -> (r: Option<String>)
    ensures
        opt_string(r) == release_from(lines(text@), key@, 0),
{
    let t = chars_of(text);
    let kc = chars_of(key);
    let ls = split_lines(t.as_slice());
    let ghost lv = views(ls@);
    let mut i: usize = 0;
    while i < ls.len()
        invariant
            0 <= i <= ls@.len(),
            lv == views(ls@),
            lv == lines(text@),
            kc@ == key@,
            release_from(lv, key@, 0) == release_from(lv, key@, i as int),
        decreases ls.len() - i,
    {
        match split_once_char(ls[i].as_slice(), '=') {
            Some((name, value)) => {
                if crate::text::eq_chars(name.as_slice(), kc.as_slice()) {
                    let v = trim_chars(value.as_slice(), CharSet::Only('"'));
                    return Some(string_of(v.as_slice()));
                }
            },
            None => {},
        }
        i = i + 1;
    }
    None
}

/// A line that opens a device in `lspci` output: it starts with a hex digit.
pub open spec fn starts_device(line: Seq<char>) -> bool {
    line.len() > 0 && is_ascii_hex(line[0])
}

/// The header of a graphics device.
pub open spec fn is_gpu_header(h: Seq<char>) -> bool {
    let l = lower(h);
    contains(l, "vga compatible controller"@) || contains(l, "3d controller"@) || contains(
        l,
        "display controller"@,
    )
}

/// A device's lines, added as one block when the device is a graphics device.
pub open spec fn push_gpu_block(blocks: Seq<Seq<char>>, block: Seq<Seq<char>>) -> Seq<Seq<char>> {
    let header = if block.len() > 0 {
        block[0]
    } else {
        seq![]
    };
    if is_gpu_header(header) {
        blocks.push(join(block, "\n"@))
    } else {
        blocks
    }
}

/// The graphics blocks of the devices closed so far, and the lines of the open one.
pub open spec fn lspci_fold(ls: Seq<Seq<char>>) -> (Seq<Seq<char>>, Seq<Seq<char>>)
    decreases ls.len(),
{
    if ls.len() == 0 {
        (seq![], seq![])
    } else {
        let (b, c) = lspci_fold(ls.drop_last());
        let line = ls.last();
        if starts_device(line) && c.len() > 0 {
            (push_gpu_block(b, c), seq![line])
        } else {
            (b, c.push(line))
        }
    }
}

/// The graphics devices of `lspci -nnk` output, one block each, separated by blank
/// lines (`extract_lspci_gpu_blocks`).
pub open spec fn gpu_blocks(text: Seq<char>) -> Seq<char> {
    let (b, c) = lspci_fold(lines(text));
    join(
        if c.len() > 0 {
            push_gpu_block(b, c)
        } else {
            b
        },
        "\n\n"@,
    )
}

/// Adds a device's lines as a block when it is a graphics device
/// (`maybe_push_gpu_block`).
pub fn maybe_push_gpu_block(blocks: &mut Vec<Vec<char>>, block: &Vec<Vec<char>>)
    ensures
        views(final(blocks)@) == push_gpu_block(views(old(blocks)@), views(block@)),
{
    let header: Vec<char> = if block.len() > 0 {
        copy_range(block[0].as_slice(), 0, block[0].len())
    } else {
        Vec::new()
    };
    proof {
        if block@.len() > 0 {
            assert(block@[0]@.subrange(0, block@[0]@.len() as int) =~= views(block@)[0]);
        } else {
            assert(header@ =~= Seq::<char>::empty());
        }
    }
    let l = to_lower(header.as_slice());
    let ls = l.as_slice();
    if contains_str(ls, "vga compatible controller") || contains_str(ls, "3d controller")
        || contains_str(ls, "display controller") {
        let sep = chars_of("\n");
        let joined = join_parts(block, sep.as_slice());
        let ghost before = views(blocks@);
        blocks.push(joined);
        proof {
            assert(views(blocks@) =~= before.push(joined@));
        }
    }
}

/// The graphics devices of `lspci -nnk` output (`extract_lspci_gpu_blocks`).
pub fn extract_lspci_gpu_blocks(text: &str) -> (r: String)
    ensures
        r@ == gpu_blocks(text@),
{
    let t = chars_of(text);
    let ls = split_lines(t.as_slice());
    let ghost lv = views(ls@);
    let mut blocks: Vec<Vec<char>> = Vec::new();
    let mut current: Vec<Vec<char>> = Vec::new();
    let mut i: usize = 0;
    proof {
        assert(lv.take(0) =~= Seq::<Seq<char>>::empty());
        assert(views(blocks@) =~= Seq::<Seq<char>>::empty());
        assert(views(current@) =~= Seq::<Seq<char>>::empty());
    }
    while i < ls.len()
        invariant
            0 <= i <= ls@.len(),
            lv == views(ls@),
            lv == lines(text@),
            (views(blocks@), views(current@)) == lspci_fold(lv.take(i as int)),
        decreases ls.len() - i,
    {
        let line = ls[i].as_slice();
        proof {
            assert(lv.take(i + 1).drop_last() =~= lv.take(i as int));
            assert(lv.take(i + 1).last() == line@);
        }
        let starts = line.len() > 0 && crate::text::is_hex_digit(line[0]);
        let copy = copy_range(line, 0, line.len());
        proof {
            assert(copy@ =~= line@);
        }
        if starts && current.len() > 0 {
            maybe_push_gpu_block(&mut blocks, &current);
            let mut fresh: Vec<Vec<char>> = Vec::new();
            fresh.push(copy);
            current = fresh;
            proof {
                assert(views(current@) =~= seq![line@]);
            }
        } else {
            let ghost before = views(current@);
            current.push(copy);
            proof {
                assert(views(current@) =~= before.push(line@));
            }
        }
        i = i + 1;
    }
    proof {
        assert(lv.take(lv.len() as int) =~= lv);
    }
    if current.len() > 0 {
        maybe_push_gpu_block(&mut blocks, &current);
    }
    let sep = chars_of("\n\n");
    let out = join_parts(&blocks, sep.as_slice());
    string_of(out.as_slice())
}

// ---------------------------------------------------------------------------
// Redaction and masking
// ---------------------------------------------------------------------------

/// A line with everything after a marker replaced by "[REDACTED]", ended by a newline.
pub open spec fn marked_line(line: Seq<char>, marker: Seq<char>) -> Seq<char> {
    match find(line, marker) {
        Some(p) => line.take(p + marker.len()) + "[REDACTED]\n"@,
        None => line + "\n"@,
    }
}

pub open spec fn marked_lines(ls: Seq<Seq<char>>, marker: Seq<char>) -> Seq<char>
    decreases ls.len(),
{
    if ls.len() == 0 {
        seq![]
    } else {
        marked_lines(ls.drop_last(), marker) + marked_line(ls.last(), marker)
    }
}

/// The text with what follows the marker on each line replaced, trailing newlines
/// dropped (`redact_after_marker`).
pub open spec fn after_marker_redacted(input: Seq<char>, marker: Seq<char>) -> Seq<char> {
    trim_end_set(marked_lines(lines(input), marker), CharSet::Only('\n'))
}

/// Redacts what follows a marker on each line (`redact_after_marker`).
pub fn redact_after_marker(input: &str, marker: &str) -> (r: String)
    ensures
        r@ == after_marker_redacted(input@, marker@),
{
    let t = chars_of(input);
    let m = chars_of(marker);
    let ls = split_lines(t.as_slice());
    let ghost lv = views(ls@);
    let mut out: Vec<char> = Vec::new();
    let mut i: usize = 0;
    while i < ls.len()
        invariant
            0 <= i <= ls@.len(),
            lv == views(ls@),
            lv == lines(input@),
            m@ == marker@,
            out@ == marked_lines(lv.take(i as int), marker@),
        decreases ls.len() - i,
    {
        let line = ls[i].as_slice();
        proof {
            assert(lv.take(i + 1).drop_last() =~= lv.take(i as int));
            assert(lv.take(i + 1).last() == line@);
        }
        let found = find_in(line, m.as_slice());
        match found {
            Some(p) => {
                let ll = line.len();
                assert(p + m@.len() <= ll);
                let head = copy_range(line, 0, p + m.len());
                push_all(&mut out, head.as_slice());
                push_str(&mut out, "[REDACTED]\n");
            },
            None => {
                push_all(&mut out, line);
                push_str(&mut out, "\n");
            },
        }
        proof {
            assert(out@ =~= marked_lines(lv.take(i + 1), marker@));
        }
        i = i + 1;
    }
    proof {
        assert(lv.take(lv.len() as int) =~= lv);
    }
    let r = crate::text::trim_end_chars(out.as_slice(), CharSet::Only('\n'));
    string_of(r.as_slice())
}

/// The output of a probe with the home directory, the user's name and secrets hidden
/// (`redact`; `home` and `user` are `$HOME` and `$USER`, empty when unset).
pub open spec fn redacted(text: Seq<char>, home: Seq<char>, user: Seq<char>) -> Seq<char> {
    let a = if home.len() > 0 {
        replace(text, home, "$HOME"@)
    } else {
        text
    };
    let b = if user.len() > 0 {
        replace(replace(a, "/"@ + user + "/"@, "/$USER/"@), user + "@"@, "$USER@"@)
    } else {
        a
    };
    after_marker_redacted(
        after_marker_redacted(
            after_marker_redacted(
                after_marker_redacted(
                    after_marker_redacted(after_marker_redacted(b, "TOKEN="@), "API_KEY="@),
                    "PASSWORD="@,
                ),
                "SECRET="@,
            ),
            "ACCESS_TOKEN="@,
        ),
        "AUTH="@,
    )
}

/// Hides the home directory, the user's name and secrets (`redact`).
pub fn redact(text: &str, home: &str, user: &str) -> (r: String)
    ensures
        r@ == redacted(text@, home@, user@),
{
    let t = chars_of(text);
    let h = chars_of(home);
    let u = chars_of(user);
    let a = if h.len() > 0 {
        let to = chars_of("$HOME");
        replace_all(t.as_slice(), h.as_slice(), to.as_slice())
    } else {
        t
    };
    let b = if u.len() > 0 {
        let p1 = around("/", u.as_slice(), "/");
        let to1 = chars_of("/$USER/");
        let x = replace_all(a.as_slice(), p1.as_slice(), to1.as_slice());
        let p2 = around("", u.as_slice(), "@");
        let to2 = chars_of("$USER@");
        proof {
            reveal_strlit("");
            assert(p2@ =~= u@ + "@"@);
        }
        replace_all(x.as_slice(), p2.as_slice(), to2.as_slice())
    } else {
        a
    };
    let s0 = string_of(b.as_slice());
    let s1 = redact_after_marker(s0.as_str(), "TOKEN=");
    let s2 = redact_after_marker(s1.as_str(), "API_KEY=");
    let s3 = redact_after_marker(s2.as_str(), "PASSWORD=");
    let s4 = redact_after_marker(s3.as_str(), "SECRET=");
    let s5 = redact_after_marker(s4.as_str(), "ACCESS_TOKEN=");
    redact_after_marker(s5.as_str(), "AUTH=")
}

/// The text a probe printed, clipped then redacted (what `run_command` keeps).
pub fn probe_text(raw: &str, max_chars: usize, home: &str, user: &str) -> (r: String)
    ensures
        r@ == redacted(clipped(raw@, max_chars as nat), home@, user@),
{
    let c = clip(raw, max_chars);
    redact(c.as_str(), home, user)
}

/// A token that looks like an address with a prefix length.
pub open spec fn masked_token(t: Seq<char>) -> Seq<char> {
    if contains(t, "/"@) && (contains(t, "."@) || contains(t, ":"@)) {
        "[ip/prefix]"@
    } else {
        t
    }
}

pub open spec fn masked_line(line: Seq<char>) -> Seq<char> {
    join(words(line).map_values(|t: Seq<char>| masked_token(t)), " "@)
}

/// The text with addresses and prefixes hidden, words rejoined by single spaces
/// (`mask_network_addresses`).
pub open spec fn masked(text: Seq<char>) -> Seq<char> {
    join(lines(text).map_values(|l: Seq<char>| masked_line(l)), "\n"@)
}

fn mask_line(line: &[char]) -> (r: Vec<char>)
    ensures
        r@ == masked_line(line@),
{
    let ws = split_words(line);
    let ghost wv = views(ws@);
    let mut parts: Vec<Vec<char>> = Vec::new();
    let mut i: usize = 0;
    while i < ws.len()
        invariant
            0 <= i <= ws@.len(),
            wv == views(ws@),
            wv == words(line@),
            views(parts@) == wv.take(i as int).map_values(|t: Seq<char>| masked_token(t)),
        decreases ws.len() - i,
    {
        let w = ws[i].as_slice();
        let m = if contains_str(w, "/") && (contains_str(w, ".") || contains_str(w, ":")) {
            chars_of("[ip/prefix]")
        } else {
            copy_range(w, 0, w.len())
        };
        let ghost before = views(parts@);
        parts.push(m);
        proof {
            assert(w@.subrange(0, w@.len() as int) =~= w@);
            assert(views(parts@) =~= before.push(masked_token(wv[i as int])));
            assert(wv.take(i + 1) =~= wv.take(i as int).push(wv[i as int]));
            assert(wv.take(i + 1).map_values(|t: Seq<char>| masked_token(t)) =~= wv.take(
                i as int,
            ).map_values(|t: Seq<char>| masked_token(t)).push(masked_token(wv[i as int])));
        }
        i = i + 1;
    }
    proof {
        assert(wv.take(wv.len() as int) =~= wv);
    }
    let sep = chars_of(" ");
    join_parts(&parts, sep.as_slice())
}

/// Hides addresses with prefix lengths (`mask_network_addresses`).
pub fn mask_network_addresses(text: &str) -> (r: String)
    ensures
        r@ == masked(text@),
{
    let t = chars_of(text);
    let ls = split_lines(t.as_slice());
    let ghost lv = views(ls@);
    let mut parts: Vec<Vec<char>> = Vec::new();
    let mut i: usize = 0;
    while i < ls.len()
        invariant
            0 <= i <= ls@.len(),
            lv == views(ls@),
            lv == lines(text@),
            views(parts@) == lv.take(i as int).map_values(|l: Seq<char>| masked_line(l)),
        decreases ls.len() - i,
    {
        let m = mask_line(ls[i].as_slice());
        let ghost before = views(parts@);
        parts.push(m);
        proof {
            assert(views(parts@) =~= before.push(masked_line(lv[i as int])));
            assert(lv.take(i + 1) =~= lv.take(i as int).push(lv[i as int]));
            assert(lv.take(i + 1).map_values(|l: Seq<char>| masked_line(l)) =~= lv.take(
                i as int,
            ).map_values(|l: Seq<char>| masked_line(l)).push(masked_line(lv[i as int])));
        }
        i = i + 1;
    }
    proof {
        assert(lv.take(lv.len() as int) =~= lv);
    }
    let sep = chars_of("\n");
    let out = join_parts(&parts, sep.as_slice());
    string_of(out.as_slice())
}

// ---------------------------------------------------------------------------
// Commands
// ---------------------------------------------------------------------------

pub open spec fn command_char(c: char) -> bool {
    is_ascii_alnum(c) || c == '-' || c == '_' || c == '.' || c == '+' || c == '/'
}

/// A name that is safe to look up as a command: not empty, at most 160 bytes, only
/// ASCII letters, digits and `-_.+/`.
pub open spec fn safe_command(v: Seq<char>) -> bool {
    v.len() > 0 && crate::text::utf8_len(v) <= 160 && forall|k: int|
        0 <= k < v.len() ==> command_char(#[trigger] v[k])
}

/// Whether a name is safe to look up as a command (`safe_command_name`).
pub fn safe_command_name(value: &str) -> (b: bool)
    ensures
        b == safe_command(value@),
{
    let v = chars_of(value);
    if v.len() == 0 {
        return false;
    }
    let fits = match crate::text::byte_len(v.as_slice()) {
        Some(n) => n <= 160,
        None => false,
    };
    if !fits {
        return false;
    }
    let mut k: usize = 0;
    while k < v.len()
        invariant
            0 <= k <= v@.len(),
            v@ == value@,
            forall|j: int| 0 <= j < k ==> command_char(#[trigger] v@[j]),
        decreases v.len() - k,
    {
        let c = v[k];
        if !(crate::text::is_alnum(c) || c == '-' || c == '_' || c == '.' || c == '+' || c == '/') {
            return false;
        }
        k = k + 1;
    }
    true
}

/// The value in single quotes for `sh`, each quote written as `'\''`.
pub open spec fn shell_quoted(v: Seq<char>) -> Seq<char> {
    "'"@ + replace(v, "'"@, "'\\''"@) + "'"@
}

/// Quotes a value for `sh` (`shell_escape`).
pub fn shell_escape(value: &str) -> (r: String)
    ensures
        r@ == shell_quoted(value@),
{
    let v = chars_of(value);
    let q = chars_of("'");
    let to = chars_of("'\\''");
    proof {
        reveal_strlit("'");
    }
    let body = replace_all(v.as_slice(), q.as_slice(), to.as_slice());
    let mut out: Vec<char> = Vec::new();
    push_str(&mut out, "'");
    push_all(&mut out, body.as_slice());
    push_str(&mut out, "'");
    string_of(out.as_slice())
}

/// The script that finds a command: `command -v` with the name quoted.
pub open spec fn lookup_script(command: Seq<char>) -> Seq<char> {
    "command -v "@ + shell_quoted(command)
}

/// The `sh -c` script of `command_path`.
pub fn command_lookup_script(command: &str) -> (r: String)
    ensures
        r@ == lookup_script(command@),
{
    let q = shell_escape(command);
    message("command -v ", q.as_str())
}

/// What a lookup printed, when it succeeded with a path (`command_path`).
pub open spec fn found_path(status: Option<i32>, stdout: Seq<char>) -> Option<Seq<char>> {
    if status == Some(0i32) && trim(stdout).len() > 0 {
        Some(trim(stdout))
    } else {
        None
    }
}

/// The path a lookup found (`command_path`, once `command -v` or `which` ran).
pub fn lookup_result(status: Option<i32>, stdout: &str) -> (r: Option<String>)
    ensures
        opt_string(r) == found_path(status, stdout@),
{
    let c = chars_of(stdout);
    let t = trim_ws(c.as_slice());
    if status == Some(0i32) && t.len() > 0 {
        Some(string_of(t.as_slice()))
    } else {
        None
    }
}


// ---------------------------------------------------------------------------
// Checks, findings, logs
// ---------------------------------------------------------------------------

/// The outcome of one check.
#[derive(Clone, Copy, PartialEq, Eq, Structural, Debug)]
pub enum CheckStatus {
    Passed,
    Warn,
    Error,
    Unknown,
}

/// How serious a finding is.
#[derive(Clone, Copy, PartialEq, Eq, Structural, Debug)]
pub enum Severity {
    Medium,
    High,
}

impl CheckStatus {
    /// The status's name (its `snake_case` serialisation).
    pub fn as_str(&self) -> (r: &'static str)
        ensures
            r@ == match *self {
                CheckStatus::Passed => "ok"@,
                CheckStatus::Warn => "warn"@,
                CheckStatus::Error => "error"@,
                CheckStatus::Unknown => "unknown"@,
            },
    {
        match self {
            CheckStatus::Passed => "ok",
            CheckStatus::Warn => "warn",
            CheckStatus::Error => "error",
            CheckStatus::Unknown => "unknown",
        }
    }
}

impl Severity {
    /// The severity's name (its `snake_case` serialisation).
    pub fn as_str(&self) -> (r: &'static str)
        ensures
            r@ == match *self {
                Severity::Medium => "medium"@,
                Severity::High => "high"@,
            },
    {
        match self {
            Severity::Medium => "medium",
            Severity::High => "high",
        }
    }
}

/// One check of the report.
#[derive(Debug)]
pub struct Check {
    pub id: String,
    pub status: CheckStatus,
    pub detail: String,
    pub evidence: Vec<String>,
}

/// An excerpt of a log.
#[derive(Debug)]
pub struct LogExcerpt {
    pub source: String,
    pub message: String,
}

/// Something worth telling the user.
#[derive(Debug)]
pub struct Finding {
    pub severity: Severity,
    pub title: String,
    pub evidence: String,
}

/// A check as values: id, status, detail, evidence.
pub open spec fn check_view(c: Check) -> (Seq<char>, CheckStatus, Seq<char>, Seq<Seq<char>>) {
    (c.id@, c.status, c.detail@, crate::tools::linux_game::string_views(c.evidence@))
}

pub open spec fn finding_view(f: Finding) -> (Severity, Seq<char>, Seq<char>) {
    (f.severity, f.title@, f.evidence@)
}

fn cat3(a: &str, b: &str, c: &str) -> (r: String)
    ensures
        r@ == a@ + b@ + c@,
{
    let mut out: Vec<char> = Vec::new();
    push_str(&mut out, a);
    push_str(&mut out, b);
    push_str(&mut out, c);
    string_of(out.as_slice())
}

/// The check that a command is on the `PATH` (`command_exists_check`, once the
/// lookup ran).
pub fn command_exists_check(name: &str, path: Option<String>) -> (c: Check)
    ensures
        check_view(c) == (
            "command."@ + name@ + ".exists"@,
            if path is Some {
                CheckStatus::Passed
            } else {
                CheckStatus::Unknown
            },
            if path is Some {
                name@ + " is available"@
            } else {
                name@ + " is not available"@
            },
            match opt_string(path) {
                Some(p) => seq![p],
                None => Seq::<Seq<char>>::empty(),
            },
        ),
{
    let id = cat3("command.", name, ".exists");
    let found = path.is_some();
    let detail = if found {
        cat3("", name, " is available")
    } else {
        cat3("", name, " is not available")
    };
    proof {
        reveal_strlit("");
    }
    let mut evidence: Vec<String> = Vec::new();
    match path {
        Some(p) => evidence.push(p),
        None => {},
    }
    proof {
        assert(crate::tools::linux_game::string_views(evidence@) =~= match opt_string(path) {
            Some(p) => seq![p],
            None => Seq::<Seq<char>>::empty(),
        });
    }
    Check {
        id,
        status: if found {
            CheckStatus::Passed
        } else {
            CheckStatus::Unknown
        },
        detail,
        evidence,
    }
}

/// The check that a process runs, and the ids of the processes found
/// (`process_check`, once `pgrep -af` ran; `own_pid` is the probing process's id).
pub fn process_check(name: &str, output: &ProbeOutput, own_pid: u32) -> (r: (Check, Vec<u32>))
    ensures
        ({
            let ms = process_matches(output.stdout@, name@, own_pid);
            let found = output.status == Some(0i32) && ms.len() > 0;
            &&& check_view(r.0) == (
                "process."@ + name@ + ".running"@,
                if found {
                    CheckStatus::Passed
                } else {
                    CheckStatus::Unknown
                },
                if found {
                    "process matching "@ + name@ + " is running"@
                } else {
                    "no process matching "@ + name@ + " was found"@
                },
                if found {
                    seq![clipped(join(ms, "\n"@), 1000)]
                } else {
                    Seq::<Seq<char>>::empty()
                },
            )
            &&& r.1@ == pids_in(ms)
        }),
{
    let matches = filtered_process_matches(output.stdout.as_str(), name, own_pid);
    let found = output.status == Some(0i32) && matches.len() > 0;
    let id = cat3("process.", name, ".running");
    let detail = if found {
        cat3("process matching ", name, " is running")
    } else {
        cat3("no process matching ", name, " was found")
    };
    let mut evidence: Vec<String> = Vec::new();
    if found {
        let mut parts: Vec<Vec<char>> = Vec::new();
        let mut i: usize = 0;
        while i < matches.len()
            invariant
                0 <= i <= matches@.len(),
                views(parts@) == crate::tools::linux_game::string_views(matches@).take(i as int),
            decreases matches.len() - i,
        {
            let ghost before = views(parts@);
            parts.push(chars_of(matches[i].as_str()));
            proof {
                let mv = crate::tools::linux_game::string_views(matches@);
                assert(views(parts@) =~= before.push(mv[i as int]));
                assert(mv.take(i + 1) =~= mv.take(i as int).push(mv[i as int]));
            }
            i = i + 1;
        }
        proof {
            assert(crate::tools::linux_game::string_views(matches@).take(matches@.len() as int)
                =~= crate::tools::linux_game::string_views(matches@));
        }
        let sep = chars_of("\n");
        let joined = join_parts(&parts, sep.as_slice());
        let c = clip_chars(joined.as_slice(), 1000);
        evidence.push(string_of(c.as_slice()));
    }
    proof {
        let ms = process_matches(output.stdout@, name@, own_pid);
        if found {
            assert(crate::tools::linux_game::string_views(evidence@) =~= seq![clipped(join(ms, "\n"@), 1000)]);
        } else {
            assert(crate::tools::linux_game::string_views(evidence@) =~= Seq::<Seq<char>>::empty());
        }
    }
    let pids = pids_of(matches.as_slice());
    (
        Check {
            id,
            status: if found {
                CheckStatus::Passed
            } else {
                CheckStatus::Unknown
            },
            detail,
            evidence,
        },
        pids,
    )
}

/// A check that passes when the probe exited with status 0 and warns otherwise, with
/// the probe's evidence (the version, help, `fcitx5-remote` and `codesign` probes).
pub fn status_check(id: &str, detail: &str, output: &ProbeOutput) -> (c: Check)
    ensures
        check_view(c) == (
            id@,
            if output.status == Some(0i32) {
                CheckStatus::Passed
            } else {
                CheckStatus::Warn
            },
            detail@,
            evidence_of(output.stdout@, output.stderr@, opt_string(output.error), output.timed_out),
        ),
{
    Check {
        id: lit(id),
        status: if output.status == Some(0i32) {
            CheckStatus::Passed
        } else {
            CheckStatus::Warn
        },
        detail: lit(detail),
        evidence: compact_evidence(output),
    }
}

/// The check that a package is installed (`linux_fcitx_package_checks`, per package).
pub fn package_check(package: &str, output: &ProbeOutput) -> (c: Check)
    ensures
        check_view(c) == (
            "input_method.package."@ + package@,
            if output.status == Some(0i32) {
                CheckStatus::Passed
            } else {
                CheckStatus::Warn
            },
            if output.status == Some(0i32) {
                package@ + " is installed"@
            } else {
                package@ + " is not confirmed installed"@
            },
            evidence_of(output.stdout@, output.stderr@, opt_string(output.error), output.timed_out),
        ),
{
    proof {
        reveal_strlit("");
    }
    let ok = output.status == Some(0i32);
    Check {
        id: cat3("input_method.package.", package, ""),
        status: if ok {
            CheckStatus::Passed
        } else {
            CheckStatus::Warn
        },
        detail: if ok {
            cat3("", package, " is installed")
        } else {
            cat3("", package, " is not confirmed installed")
        },
        evidence: compact_evidence(output),
    }
}

/// The check that a user service is active (`systemd_user_active_check`, once
/// `systemctl --user is-active` ran).
pub fn systemd_check(service: &str, output: &ProbeOutput) -> (c: Check)
    ensures
        check_view(c) == (
            "systemd_user."@ + service@ + ".active"@,
            if trim(output.stdout@) == "active"@ {
                CheckStatus::Passed
            } else {
                CheckStatus::Warn
            },
            service@ + " is "@ + trim(output.stdout@),
            evidence_of(output.stdout@, output.stderr@, opt_string(output.error), output.timed_out),
        ),
{
    let o = chars_of(output.stdout.as_str());
    let t = trim_ws(o.as_slice());
    let active = eq_str(t.as_slice(), "active");
    let ts = string_of(t.as_slice());
    let mut d: Vec<char> = Vec::new();
    push_str(&mut d, service);
    push_str(&mut d, " is ");
    push_str(&mut d, ts.as_str());
    Check {
        id: cat3("systemd_user.", service, ".active"),
        status: if active {
            CheckStatus::Passed
        } else {
            CheckStatus::Warn
        },
        detail: string_of(d.as_slice()),
        evidence: compact_evidence(output),
    }
}

/// The check that the app to probe is on the `PATH` (`linux_app_checks` and
/// `macos_app_checks`, once the lookup ran).
pub fn app_command_check(target: &str, path: Option<&str>) -> (c: Check)
    ensures
        check_view(c) == (
            "app.command_exists"@,
            if path is Some {
                CheckStatus::Passed
            } else {
                CheckStatus::Error
            },
            if path is Some {
                target@ + " exists in PATH"@
            } else {
                target@ + " was not found in PATH"@
            },
            match opt_view(path) {
                Some(p) => seq![p],
                None => Seq::<Seq<char>>::empty(),
            },
        ),
{
    proof {
        reveal_strlit("");
    }
    let mut evidence: Vec<String> = Vec::new();
    match path {
        Some(p) => evidence.push(lit(p)),
        None => {},
    }
    proof {
        assert(crate::tools::linux_game::string_views(evidence@) =~= match opt_view(path) {
            Some(p) => seq![p],
            None => Seq::<Seq<char>>::empty(),
        });
    }
    Check {
        id: lit("app.command_exists"),
        status: if path.is_some() {
            CheckStatus::Passed
        } else {
            CheckStatus::Error
        },
        detail: if path.is_some() {
            cat3("", target, " exists in PATH")
        } else {
            cat3("", target, " was not found in PATH")
        },
        evidence,
    }
}

/// The finding of an app that is not on the `PATH` (`linux_app_checks`).
pub fn missing_app_finding(target: &str) -> (f: Finding)
    ensures
        finding_view(f) == (
            Severity::High,
            target@ + " is not available in the current PATH"@,
            "command -v returned no path"@,
        ),
{
    proof {
        reveal_strlit("");
    }
    Finding {
        severity: Severity::High,
        title: cat3("", target, " is not available in the current PATH"),
        evidence: lit("command -v returned no path"),
    }
}

/// The finding of a `--help` probe that failed with an error message
/// (`app_probe_help`).
pub fn help_probe_finding(target: &str, output: &ProbeOutput) -> (r: Option<Finding>)
    ensures
        match r {
            Some(f) => output.status != Some(0i32) && trim(output.stderr@).len() > 0 && finding_view(f)
                == (
                Severity::High,
                target@ + " returned an error during startup probe"@,
                clipped(output.stderr@, 1000),
            ),
            None => !(output.status != Some(0i32) && trim(output.stderr@).len() > 0),
        },
{
    let e = chars_of(output.stderr.as_str());
    let t = trim_ws(e.as_slice());
    if output.status != Some(0i32) && t.len() > 0 {
        proof {
            reveal_strlit("");
        }
        Some(
            Finding {
                severity: Severity::High,
                title: cat3("", target, " returned an error during startup probe"),
                evidence: clip(output.stderr.as_str(), 1000),
            },
        )
    } else {
        None
    }
}

/// The finding when `QT_IM_MODULE` is not "fcitx" (`linux_input_method_checks`).
pub fn qt_im_finding(qt_im_module: Option<&str>) -> (r: Option<Finding>)
    ensures
        match r {
            Some(f) => opt_view(qt_im_module) != Some("fcitx"@) && finding_view(f) == (
                Severity::Medium,
                "QT_IM_MODULE is not set to fcitx in current environment"@,
                "Qt apps may not load fcitx without this variable or equivalent desktop environment setup"@,
            ),
            None => opt_view(qt_im_module) == Some("fcitx"@),
        },
{
    let is_fcitx = match qt_im_module {
        Some(v) => {
            let c = chars_of(v);
            eq_str(c.as_slice(), "fcitx")
        },
        None => false,
    };
    if is_fcitx {
        None
    } else {
        Some(
            Finding {
                severity: Severity::Medium,
                title: lit("QT_IM_MODULE is not set to fcitx in current environment"),
                evidence: lit(
                    "Qt apps may not load fcitx without this variable or equivalent desktop environment setup",
                ),
            },
        )
    }
}

/// Whether the app looks like a Node.js program, whose runtimes are then probed
/// (`node_runtime_if_relevant`).
pub open spec fn node_relevant(target: Seq<char>, path: Seq<char>) -> bool {
    let l = lower(target + " "@ + path);
    contains(l, "node"@) || contains(l, "npm"@) || contains(l, "opencode"@)
}

/// Whether the Node.js runtimes are worth probing for the app.
pub fn node_runtime_relevant(target: &str, path: &str) -> (b: bool)
    ensures
        b == node_relevant(target@, path@),
{
    let s = cat3(target, " ", path);
    let c = chars_of(s.as_str());
    let l = to_lower(c.as_slice());
    contains_str(l.as_slice(), "node") || contains_str(l.as_slice(), "npm") || contains_str(
        l.as_slice(),
        "opencode",
    )
}

/// The `--since` argument of `journalctl`: "-{minutes}min".
pub fn journal_since(minutes: u64) -> (r: String)
    ensures
        r@ == "-"@ + decimal(minutes as nat) + "min"@,
{
    let d = decimal_chars(minutes);
    let mut out: Vec<char> = Vec::new();
    push_str(&mut out, "-");
    push_all(&mut out, d.as_slice());
    push_str(&mut out, "min");
    string_of(out.as_slice())
}

/// The `--last` argument of `log show`: "{minutes}m".
pub fn log_last(minutes: u64) -> (r: String)
    ensures
        r@ == decimal(minutes as nat) + "m"@,
{
    let d = decimal_chars(minutes);
    let mut out: Vec<char> = Vec::new();
    push_all(&mut out, d.as_slice());
    push_str(&mut out, "m");
    string_of(out.as_slice())
}

/// One clause of a `log show` predicate, the keyword's quotes dropped.
pub open spec fn predicate_clause(k: Seq<char>) -> Seq<char> {
    "eventMessage CONTAINS[c] '"@ + replace(k, "'"@, seq![]) + "'"@
}

/// The `log show` predicate of `macos_recent_logs`: the clauses joined by " OR ".
pub open spec fn log_predicate_text(keywords: Seq<Seq<char>>) -> Seq<char> {
    join(keywords.map_values(|k: Seq<char>| predicate_clause(k)), " OR "@)
}

/// Builds the `log show` predicate for some keywords.
pub fn log_predicate(keywords: &[&str]) -> (r: String)
    ensures
        r@ == log_predicate_text(str_views(keywords@)),
{
    let ghost kv = str_views(keywords@);
    let mut parts: Vec<Vec<char>> = Vec::new();
    let mut i: usize = 0;
    let q = chars_of("'");
    let empty: Vec<char> = Vec::new();
    proof {
        reveal_strlit("'");
    }
    while i < keywords.len()
        invariant
            0 <= i <= keywords@.len(),
            kv == str_views(keywords@),
            q@ == "'"@,
            q@.len() > 0,
            empty@ == Seq::<char>::empty(),
            views(parts@) == kv.take(i as int).map_values(|k: Seq<char>| predicate_clause(k)),
        decreases keywords.len() - i,
    {
        let k = chars_of(keywords[i]);
        let stripped = replace_all(k.as_slice(), q.as_slice(), empty.as_slice());
        let mut clause: Vec<char> = Vec::new();
        push_str(&mut clause, "eventMessage CONTAINS[c] '");
        push_all(&mut clause, stripped.as_slice());
        push_str(&mut clause, "'");
        let ghost before = views(parts@);
        parts.push(clause);
        proof {
            assert(kv[i as int] == k@);
            assert(views(parts@) =~= before.push(predicate_clause(kv[i as int])));
            assert(kv.take(i + 1) =~= kv.take(i as int).push(kv[i as int]));
            assert(kv.take(i + 1).map_values(|k: Seq<char>| predicate_clause(k)) =~= kv.take(
                i as int,
            ).map_values(|k: Seq<char>| predicate_clause(k)).push(predicate_clause(kv[i as int])));
        }
        i = i + 1;
    }
    proof {
        assert(kv.take(kv.len() as int) =~= kv);
    }
    let sep = chars_of(" OR ");
    let out = join_parts(&parts, sep.as_slice());
    string_of(out.as_slice())
}

/// A log line that mentions a keyword, in any ASCII case.
pub open spec fn mentions_keyword(line: Seq<char>, keywords: Seq<Seq<char>>) -> bool {
    exists|i: int| 0 <= i < keywords.len() && contains(lower(line), lower(#[trigger] keywords[i]))
}

pub open spec fn log_matches(ls: Seq<Seq<char>>, keywords: Seq<Seq<char>>) -> Seq<Seq<char>>
    decreases ls.len(),
{
    if ls.len() == 0 {
        seq![]
    } else if mentions_keyword(ls.last(), keywords) {
        log_matches(ls.drop_last(), keywords).push(ls.last())
    } else {
        log_matches(ls.drop_last(), keywords)
    }
}

/// At most the first 20.
pub open spec fn first20(s: Seq<Seq<char>>) -> Seq<Seq<char>> {
    if s.len() > 20 {
        s.take(20)
    } else {
        s
    }
}

/// The excerpt of a log: its first 20 lines that mention a keyword, joined and
/// clipped to 4000 characters; none when no line does (`push_filtered_log`).
pub open spec fn log_excerpt_of(source: Seq<char>, text: Seq<char>, keywords: Seq<Seq<char>>) -> Option<
    (Seq<char>, Seq<char>),
> {
    let sel = first20(log_matches(lines(text), keywords));
    if sel.len() == 0 {
        None
    } else {
        Some((source, clipped(join(sel, "\n"@), 4000)))
    }
}

fn mentions(line: &[char], keywords: &[&str]) -> (b: bool)
    ensures
        b == mentions_keyword(line@, str_views(keywords@)),
{
    let l = to_lower(line);
    let mut i: usize = 0;
    while i < keywords.len()
        invariant
            0 <= i <= keywords@.len(),
            l@ == lower(line@),
            forall|k: int| 0 <= k < i ==> !contains(lower(line@), lower(#[trigger] str_views(keywords@)[k])),
        decreases keywords.len() - i,
    {
        let kc = chars_of(keywords[i]);
        let kl = to_lower(kc.as_slice());
        if crate::text::contains_seq(l.as_slice(), kl.as_slice()) {
            proof {
                assert(str_views(keywords@)[i as int] == kc@);
            }
            return true;
        }
        proof {
            assert(str_views(keywords@)[i as int] == kc@);
        }
        i = i + 1;
    }
    false
}

/// The excerpt of a log that mentions the keywords (`push_filtered_log`, without
/// the report it goes into).
pub fn filtered_log(source: &str, text: &str, keywords: &[&str]) -> (r: Option<LogExcerpt>)
    ensures
        match r {
            Some(l) => log_excerpt_of(source@, text@, str_views(keywords@)) == Some((l.source@, l.message@)),
            None => log_excerpt_of(source@, text@, str_views(keywords@)) is None,
        },
{
    let t = chars_of(text);
    let ls = split_lines(t.as_slice());
    let ghost lv = views(ls@);
    let ghost kv = str_views(keywords@);
    let mut sel: Vec<Vec<char>> = Vec::new();
    let mut i: usize = 0;
    while i < ls.len()
        invariant
            0 <= i <= ls@.len(),
            lv == views(ls@),
            lv == lines(text@),
            kv == str_views(keywords@),
            views(sel@) == first20(log_matches(lv.take(i as int), kv)),
        decreases ls.len() - i,
    {
        let line = ls[i].as_slice();
        proof {
            assert(lv.take(i + 1).drop_last() =~= lv.take(i as int));
            assert(lv.take(i + 1).last() == line@);
        }
        if mentions(line, keywords) && sel.len() < 20 {
            let ghost before = views(sel@);
            sel.push(copy_range(line, 0, line.len()));
            proof {
                assert(line@.subrange(0, line@.len() as int) =~= line@);
                assert(views(sel@) =~= before.push(line@));
                let m = log_matches(lv.take(i as int), kv);
                assert(first20(m.push(line@)) =~= first20(m).push(line@));
            }
        } else {
            proof {
                let m = log_matches(lv.take(i as int), kv);
                if mentions_keyword(line@, kv) {
                    assert(first20(m.push(line@)) =~= first20(m));
                }
            }
        }
        i = i + 1;
    }
    proof {
        assert(lv.take(lv.len() as int) =~= lv);
    }
    if sel.len() == 0 {
        return None;
    }
    let sep = chars_of("\n");
    let joined = join_parts(&sel, sep.as_slice());
    let c = clip_chars(joined.as_slice(), 4000);
    Some(LogExcerpt { source: lit(source), message: string_of(c.as_slice()) })
}

/// The number of checks with a status.
pub open spec fn count_status(ss: Seq<CheckStatus>, st: CheckStatus) -> nat
    decreases ss.len(),
{
    if ss.len() == 0 {
        0
    } else {
        count_status(ss.drop_last(), st) + if ss.last() == st {
            1nat
        } else {
            0nat
        }
    }
}

pub open spec fn statuses(cs: Seq<Check>) -> Seq<CheckStatus> {
    cs.map_values(|c: Check| c.status)
}

/// The report's summary: the one already written, else one that counts the error
/// and warning checks (`finalize_summary`).
pub open spec fn summary_text(summary: Seq<char>, ss: Seq<CheckStatus>) -> Seq<char> {
    let errors = count_status(ss, CheckStatus::Error);
    let warnings = count_status(ss, CheckStatus::Warn);
    if summary.len() > 0 {
        summary
    } else if errors > 0 {
        "context collection completed with "@ + decimal(errors) + " error check(s) and "@ + decimal(
            warnings,
        ) + " warning check(s)"@
    } else if warnings > 0 {
        "context collection completed with "@ + decimal(warnings) + " warning check(s)"@
    } else {
        "context collection completed without obvious errors in the selected probes"@
    }
}

/// Writes the report's summary (`finalize_summary`).
pub fn finalize_summary(summary: &str, checks: &[Check]) -> (r: String)
    ensures
        r@ == summary_text(summary@, statuses(checks@)),
{
    let s = chars_of(summary);
    if s.len() > 0 {
        return string_of(s.as_slice());
    }
    let ghost ss = statuses(checks@);
    let mut errors: usize = 0;
    let mut warnings: usize = 0;
    let mut i: usize = 0;
    while i < checks.len()
        invariant
            0 <= i <= checks@.len(),
            ss == statuses(checks@),
            errors == count_status(ss.take(i as int), CheckStatus::Error),
            warnings == count_status(ss.take(i as int), CheckStatus::Warn),
            errors <= i,
            warnings <= i,
        decreases checks.len() - i,
    {
        proof {
            assert(ss.take(i + 1).drop_last() =~= ss.take(i as int));
            assert(ss.take(i + 1).last() == checks@[i as int].status);
        }
        match checks[i].status {
            CheckStatus::Error => {
                errors = errors + 1;
            },
            CheckStatus::Warn => {
                warnings = warnings + 1;
            },
            _ => {},
        }
        i = i + 1;
    }
    proof {
        assert(ss.take(ss.len() as int) =~= ss);
    }
    let mut out: Vec<char> = Vec::new();
    if errors > 0 {
        push_str(&mut out, "context collection completed with ");
        let e = decimal_chars(errors as u64);
        push_all(&mut out, e.as_slice());
        push_str(&mut out, " error check(s) and ");
        let w = decimal_chars(warnings as u64);
        push_all(&mut out, w.as_slice());
        push_str(&mut out, " warning check(s)");
    } else if warnings > 0 {
        push_str(&mut out, "context collection completed with ");
        let w = decimal_chars(warnings as u64);
        push_all(&mut out, w.as_slice());
        push_str(&mut out, " warning check(s)");
    } else {
        push_str(&mut out, "context collection completed without obvious errors in the selected probes");
    }
    string_of(out.as_slice())
}


// ---------------------------------------------------------------------------
// An app's input method environment
// ---------------------------------------------------------------------------

/// The environment variables that decide how an app talks to the input method, in
/// the order of their names.
pub open spec fn env_keys() -> Seq<Seq<char>> {
    seq![
        "DISPLAY"@,
        "GLFW_IM_MODULE"@,
        "GTK_IM_MODULE"@,
        "QT_IM_MODULE"@,
        "SDL_IM_MODULE"@,
        "WAYLAND_DISPLAY"@,
        "XDG_SESSION_TYPE"@,
        "XMODIFIERS"@,
    ]
}

/// The value of the last `key=value` entry with the key.
pub open spec fn last_value(entries: Seq<Seq<char>>, key: Seq<char>) -> Option<Seq<char>>
    decreases entries.len(),
{
    if entries.len() == 0 {
        None
    } else {
        match split_once(entries.last(), '=') {
            Some((k, v)) => if k == key {
                Some(v)
            } else {
                last_value(entries.drop_last(), key)
            },
            None => last_value(entries.drop_last(), key),
        }
    }
}

/// The keys present among the entries, each with its last value, redacted, in the
/// order of the keys (the map that `linux_app_input_env` reports).
pub open spec fn picked_env(
    entries: Seq<Seq<char>>,
    keys: Seq<Seq<char>>,
    home: Seq<char>,
    user: Seq<char>,
) -> Seq<(Seq<char>, Seq<char>)>
    decreases keys.len(),
{
    if keys.len() == 0 {
        seq![]
    } else {
        let rest = picked_env(entries, keys.drop_last(), home, user);
        match last_value(entries, keys.last()) {
            Some(v) => rest.push((keys.last(), redacted(v, home, user))),
            None => rest,
        }
    }
}

pub open spec fn pair_views(v: Seq<(String, String)>) -> Seq<(Seq<char>, Seq<char>)> {
    v.map_values(|p: (String, String)| (p.0@, p.1@))
}

fn last_value_of(entries: &[String], key: &str) -> (r: Option<String>)
    ensures
        opt_string(r) == last_value(crate::tools::linux_game::string_views(entries@), key@),
{
    let ghost ev = crate::tools::linux_game::string_views(entries@);
    let kc = chars_of(key);
    let mut j: usize = entries.len();
    proof {
        assert(ev.take(j as int) =~= ev);
    }
    while j > 0
        invariant
            j <= entries@.len(),
            ev == crate::tools::linux_game::string_views(entries@),
            kc@ == key@,
            last_value(ev, key@) == last_value(ev.take(j as int), key@),
        decreases j,
    {
        let e = chars_of(entries[j - 1].as_str());
        proof {
            assert(ev.take(j as int).last() == e@);
            assert(ev.take(j as int).drop_last() =~= ev.take(j - 1));
        }
        match split_once_char(e.as_slice(), '=') {
            Some((k, v)) => {
                if crate::text::eq_chars(k.as_slice(), kc.as_slice()) {
                    return Some(string_of(v.as_slice()));
                }
            },
            None => {},
        }
        j = j - 1;
    }
    None
}

/// Picks the input method variables out of an app's environment, redacted
/// (`linux_app_input_env`, once `/proc/{pid}/environ` has been read and split).
pub fn pick_input_env(entries: &[String], home: &str, user: &str) -> (r: Vec<(String, String)>)
    ensures
        pair_views(r@) == picked_env(
            crate::tools::linux_game::string_views(entries@),
            env_keys(),
            home@,
            user@,
        ),
{
    let keys: [&str; 8] = [
        "DISPLAY",
        "GLFW_IM_MODULE",
        "GTK_IM_MODULE",
        "QT_IM_MODULE",
        "SDL_IM_MODULE",
        "WAYLAND_DISPLAY",
        "XDG_SESSION_TYPE",
        "XMODIFIERS",
    ];
    let ghost kv = str_views(keys@);
    let ghost ev = crate::tools::linux_game::string_views(entries@);
    proof {
        assert(kv =~= env_keys());
    }
    let mut r: Vec<(String, String)> = Vec::new();
    let mut i: usize = 0;
    while i < 8
        invariant
            0 <= i <= 8,
            kv == str_views(keys@),
            kv == env_keys(),
            ev == crate::tools::linux_game::string_views(entries@),
            pair_views(r@) == picked_env(ev, kv.take(i as int), home@, user@),
        decreases 8 - i,
    {
        let key = keys[i];
        proof {
            assert(kv.take(i + 1).drop_last() =~= kv.take(i as int));
            assert(kv.take(i + 1).last() == key@);
        }
        match last_value_of(entries, key) {
            Some(v) => {
                let rv = redact(v.as_str(), home, user);
                let ghost before = pair_views(r@);
                r.push((lit(key), rv));
                proof {
                    assert(pair_views(r@) =~= before.push((key@, redacted(v@, home@, user@))));
                }
            },
            None => {},
        }
        i = i + 1;
    }
    proof {
        assert(kv.take(8) =~= kv);
    }
    r
}

/// Whether the app's Qt input module is fcitx.
pub open spec fn qt_is_fcitx(picked: Seq<(Seq<char>, Seq<char>)>) -> bool {
    exists|i: int| 0 <= i < picked.len() && #[trigger] picked[i] == ("QT_IM_MODULE"@, "fcitx"@)
}

/// "… for {target} pid {pid}".
pub open spec fn for_target_pid(target: Seq<char>, pid: u32) -> Seq<char> {
    " for "@ + target + " pid "@ + decimal(pid as nat)
}

fn for_target(prefix: &str, target: &str, pid: u32) -> (r: String)
    ensures
        r@ == prefix@ + for_target_pid(target@, pid),
{
    let d = decimal_chars(pid as u64);
    let mut out: Vec<char> = Vec::new();
    push_str(&mut out, prefix);
    push_str(&mut out, " for ");
    push_str(&mut out, target);
    push_str(&mut out, " pid ");
    push_all(&mut out, d.as_slice());
    proof {
        assert(out@ =~= prefix@ + for_target_pid(target@, pid));
    }
    string_of(out.as_slice())
}

/// The path of a process's environment.
pub fn environ_path(pid: u32) -> (r: String)
    ensures
        r@ == "/proc/"@ + decimal(pid as nat) + "/environ"@,
{
    let d = decimal_chars(pid as u64);
    let mut out: Vec<char> = Vec::new();
    push_str(&mut out, "/proc/");
    push_all(&mut out, d.as_slice());
    push_str(&mut out, "/environ");
    string_of(out.as_slice())
}

/// The check when an app's environment could not be read.
pub fn unreadable_env_check(target: &str, pid: u32) -> (c: Check)
    ensures
        check_view(c) == (
            "input_method.app_env"@,
            CheckStatus::Unknown,
            "could not read environment"@ + for_target_pid(target@, pid),
            Seq::<Seq<char>>::empty(),
        ),
{
    let c = Check {
        id: lit("input_method.app_env"),
        status: CheckStatus::Unknown,
        detail: for_target("could not read environment", target, pid),
        evidence: Vec::new(),
    };
    proof {
        assert(crate::tools::linux_game::string_views(c.evidence@) =~= Seq::<Seq<char>>::empty());
    }
    c
}

/// The check of an app's Qt input module.
pub fn input_env_check(target: &str, pid: u32, picked: &[(String, String)]) -> (c: Check)
    ensures
        check_view(c) == (
            "input_method.app_env_qt_im_module"@,
            if qt_is_fcitx(pair_views(picked@)) {
                CheckStatus::Passed
            } else {
                CheckStatus::Warn
            },
            "checked input method environment"@ + for_target_pid(target@, pid),
            seq![
                if qt_is_fcitx(pair_views(picked@)) {
                    "QT_IM_MODULE=fcitx"@
                } else {
                    "QT_IM_MODULE=missing-or-different"@
                },
            ],
        ),
{
    let ghost pv = pair_views(picked@);
    let mut ok = false;
    let mut i: usize = 0;
    while i < picked.len()
        invariant
            0 <= i <= picked@.len(),
            pv == pair_views(picked@),
            ok == exists|k: int| 0 <= k < i && #[trigger] pv[k] == ("QT_IM_MODULE"@, "fcitx"@),
        decreases picked.len() - i,
    {
        let kc = chars_of(picked[i].0.as_str());
        let vc = chars_of(picked[i].1.as_str());
        proof {
            assert(pv[i as int] == (picked@[i as int].0@, picked@[i as int].1@));
        }
        if eq_str(kc.as_slice(), "QT_IM_MODULE") && eq_str(vc.as_slice(), "fcitx") {
            ok = true;
        }
        i = i + 1;
    }
    let mut evidence: Vec<String> = Vec::new();
    if ok {
        evidence.push(lit("QT_IM_MODULE=fcitx"));
    } else {
        evidence.push(lit("QT_IM_MODULE=missing-or-different"));
    }
    let c = Check {
        id: lit("input_method.app_env_qt_im_module"),
        status: if ok {
            CheckStatus::Passed
        } else {
            CheckStatus::Warn
        },
        detail: for_target("checked input method environment", target, pid),
        evidence,
    };
    proof {
        assert(crate::tools::linux_game::string_views(c.evidence@) =~= seq![
            if qt_is_fcitx(pv) {
                "QT_IM_MODULE=fcitx"@
            } else {
                "QT_IM_MODULE=missing-or-different"@
            },
        ]);
    }
    c
}

/// The check of a platform that diagnostics does not support (`os` is
/// `std::env::consts::OS`).
pub fn unsupported_platform_check(os: &str) -> (c: Check)
    ensures
        check_view(c) == (
            "platform.supported"@,
            CheckStatus::Error,
            "only linux and macos are supported by diagnostics"@,
            seq![os@],
        ),
{
    let mut evidence: Vec<String> = Vec::new();
    evidence.push(lit(os));
    let c = Check {
        id: lit("platform.supported"),
        status: CheckStatus::Error,
        detail: lit("only linux and macos are supported by diagnostics"),
        evidence,
    };
    proof {
        assert(crate::tools::linux_game::string_views(c.evidence@) =~= seq![os@]);
    }
    c
}

/// What the report tells the model to do with it.
pub const OUTPUT_INSTRUCTION: &'static str = "Treat this as local issue context only, not a diagnosis. Before the final answer, combine it with relevant knowledge_base or memory results when available; use web_search/web_fetch only for current or external facts. Final answer should explain root cause, evidence, and next steps in user-facing language instead of dumping raw JSON.";


/// The `inspect_issue` tool, as `register` adds it.
pub open spec fn inspect_issue_tool() -> crate::tools::registry::ToolView {
    crate::tools::registry::ToolView {
        name: "inspect_issue"@,
        display_name: None,
        description: "Collect read-only local facts for a reported computer issue. Covers app startup, input method, display or screen sharing, audio, package updates, GPU or driver, network, storage, and general system context. This only gathers evidence; it does not diagnose or produce final advice. After using it, combine the result with knowledge base, memory, and web search/fetch when needed. It does not modify the system."@,
        parameters: "{\"type\":\"object\",\"properties\":{\"query\":{\"type\":\"string\",\"description\":\"Optional original user request. Used only as fallback when mode is auto or omitted.\"},\"mode\":{\"type\":\"string\",\"enum\":[\"auto\",\"system\",\"app\",\"input_method\",\"display\",\"audio\",\"package_update\",\"gpu\",\"network\",\"storage\"],\"description\":\"Probe mode. Use auto only when passing query and no structured mode is obvious.\"},\"target\":{\"type\":\"string\",\"description\":\"Optional target app, process, command, or subsystem, for example qq or opencode.\"},\"symptom\":{\"type\":\"string\",\"description\":\"Optional symptom such as cannot_start, app_cannot_input_chinese, no_audio, screen_share_failed.\"},\"depth\":{\"type\":\"string\",\"enum\":[\"quick\",\"normal\",\"full\"],\"description\":\"Probe depth. Start with quick or normal; full may run slower probes.\"},\"recent_minutes\":{\"type\":\"integer\",\"description\":\"Recent log window in minutes, clamped to 1..1440.\"},\"platform\":{\"type\":\"string\",\"enum\":[\"auto\",\"linux\",\"macos\"],\"description\":\"Platform override. Prefer auto.\"}},\"required\":[],\"additionalProperties\":false}"@,
        permission: crate::tools::registry::ToolPermission::ReadOnly,
        is_script: false,
        always_loaded: true,
        run: None,
    }
}

/// Adds the `inspect_issue` tool to the registry (`register`); running it, with the
/// configuration it needs, is the application's part.
pub fn register(registry: &mut crate::tools::registry::ToolRegistry)
    ensures
        final(registry)@ == crate::tools::registry::register_view(old(registry)@, inspect_issue_tool()),
        final(registry).unregistered_view() == old(registry).unregistered_view(),
{
    let spec = crate::tools::registry::ToolSpec::new(
        crate::text::string_of(crate::text::chars_of("inspect_issue").as_slice()),
        crate::text::string_of(crate::text::chars_of("Collect read-only local facts for a reported computer issue. Covers app startup, input method, display or screen sharing, audio, package updates, GPU or driver, network, storage, and general system context. This only gathers evidence; it does not diagnose or produce final advice. After using it, combine the result with knowledge base, memory, and web search/fetch when needed. It does not modify the system.").as_slice()),
        crate::text::string_of(crate::text::chars_of("{\"type\":\"object\",\"properties\":{\"query\":{\"type\":\"string\",\"description\":\"Optional original user request. Used only as fallback when mode is auto or omitted.\"},\"mode\":{\"type\":\"string\",\"enum\":[\"auto\",\"system\",\"app\",\"input_method\",\"display\",\"audio\",\"package_update\",\"gpu\",\"network\",\"storage\"],\"description\":\"Probe mode. Use auto only when passing query and no structured mode is obvious.\"},\"target\":{\"type\":\"string\",\"description\":\"Optional target app, process, command, or subsystem, for example qq or opencode.\"},\"symptom\":{\"type\":\"string\",\"description\":\"Optional symptom such as cannot_start, app_cannot_input_chinese, no_audio, screen_share_failed.\"},\"depth\":{\"type\":\"string\",\"enum\":[\"quick\",\"normal\",\"full\"],\"description\":\"Probe depth. Start with quick or normal; full may run slower probes.\"},\"recent_minutes\":{\"type\":\"integer\",\"description\":\"Recent log window in minutes, clamped to 1..1440.\"},\"platform\":{\"type\":\"string\",\"enum\":[\"auto\",\"linux\",\"macos\"],\"description\":\"Platform override. Prefer auto.\"}},\"required\":[],\"additionalProperties\":false}").as_slice()),
    );
    registry.register(spec);
}


/// The lines are in order of descending score.
pub open spec fn best_first(s: Seq<Seq<char>>, name: Seq<char>) -> bool {
    forall|i: int, j: int| 0 <= i < j < s.len() ==> match_score(#[trigger] s[i], name) >= match_score(
        #[trigger] s[j],
        name,
    )
}

proof fn lemma_insert_best_first(s: Seq<Seq<char>>, x: Seq<char>, name: Seq<char>)
    requires
        best_first(s, name),
    ensures
        best_first(insert_by_score(s, x, name), name),
        insert_by_score(s, x, name).len() == s.len() + 1,
        forall|k: int| 0 <= k < insert_by_score(s, x, name).len() ==> #[trigger] insert_by_score(s, x, name)[k] == x
            || s.contains(insert_by_score(s, x, name)[k]),
    decreases s.len(),
{
    let r = insert_by_score(s, x, name);
    if s.len() == 0 {
    } else if match_score(s[0], name) < match_score(x, name) {
        assert forall|k: int| 0 <= k < r.len() implies #[trigger] r[k] == x || s.contains(r[k]) by {
            if k > 0 {
                assert(r[k] == s[k - 1]);
            }
        }
        assert forall|i: int, j: int| 0 <= i < j < r.len() implies match_score(#[trigger] r[i], name)
            >= match_score(#[trigger] r[j], name) by {
            if i == 0 {
                assert(r[j] == s[j - 1]);
                assert(match_score(s[0], name) >= match_score(s[j - 1], name) || j - 1 == 0);
            } else {
                assert(r[i] == s[i - 1]);
                assert(r[j] == s[j - 1]);
            }
        }
    } else {
        let t = s.drop_first();
        assert forall|i: int, j: int| 0 <= i < j < t.len() implies match_score(#[trigger] t[i], name)
            >= match_score(#[trigger] t[j], name) by {
            assert(t[i] == s[i + 1]);
            assert(t[j] == s[j + 1]);
        }
        lemma_insert_best_first(t, x, name);
        let rt = insert_by_score(t, x, name);
        assert(r == seq![s[0]] + rt);
        assert forall|k: int| 0 <= k < r.len() implies #[trigger] r[k] == x || s.contains(r[k]) by {
            if k == 0 {
                assert(s[0] == r[0]);
            } else {
                assert(r[k] == rt[k - 1]);
                if rt[k - 1] != x {
                    let w = choose|m: int| 0 <= m < t.len() && t[m] == rt[k - 1];
                    assert(s[w + 1] == r[k]);
                }
            }
        }
        assert forall|i: int, j: int| 0 <= i < j < r.len() implies match_score(#[trigger] r[i], name)
            >= match_score(#[trigger] r[j], name) by {
            if i == 0 {
                assert(r[j] == rt[j - 1]);
                if rt[j - 1] != x {
                    let w = choose|m: int| 0 <= m < t.len() && t[m] == rt[j - 1];
                    assert(t[w] == s[w + 1]);
                }
            } else {
                assert(r[i] == rt[i - 1]);
                assert(r[j] == rt[j - 1]);
            }
        }
    }
}

proof fn lemma_sorted_best_first(s: Seq<Seq<char>>, name: Seq<char>)
    ensures
        best_first(sorted_by_score(s, name), name),
        sorted_by_score(s, name).len() == s.len(),
    decreases s.len(),
{
    if s.len() > 0 {
        lemma_sorted_best_first(s.drop_last(), name);
        lemma_insert_best_first(sorted_by_score(s.drop_last(), name), s.last(), name);
    }
}

/// The process lines come best match first: no line scores higher than one before
/// it.
pub proof fn law_matches_best_first(output: Seq<char>, name: Seq<char>, own_pid: u32)
    ensures
        best_first(process_matches(output, name, own_pid), name),
{
    lemma_sorted_best_first(kept_lines(lines(output), name, own_pid), name);
}


/// How a line scores, by class: a program run by path (`/name ` or a trailing `/name`)
/// counts 100 and a word match (` name ` or a trailing ` name`) 50; a sandboxed
/// renderer or zygote loses 30, a helper or clipboard-sync process 20, an AppImage
/// mount 10, never going below zero. Names and lines are compared in lowercase.
pub proof fn law_score_classes(line: Seq<char>, name: Seq<char>)
    ensures
        ({
            let l = lower(line);
            let n = lower(name);
            let path = ends_with(l, "/"@ + n) || contains(l, "/"@ + n + " "@);
            let word = ends_with(l, " "@ + n) || contains(l, " "@ + n + " "@);
            let sandbox = contains(l, "--type=renderer"@) || contains(l, "--type=zygote"@);
            let helper = contains(l, "helper"@) || contains(l, "clipsync"@);
            let mount = contains(l, "/tmp/.mount_"@);
            &&& (path && !word && !sandbox && !helper && !mount) ==> match_score(line, name) == 100
            &&& (path && !word && sandbox && !helper && !mount) ==> match_score(line, name) == 70
            &&& (path && word && sandbox && !helper && !mount) ==> match_score(line, name) == 120
            &&& (!path && word && sandbox && !helper && !mount) ==> match_score(line, name) == 20
            &&& (!path && word && !sandbox && helper && !mount) ==> match_score(line, name) == 30
            &&& (path && !word && !sandbox && !helper && mount) ==> match_score(line, name) == 90
            &&& (!path && !word) ==> match_score(line, name) == 0
            &&& match_score(line, name) <= 150
            &&& sandbox ==> match_score(line, name) <= 120
        }),
{
}

/// The first needle from `i` on that the text holds gives the target.
proof fn lemma_target_first(text: Seq<char>, pairs: Seq<(Seq<char>, Seq<char>)>, i: int, k: int)
    requires
        0 <= i <= k < pairs.len(),
        contains(lower(text), pairs[k].0) || contains(text, pairs[k].0),
        forall|j: int|
            i <= j < k ==> !(contains(lower(text), pairs[j].0) || contains(text, pairs[j].0)),
    ensures
        target_from(text, pairs, i) == Some(pairs[k].1),
    decreases k - i,
{
    if i < k {
        lemma_target_first(text, pairs, i + 1, k);
    }
}

/// Where no needle from `i` on occurs, no target is found.
proof fn lemma_target_none(text: Seq<char>, pairs: Seq<(Seq<char>, Seq<char>)>, i: int)
    requires
        0 <= i,
        forall|j: int|
            i <= j < pairs.len() ==> !(contains(lower(text), pairs[j].0) || contains(
                text,
                pairs[j].0,
            )),
    ensures
        target_from(text, pairs, i) is None,
    decreases pairs.len() - i,
{
    if i < pairs.len() {
        lemma_target_none(text, pairs, i + 1);
    }
}

/// The app that a request names: the needles below are tried in this order, each in
/// the words as written and in their lowercase form, and the first that occurs gives
/// the app beside it ("open code" stands for opencode, "linuxqq" for qq, 微信 for
/// wechat, "vscode" for code); where none occurs, no app is named.
pub proof fn law_target_table(text: Seq<char>)
    ensures
        ({
            let needles = seq![
                "opencode"@, "open code"@, "linuxqq"@, "qq"@, "微信"@, "wechat"@, "steam"@,
                "firefox"@, "chrome"@, "chromium"@, "wps"@, "vscode"@, "code"@,
            ];
            let apps = seq![
                "opencode"@, "opencode"@, "qq"@, "qq"@, "wechat"@, "wechat"@, "steam"@,
                "firefox"@, "chrome"@, "chromium"@, "wps"@, "code"@, "code"@,
            ];
            &&& forall|k: int|
                #![trigger needles[k]]
                0 <= k < needles.len() && (contains(lower(text), needles[k]) || contains(
                    text,
                    needles[k],
                )) && (forall|j: int|
                    0 <= j < k ==> !(contains(lower(text), needles[j]) || contains(
                        text,
                        needles[j],
                    ))) ==> inferred_target(text) == Some(apps[k])
            &&& (forall|j: int|
                0 <= j < needles.len() ==> !(contains(lower(text), needles[j]) || contains(
                    text,
                    needles[j],
                ))) ==> inferred_target(text) is None
        }),
{
    let needles = seq![
        "opencode"@, "open code"@, "linuxqq"@, "qq"@, "微信"@, "wechat"@, "steam"@,
        "firefox"@, "chrome"@, "chromium"@, "wps"@, "vscode"@, "code"@,
    ];
    let apps = seq![
        "opencode"@, "opencode"@, "qq"@, "qq"@, "wechat"@, "wechat"@, "steam"@,
        "firefox"@, "chrome"@, "chromium"@, "wps"@, "code"@, "code"@,
    ];
    let table = Seq::new(13, |k: int| (needles[k], apps[k]));
    assert(target_pairs() =~= table);
    assert forall|k: int|
        #![trigger needles[k]]
        0 <= k < needles.len() && (contains(lower(text), needles[k]) || contains(
            text,
            needles[k],
        )) && (forall|j: int|
            0 <= j < k ==> !(contains(lower(text), needles[j]) || contains(
                text,
                needles[j],
            ))) implies inferred_target(text) == Some(apps[k]) by {
        assert forall|j: int| 0 <= j < k implies !(contains(lower(text), table[j].0) || contains(
            text,
            table[j].0,
        )) by {
            assert(table[j].0 == needles[j]);
        }
        lemma_target_first(text, table, 0, k);
    }
    if forall|j: int|
        0 <= j < needles.len() ==> !(contains(lower(text), needles[j]) || contains(
            text,
            needles[j],
        )) {
        assert forall|j: int| 0 <= j < table.len() implies !(contains(lower(text), table[j].0)
            || contains(text, table[j].0)) by {
            assert(table[j].0 == needles[j]);
        }
        lemma_target_none(text, table, 0);
    }
}

/// The mode that a request's words point to, by its keywords, tried in this order:
/// input method, audio, display, package update, GPU, network, storage, then an app
/// (a named target, or words of a failing start), and the whole system for any other
/// words. Each group has words matched as written and
/// words matched in the lowercase form. An app that fails to start is its symptom.
pub proof fn law_mode_keywords(text: Seq<char>, has_target: bool)
    ensures
        ({
            let l = lower(text);
            let r = inferred_mode(text, has_target);
            let im = any_of(
                text,
                seq!["输入法"@, "打不了中文"@, "候选框"@, "fcitx"@, "fcitx5"@, "ibus"@, "拼音"@,],
            ) || any_of(l, seq!["ime"@, "input method"@,]);
            let audio = any_of(text, seq!["没声音"@, "声音"@, "麦克风"@, "耳机"@, "音频"@,]) || any_of(
                l,
                seq!["audio"@, "sound"@, "microphone"@, "pipewire"@, "wireplumber"@,],
            );
            let display = any_of(
                text,
                seq!["屏幕分享"@, "黑屏"@, "截图"@, "录屏"@, "显示器"@, "窗口"@, "闪屏"@,],
            ) || any_of(l, seq!["display"@, "screen"@, "wayland"@, "xwayland"@, "portal"@,]);
            let package = any_of(text, seq!["更新"@, "安装包"@, "依赖"@, "滚挂"@, "包管理"@,])
                || any_of(l, seq!["pacman"@, "yay"@, "paru"@, "aur"@, "dnf"@, "apt"@, "brew"@,]);
            let gpu = any_of(text, seq!["显卡"@, "驱动"@, "独显"@, "核显"@,]) || any_of(
                l,
                seq!["gpu"@, "nvidia"@, "amd"@, "mesa"@, "vulkan"@,],
            );
            let network = any_of(
                text,
                seq!["网络"@, "联网"@, "断网"@, "dns"@, "网卡"@, "wifi"@, "wi-fi"@,],
            ) || any_of(l, seq!["network"@, "internet"@, "wifi"@, "wi-fi"@, "dns"@,]);
            let storage = any_of(text, seq!["磁盘"@, "硬盘"@, "空间"@, "挂载"@, "btrfs"@, "快照"@,])
                || any_of(l, seq!["disk"@, "storage"@, "mount"@, "btrfs"@, "filesystem"@,]);
            let start = any_of(text, seq!["打不开"@, "启动不了"@, "闪退"@, "崩溃"@,]) || any_of(
                l,
                seq!["crash"@, "cannot start"@, "won't open"@, "not open"@,],
            );
            let app = has_target || start || contains(text, "报错"@);
            let earlier = im || audio || display || package || gpu || network || storage;
            &&& im ==> r == Some(Mode::InputMethod)
            &&& !im && audio ==> r == Some(Mode::Audio)
            &&& !im && !audio && display ==> r == Some(Mode::Display)
            &&& !im && !audio && !display && package ==> r == Some(Mode::PackageUpdate)
            &&& !im && !audio && !display && !package && gpu ==> r == Some(Mode::Gpu)
            &&& !im && !audio && !display && !package && !gpu && network ==> r == Some(
                Mode::Network,
            )
            &&& !im && !audio && !display && !package && !gpu && !network && storage ==> r
                == Some(Mode::Storage)
            &&& !earlier && app ==> r == Some(Mode::App)
            &&& !earlier && !app && text.len() > 0 ==> r == Some(Mode::System)
            &&& inferred_symptom(text, Mode::App) == if start {
                Some("cannot_start"@)
            } else {
                None
            }
        }),
{
    let app_words = seq!["打不开"@, "启动不了"@, "闪退"@, "崩溃"@, "报错"@,];
    assert(app_text() =~= app_words);
    assert(any_of(text, app_words) == (any_of(text, seq!["打不开"@, "启动不了"@, "闪退"@, "崩溃"@,])
        || contains(text, "报错"@))) by {
        if contains(text, "报错"@) {
            assert(contains(text, app_words[4]));
        }
        if any_of(text, app_words) {
            let i = choose|i: int| 0 <= i < app_words.len() && contains(text, #[trigger] app_words[i]);
            if i < 4 {
                assert(contains(text, seq!["打不开"@, "启动不了"@, "闪退"@, "崩溃"@,][i]));
            }
        }
        if any_of(text, seq!["打不开"@, "启动不了"@, "闪退"@, "崩溃"@,]) {
            let s4 = seq!["打不开"@, "启动不了"@, "闪退"@, "崩溃"@,];
            let i = choose|i: int| 0 <= i < s4.len() && contains(text, #[trigger] s4[i]);
            assert(contains(text, app_words[i]));
        }
    }
}

proof fn lemma_insert_multiset(s: Seq<Seq<char>>, x: Seq<char>, name: Seq<char>)
    ensures
        insert_by_score(s, x, name).to_multiset() == s.to_multiset().insert(x),
    decreases s.len(),
{
    broadcast use vstd::seq_lib::group_to_multiset_ensures;

    if s.len() == 0 {
        assert(seq![x] =~= Seq::<Seq<char>>::empty().push(x));
    } else {
        let t = s.drop_first();
        assert(s =~= seq![s[0]] + t);
        vstd::seq_lib::lemma_multiset_commutative(seq![s[0]], t);
        if match_score(s[0], name) < match_score(x, name) {
            vstd::seq_lib::lemma_multiset_commutative(seq![x], s);
            assert(seq![x] =~= Seq::<Seq<char>>::empty().push(x));
            assert(seq![x].to_multiset() =~= vstd::multiset::Multiset::<Seq<char>>::empty().insert(x));
            assert(s.to_multiset().insert(x) =~= seq![x].to_multiset().add(s.to_multiset()));
        } else {
            lemma_insert_multiset(t, x, name);
            vstd::seq_lib::lemma_multiset_commutative(seq![s[0]], insert_by_score(t, x, name));
            assert(s.to_multiset().insert(x) =~= seq![s[0]].to_multiset().add(
                t.to_multiset().insert(x),
            ));
        }
    }
}

proof fn lemma_sorted_multiset(s: Seq<Seq<char>>, name: Seq<char>)
    ensures
        sorted_by_score(s, name).to_multiset() == s.to_multiset(),
    decreases s.len(),
{
    broadcast use vstd::seq_lib::group_to_multiset_ensures;

    if s.len() > 0 {
        lemma_sorted_multiset(s.drop_last(), name);
        lemma_insert_multiset(sorted_by_score(s.drop_last(), name), s.last(), name);
        assert(s =~= s.drop_last().push(s.last()));
    }
}

proof fn lemma_kept_count(ls: Seq<Seq<char>>, name: Seq<char>, own_pid: u32, x: Seq<char>)
    ensures
        kept_lines(ls, name, own_pid).to_multiset().count(x) == if keeps_line(x, name, own_pid) {
            ls.to_multiset().count(x)
        } else {
            0
        },
    decreases ls.len(),
{
    broadcast use vstd::seq_lib::group_to_multiset_ensures;

    if ls.len() == 0 {
    } else {
        lemma_kept_count(ls.drop_last(), name, own_pid, x);
        assert(ls =~= ls.drop_last().push(ls.last()));
    }
}

/// The process lines are exactly the output lines about the program: each line that
/// mentions the name (in any ASCII case), is not the `pgrep -af` probe itself and
/// does not carry the probing process's id comes back as often as the output has it,
/// and no other line does; sorting only reorders them.
pub proof fn law_matches_are_the_program_lines(
    output: Seq<char>,
    name: Seq<char>,
    own_pid: u32,
    x: Seq<char>,
)
    ensures
        process_matches(output, name, own_pid).to_multiset().count(x) == if contains(
            lower(x),
            lower(name),
        ) && !contains(lower(x), "pgrep -af"@) && pid_of(x) != Some(own_pid) {
            lines(output).to_multiset().count(x)
        } else {
            0
        },
        process_matches(output, name, own_pid).len() == kept_lines(lines(output), name, own_pid).len(),
{
    lemma_sorted_multiset(kept_lines(lines(output), name, own_pid), name);
    lemma_kept_count(lines(output), name, own_pid, x);
    lemma_sorted_best_first(kept_lines(lines(output), name, own_pid), name);
}

} // verus!
