//! The `load_tools` tool: the catalogue of tools and scripts that can be loaded on
//! demand, written as XML into the tool's description, and the checks that decide
//! which of the requested names are loaded.
use crate::text::{chars_of, eq_str, join, join_parts, push_all, push_str, string_of, trim, trim_ws, views};
use crate::tools::registry::{
    lookup, register_view, unregistered_views, ToolPermission, ToolRegistry, ToolSpec, ToolView,
    UnregisteredScript,
};
use vstd::prelude::*;

verus! {

/// The fixed part of the tool's description.
pub const BASE_DESCRIPTION: &'static str = "按需加载工具或脚本的完整说明和参数 schema。<available_tools> 是可加载的内置工具，<available_scripts> 是可加载的脚本工具；请使用 {\"names\":[\"名称\"]} 加载。<unregistered_scripts> 中的文件尚未注册为工具，不能直接加载或调用；需要先读取对应路径并使用 register_script 注册。";

/// The parameter schema of the tool, as JSON text.
pub const LOAD_TOOLS_PARAMETERS: &'static str = "{\"type\":\"object\",\"properties\":{\"names\":{\"type\":\"array\",\"items\":{\"type\":\"string\"},\"description\":\"要加载的内置工具或脚本工具名称列表。只允许填写 available_tools 或 available_scripts 中的名称。\"}},\"required\":[\"names\"],\"additionalProperties\":false}";

// ---------------------------------------------------------------------------
// XML escaping
// ---------------------------------------------------------------------------

/// The escape of one character.
pub open spec fn escape_char(c: char) -> Seq<char> {
    if c == '&' {
        "&amp;"@
    } else if c == '<' {
        "&lt;"@
    } else if c == '>' {
        "&gt;"@
    } else if c == '"' {
        "&quot;"@
    } else if c == '\'' {
        "&apos;"@
    } else {
        seq![c]
    }
}

/// The text with `&`, `<`, `>`, `"` and `'` replaced by their entities.
pub open spec fn xml_escaped(s: Seq<char>) -> Seq<char>
    decreases s.len(),
{
    if s.len() == 0 {
        seq![]
    } else {
        xml_escaped(s.drop_last()) + escape_char(s.last())
    }
}

/// A character that ends or opens markup or an attribute value.
pub open spec fn is_markup(c: char) -> bool {
    c == '<' || c == '>' || c == '"' || c == '\''
}

proof fn lemma_escape_char_plain(c: char)
    ensures
        forall|k: int| 0 <= k < escape_char(c).len() ==> !is_markup(#[trigger] escape_char(c)[k]),
{
    reveal_strlit("&amp;");
    reveal_strlit("&lt;");
    reveal_strlit("&gt;");
    reveal_strlit("&quot;");
    reveal_strlit("&apos;");
}

/// Escaped text holds no markup character, whatever the input: it cannot close or
/// open an element of the catalogue.
pub proof fn law_escaped_has_no_markup(s: Seq<char>)
    ensures
        forall|k: int| 0 <= k < xml_escaped(s).len() ==> !is_markup(#[trigger] xml_escaped(s)[k]),
    decreases s.len(),
{
    if s.len() > 0 {
        law_escaped_has_no_markup(s.drop_last());
        lemma_escape_char_plain(s.last());
        let a = xml_escaped(s.drop_last());
        let b = escape_char(s.last());
        assert forall|k: int| 0 <= k < xml_escaped(s).len() implies !is_markup(
            #[trigger] xml_escaped(s)[k],
        ) by {
            if k < a.len() {
                assert(xml_escaped(s)[k] == a[k]);
            } else {
                assert(xml_escaped(s)[k] == b[k - a.len()]);
            }
        }
    }
}

/// Escapes text for the catalogue (`xml_escape`).
pub fn xml_escape(text: &str) -> (r: String)
    ensures
        r@ == xml_escaped(text@),
        forall|k: int| 0 <= k < r@.len() ==> !is_markup(#[trigger] r@[k]),
{
    let cs = chars_of(text);
    let out = escape_chars(cs.as_slice());
    proof {
        law_escaped_has_no_markup(text@);
    }
    string_of(out.as_slice())
}

fn escape_chars(s: &[char]) -> (r: Vec<char>)
    ensures
        r@ == xml_escaped(s@),
{
    let mut out: Vec<char> = Vec::new();
    let mut i: usize = 0;
    while i < s.len()
        invariant
            0 <= i <= s@.len(),
            out@ == xml_escaped(s@.take(i as int)),
        decreases s.len() - i,
    {
        let c = s[i];
        if c == '&' {
            push_str(&mut out, "&amp;");
        } else if c == '<' {
            push_str(&mut out, "&lt;");
        } else if c == '>' {
            push_str(&mut out, "&gt;");
        } else if c == '"' {
            push_str(&mut out, "&quot;");
        } else if c == '\'' {
            push_str(&mut out, "&apos;");
        } else {
            out.push(c);
        }
        proof {
            assert(s@.take(i + 1).drop_last() =~= s@.take(i as int));
            assert(s@.take(i + 1).last() == c);
        }
        i = i + 1;
    }
    proof {
        assert(s@.take(s@.len() as int) =~= s@);
    }
    out
}

fn escape_into(out: &mut Vec<char>, text: &str)
    ensures
        final(out)@ == old(out)@ + xml_escaped(text@),
{
    let cs = chars_of(text);
    let e = escape_chars(cs.as_slice());
    push_all(out, e.as_slice());
}

// ---------------------------------------------------------------------------
// The catalogue
// ---------------------------------------------------------------------------

/// A tool that `load_tools` can load: one that is not always loaded, not
/// `load_tools` itself, and not loaded yet.
pub open spec fn loadable(t: ToolView, loaded: Seq<Seq<char>>) -> bool {
    !t.always_loaded && t.name != "load_tools"@ && !loaded.contains(t.name)
}

/// The loadable tools (`is_script == false`) or scripts (`is_script == true`), in
/// registration order.
pub open spec fn selected(ts: Seq<ToolView>, loaded: Seq<Seq<char>>, script: bool) -> Seq<ToolView>
    decreases ts.len(),
{
    if ts.len() == 0 {
        seq![]
    } else if loadable(ts.last(), loaded) && ts.last().is_script == script {
        selected(ts.drop_last(), loaded, script).push(ts.last())
    } else {
        selected(ts.drop_last(), loaded, script)
    }
}

/// The name shown for a tool: its display name, else its name.
pub open spec fn shown_name(t: ToolView) -> Seq<char> {
    match t.display_name {
        Some(d) => d,
        None => t.name,
    }
}

/// One tool of the catalogue.
pub open spec fn tool_item(item_tag: Seq<char>, t: ToolView) -> Seq<char> {
    "  <"@ + item_tag + ">\n    <name>"@ + xml_escaped(t.name) + "</name>\n    <display_name>"@
        + xml_escaped(shown_name(t)) + "</display_name>\n    <description>"@ + xml_escaped(
        t.description,
    ) + "</description>\n  </"@ + item_tag + ">"@
}

pub open spec fn tool_items(item_tag: Seq<char>, ts: Seq<ToolView>) -> Seq<Seq<char>> {
    ts.map_values(|t: ToolView| tool_item(item_tag, t))
}

/// A list of tools under one element (`tools_xml`).
pub open spec fn tools_block(tag: Seq<char>, item_tag: Seq<char>, ts: Seq<ToolView>) -> Seq<char> {
    "<"@ + tag + ">\n"@ + join(tool_items(item_tag, ts), "\n"@) + "\n</"@ + tag + ">"@
}

/// One unregistered script of the catalogue.
pub open spec fn script_item(s: (Seq<char>, Seq<char>)) -> Seq<char> {
    "  <script>\n    <name>"@ + xml_escaped(s.0) + "</name>\n    <path>"@ + xml_escaped(s.1)
        + "</path>\n  </script>"@
}

/// The unregistered scripts under one element (`unregistered_scripts_xml`).
pub open spec fn unregistered_block(ss: Seq<(Seq<char>, Seq<char>)>) -> Seq<char> {
    "<"@ + "unregistered_scripts"@ + ">\n"@ + join(
        ss.map_values(|s: (Seq<char>, Seq<char>)| script_item(s)),
        "\n"@,
    ) + "\n</"@ + "unregistered_scripts"@ + ">"@
}

/// The tool's description with its catalogue (`dynamic_description`).
pub open spec fn description_text(
    ts: Seq<ToolView>,
    unregistered: Seq<(Seq<char>, Seq<char>)>,
    loaded: Seq<Seq<char>>,
) -> Seq<char> {
    BASE_DESCRIPTION@ + "\n\n"@ + tools_block("available_tools"@, "tool"@, selected(ts, loaded, false))
        + "\n"@ + tools_block("available_scripts"@, "script"@, selected(ts, loaded, true)) + "\n"@
        + unregistered_block(unregistered)
}

pub open spec fn string_views(v: Seq<String>) -> Seq<Seq<char>> {
    v.map_values(|s: String| s@)
}

fn contains_name(names: &[String], name: &str) -> (b: bool)
    ensures
        b == string_views(names@).contains(name@),
{
    let nc = chars_of(name);
    let mut k: usize = 0;
    while k < names.len()
        invariant
            0 <= k <= names@.len(),
            nc@ == name@,
            forall|j: int| 0 <= j < k ==> #[trigger] string_views(names@)[j] != name@,
        decreases names.len() - k,
    {
        let c = chars_of(names[k].as_str());
        if crate::text::eq_chars(c.as_slice(), nc.as_slice()) {
            proof {
                assert(string_views(names@)[k as int] == name@);
            }
            return true;
        }
        k = k + 1;
    }
    false
}

fn item_chars(item_tag: &str, t: &ToolSpec) -> (r: Vec<char>)
    ensures
        r@ == tool_item(item_tag@, t@),
{
    let mut out: Vec<char> = Vec::new();
    push_str(&mut out, "  <");
    push_str(&mut out, item_tag);
    push_str(&mut out, ">\n    <name>");
    escape_into(&mut out, t.name.as_str());
    push_str(&mut out, "</name>\n    <display_name>");
    match &t.display_name {
        Some(d) => escape_into(&mut out, d.as_str()),
        None => escape_into(&mut out, t.name.as_str()),
    }
    push_str(&mut out, "</display_name>\n    <description>");
    escape_into(&mut out, t.description.as_str());
    push_str(&mut out, "</description>\n  </");
    push_str(&mut out, item_tag);
    push_str(&mut out, ">");
    proof {
        assert(out@ =~= tool_item(item_tag@, t@));
    }
    out
}

fn is_loadable(t: &ToolSpec, loaded: &[String]) -> (b: bool)
    ensures
        b == loadable(t@, string_views(loaded@)),
{
    let n = chars_of(t.name.as_str());
    !t.always_loaded && !eq_str(n.as_slice(), "load_tools") && !contains_name(loaded, t.name.as_str())
}

fn block_chars(tag: &str, parts: &Vec<Vec<char>>) -> (r: Vec<char>)
    ensures
        r@ == "<"@ + tag@ + ">\n"@ + join(views(parts@), "\n"@) + "\n</"@ + tag@ + ">"@,
{
    let mut out: Vec<char> = Vec::new();
    push_str(&mut out, "<");
    push_str(&mut out, tag);
    push_str(&mut out, ">\n");
    let sep = chars_of("\n");
    let body = join_parts(parts, sep.as_slice());
    push_all(&mut out, body.as_slice());
    push_str(&mut out, "\n</");
    push_str(&mut out, tag);
    push_str(&mut out, ">");
    proof {
        assert(out@ =~= "<"@ + tag@ + ">\n"@ + join(views(parts@), "\n"@) + "\n</"@ + tag@ + ">"@);
    }
    out
}

/// The loadable tools or scripts of the registry as XML (`tools_xml`).
pub fn tools_xml(tag: &str, item_tag: &str, registry: &ToolRegistry, loaded: &[String], script: bool) -> (r:
    String)
    ensures
        r@ == tools_block(tag@, item_tag@, selected(registry@, string_views(loaded@), script)),
{
    let ghost lv = string_views(loaded@);
    let ghost ts = registry@;
    let mut parts: Vec<Vec<char>> = Vec::new();
    let n = registry.len();
    let mut i: usize = 0;
    proof {
        assert(views(parts@) =~= tool_items(item_tag@, selected(ts.take(0), lv, script)));
    }
    while i < n
        invariant
            0 <= i <= n,
            n == ts.len(),
            ts == registry@,
            lv == string_views(loaded@),
            views(parts@) == tool_items(item_tag@, selected(ts.take(i as int), lv, script)),
        decreases n - i,
    {
        let t = registry.at(i);
        proof {
            assert(ts.take(i + 1).drop_last() =~= ts.take(i as int));
            assert(ts.take(i + 1).last() == ts[i as int]);
        }
        if is_loadable(t, loaded) && t.is_script == script {
            let item = item_chars(item_tag, t);
            let ghost before = views(parts@);
            parts.push(item);
            proof {
                let sel = selected(ts.take(i as int), lv, script);
                assert(selected(ts.take(i + 1), lv, script) == sel.push(ts[i as int]));
                assert(views(parts@) =~= before.push(tool_item(item_tag@, ts[i as int])));
                assert(tool_items(item_tag@, sel.push(ts[i as int])) =~= tool_items(item_tag@, sel).push(
                    tool_item(item_tag@, ts[i as int]),
                ));
            }
        }
        i = i + 1;
    }
    proof {
        assert(ts.take(n as int) =~= ts);
    }
    let out = block_chars(tag, &parts);
    string_of(out.as_slice())
}

fn script_chars(s: &UnregisteredScript) -> (r: Vec<char>)
    ensures
        r@ == script_item((s.name@, s.path@)),
{
    let mut out: Vec<char> = Vec::new();
    push_str(&mut out, "  <script>\n    <name>");
    escape_into(&mut out, s.name.as_str());
    push_str(&mut out, "</name>\n    <path>");
    escape_into(&mut out, s.path.as_str());
    push_str(&mut out, "</path>\n  </script>");
    proof {
        assert(out@ =~= script_item((s.name@, s.path@)));
    }
    out
}

/// The registry's unregistered script files as XML (`unregistered_scripts_xml`).
pub fn unregistered_scripts_xml(registry: &ToolRegistry) -> (r: String)
    ensures
        r@ == unregistered_block(registry.unregistered_view()),
{
    let scripts = registry.unregistered_scripts();
    let ghost ss = unregistered_views(scripts@);
    let mut parts: Vec<Vec<char>> = Vec::new();
    let mut i: usize = 0;
    while i < scripts.len()
        invariant
            0 <= i <= scripts@.len(),
            ss == unregistered_views(scripts@),
            views(parts@) == ss.take(i as int).map_values(|s: (Seq<char>, Seq<char>)| script_item(s)),
        decreases scripts.len() - i,
    {
        let item = script_chars(&scripts[i]);
        let ghost before = views(parts@);
        parts.push(item);
        proof {
            let f = |s: (Seq<char>, Seq<char>)| script_item(s);
            assert(ss[i as int] == (scripts@[i as int].name@, scripts@[i as int].path@));
            assert(ss.take(i + 1) =~= ss.take(i as int).push(ss[i as int]));
            assert(views(parts@) =~= before.push(script_item(ss[i as int])));
            assert(ss.take(i as int).push(ss[i as int]).map_values(f) =~= ss.take(i as int).map_values(
                f,
            ).push(f(ss[i as int])));
        }
        i = i + 1;
    }
    proof {
        assert(ss.take(scripts@.len() as int) =~= ss);
    }
    let out = block_chars("unregistered_scripts", &parts);
    proof {
        assert(out@ =~= unregistered_block(registry.unregistered_view()));
    }
    string_of(out.as_slice())
}

/// The tool's description: the fixed text, then the loadable tools, the loadable
/// scripts and the unregistered script files (`dynamic_description`).
pub fn dynamic_description(registry: &ToolRegistry, loaded: &[String]) -> (r: String)
    ensures
        r@ == description_text(registry@, registry.unregistered_view(), string_views(loaded@)),
{
    let tools = tools_xml("available_tools", "tool", registry, loaded, false);
    let scripts = tools_xml("available_scripts", "script", registry, loaded, true);
    let unregistered = unregistered_scripts_xml(registry);
    let mut out: Vec<char> = Vec::new();
    push_str(&mut out, BASE_DESCRIPTION);
    push_str(&mut out, "\n\n");
    push_str(&mut out, tools.as_str());
    push_str(&mut out, "\n");
    push_str(&mut out, scripts.as_str());
    push_str(&mut out, "\n");
    push_str(&mut out, unregistered.as_str());
    proof {
        assert(out@ =~= description_text(
            registry@,
            registry.unregistered_view(),
            string_views(loaded@),
        ));
    }
    string_of(out.as_slice())
}

/// The `load_tools` tool (the specification that `register` adds).
pub open spec fn load_tools_tool() -> ToolView {
    ToolView {
        name: "load_tools"@,
        display_name: Some("加载工具"@),
        description: BASE_DESCRIPTION@,
        parameters: LOAD_TOOLS_PARAMETERS@,
        permission: ToolPermission::ReadOnly,
        is_script: false,
        always_loaded: true,
        run: None,
    }
}

/// Adds the `load_tools` tool to the registry (`register`); running it is the
/// registry's own business.
pub fn register(registry: &mut ToolRegistry)
    ensures
        final(registry)@ == register_view(old(registry)@, load_tools_tool()),
        final(registry).unregistered_view() == old(registry).unregistered_view(),
{
    let mut spec = ToolSpec::new(
        string_of(chars_of("load_tools").as_slice()),
        string_of(chars_of(BASE_DESCRIPTION).as_slice()),
        string_of(chars_of(LOAD_TOOLS_PARAMETERS).as_slice()),
    );
    spec.display_name = Some(string_of(chars_of("加载工具").as_slice()));
    proof {
        assert(spec@ == load_tools_tool());
    }
    registry.register(spec);
}

// ---------------------------------------------------------------------------
// Loading
// ---------------------------------------------------------------------------

/// A tool as `load_tools` reports it.
#[derive(Debug)]
pub struct LoadedTool {
    pub name: String,
    pub display_name: String,
    pub description: String,
    pub parameters: String,
    pub permission: &'static str,
    pub kind: &'static str,
}

/// What is reported of a tool: its name, shown name, description, parameters,
/// permission ("readonly" or "writes") and kind ("script" or "tool").
pub open spec fn report_of(t: ToolView) -> (Seq<char>, Seq<char>, Seq<char>, Seq<char>, Seq<char>, Seq<
    char,
>) {
    (
        t.name,
        shown_name(t),
        t.description,
        t.parameters,
        match t.permission {
            ToolPermission::ReadOnly => "readonly"@,
            ToolPermission::Writes => "writes"@,
        },
        if t.is_script {
            "script"@
        } else {
            "tool"@
        },
    )
}

pub open spec fn loaded_view(l: LoadedTool) -> (Seq<char>, Seq<char>, Seq<char>, Seq<char>, Seq<char>, Seq<
    char,
>) {
    (l.name@, l.display_name@, l.description@, l.parameters@, l.permission@, l.kind@)
}

/// "unknown tool or script: {name}".
pub open spec fn unknown_text(name: Seq<char>) -> Seq<char> {
    "unknown tool or script: "@ + name
}

/// The refusal of a tool that is always loaded, or of `load_tools` itself.
pub open spec fn not_loadable_text(name: Seq<char>) -> Seq<char> {
    "tool cannot be loaded with load_tools: "@ + name
        + ". Only names listed in available_tools or available_scripts can be loaded."@
}

/// The tools loaded so far and the names already seen, or the first error.
pub type LoadState = Result<(Seq<ToolView>, Seq<Seq<char>>), Seq<char>>;

/// One requested name: blank and repeated names are skipped; an unknown name, or one
/// that cannot be loaded, is an error.
pub open spec fn load_step(st: LoadState, raw: Seq<char>, ts: Seq<ToolView>) -> LoadState {
    match st {
        Err(e) => Err(e),
        Ok((acc, seen)) => {
            let n = trim(raw);
            if n.len() == 0 || seen.contains(n) {
                Ok((acc, seen))
            } else {
                match lookup(ts, n) {
                    None => Err(unknown_text(n)),
                    Some(t) => if t.name == "load_tools"@ || t.always_loaded {
                        Err(not_loadable_text(n))
                    } else {
                        Ok((acc.push(t), seen.push(n)))
                    },
                }
            }
        },
    }
}

pub open spec fn load_fold(names: Seq<Seq<char>>, ts: Seq<ToolView>) -> LoadState
    decreases names.len(),
{
    if names.len() == 0 {
        Ok((seq![], seq![]))
    } else {
        load_step(load_fold(names.drop_last(), ts), names.last(), ts)
    }
}

/// What `load_tools` loads for the `names` argument (`None` when it is not an array;
/// an item that is not a string counts as blank), or its error.
pub open spec fn loaded_tools(names: Option<Seq<Seq<char>>>, ts: Seq<ToolView>) -> Result<
    Seq<ToolView>,
    Seq<char>,
> {
    match names {
        None => Err("names array is required"@),
        Some(ns) => if ns.len() == 0 {
            Err("names must not be empty"@)
        } else {
            match load_fold(ns, ts) {
                Err(e) => Err(e),
                Ok((acc, _)) => if acc.len() == 0 {
                    Err("names must contain at least one loadable tool or script"@)
                } else {
                    Ok(acc)
                },
            }
        },
    }
}

proof fn lemma_fold_err(names: Seq<Seq<char>>, ts: Seq<ToolView>, k: int)
    requires
        0 <= k <= names.len(),
        load_fold(names.take(k), ts) is Err,
    ensures
        load_fold(names, ts) == load_fold(names.take(k), ts),
    decreases names.len() - k,
{
    if k < names.len() {
        assert(names.take(k + 1).drop_last() =~= names.take(k));
        lemma_fold_err(names, ts, k + 1);
    } else {
        assert(names.take(k) =~= names);
    }
}

fn copy_string(s: &String) -> (r: String)
    ensures
        r@ == s@,
{
    string_of(chars_of(s.as_str()).as_slice())
}

fn report_tool(t: &ToolSpec) -> (l: LoadedTool)
    ensures
        loaded_view(l) == report_of(t@),
{
    let display_name = match &t.display_name {
        Some(d) => copy_string(d),
        None => copy_string(&t.name),
    };
    let permission = match t.permission {
        ToolPermission::ReadOnly => "readonly",
        ToolPermission::Writes => "writes",
    };
    let kind = if t.is_script {
        "script"
    } else {
        "tool"
    };
    LoadedTool {
        name: copy_string(&t.name),
        display_name,
        description: copy_string(&t.description),
        parameters: copy_string(&t.parameters),
        permission,
        kind,
    }
}

fn text_message(prefix: &str, name: &[char], suffix: &str) -> (r: String)
    ensures
        r@ == prefix@ + name@ + suffix@,
{
    let mut out: Vec<char> = Vec::new();
    push_str(&mut out, prefix);
    push_all(&mut out, name);
    push_str(&mut out, suffix);
    string_of(out.as_slice())
}

/// The tools that a `load_tools` call loads, in the order asked, or its error
/// (`execute`, once the `names` argument has been read).
pub fn execute(names: Option<&[String]>, registry: &ToolRegistry) -> (r: Result<Vec<LoadedTool>, String>)
    ensures
        match r {
            Ok(v) => match loaded_tools(
                match names {
                    Some(ns) => Some(string_views(ns@)),
                    None => None,
                },
                registry@,
            ) {
                Ok(ts) => v@.map_values(|l: LoadedTool| loaded_view(l)) == ts.map_values(
                    |t: ToolView| report_of(t),
                ),
                Err(_) => false,
            },
            Err(e) => loaded_tools(
                match names {
                    Some(ns) => Some(string_views(ns@)),
                    None => None,
                },
                registry@,
            ) == Err::<Seq<ToolView>, Seq<char>>(e@),
        },
{
    let ns = match names {
        None => return Err(string_of(chars_of("names array is required").as_slice())),
        Some(ns) => ns,
    };
    if ns.len() == 0 {
        return Err(string_of(chars_of("names must not be empty").as_slice()));
    }
    let ghost ts = registry@;
    let ghost nv = string_views(ns@);
    let mut loaded: Vec<LoadedTool> = Vec::new();
    let mut seen: Vec<String> = Vec::new();
    let ghost mut acc: Seq<ToolView> = seq![];
    let mut i: usize = 0;
    proof {
        assert(nv.take(0) =~= Seq::<Seq<char>>::empty());
        assert(string_views(seen@) =~= Seq::<Seq<char>>::empty());
        assert(loaded@.map_values(|l: LoadedTool| loaded_view(l)) =~= acc.map_values(
            |t: ToolView| report_of(t),
        ));
    }
    while i < ns.len()
        invariant
            0 <= i <= ns@.len(),
            ts == registry@,
            nv == string_views(ns@),
            names matches Some(x) && x@ == ns@,
            load_fold(nv.take(i as int), ts) == Ok::<(Seq<ToolView>, Seq<Seq<char>>), Seq<char>>(
                (acc, string_views(seen@)),
            ),
            loaded@.map_values(|l: LoadedTool| loaded_view(l)) == acc.map_values(
                |t: ToolView| report_of(t),
            ),
        decreases ns.len() - i,
    {
        proof {
            assert(nv.take(i + 1).drop_last() =~= nv.take(i as int));
            assert(nv.take(i + 1).last() == ns@[i as int]@);
        }
        let raw = chars_of(ns[i].as_str());
        let t = trim_ws(raw.as_slice());
        let name = string_of(t.as_slice());
        if t.len() == 0 || contains_name(seen.as_slice(), name.as_str()) {
            i = i + 1;
            continue;
        }
        match registry.get(name.as_str()) {
            None => {
                let m = text_message("unknown tool or script: ", t.as_slice(), "");
                proof {
                    reveal_strlit("");
                    assert(m@ =~= unknown_text(t@));
                    assert(load_fold(nv.take(i + 1), ts) == Err::<(Seq<ToolView>, Seq<Seq<char>>), Seq<char>>(unknown_text(t@)));
                    lemma_fold_err(nv, ts, i + 1);
                    assert(load_fold(nv, ts) == Err::<(Seq<ToolView>, Seq<Seq<char>>), Seq<char>>(unknown_text(t@)));
                    assert(nv.len() > 0);
                    assert(loaded_tools(Some(nv), ts) == Err::<Seq<ToolView>, Seq<char>>(unknown_text(t@)));
                }
                return Err(m);
            },
            Some(tool) => {
                let tn = chars_of(tool.name.as_str());
                if eq_str(tn.as_slice(), "load_tools") || tool.always_loaded {
                    let m = text_message(
                        "tool cannot be loaded with load_tools: ",
                        t.as_slice(),
                        ". Only names listed in available_tools or available_scripts can be loaded.",
                    );
                    proof {
                        assert(m@ =~= not_loadable_text(t@));
                        assert(load_fold(nv.take(i + 1), ts) == Err::<(Seq<ToolView>, Seq<Seq<char>>), Seq<char>>(not_loadable_text(t@)));
                        lemma_fold_err(nv, ts, i + 1);
                    }
                    return Err(m);
                }
                let ghost before = loaded@.map_values(|l: LoadedTool| loaded_view(l));
                let ghost sv = string_views(seen@);
                loaded.push(report_tool(tool));
                seen.push(name);
                proof {
                    assert(loaded@.map_values(|l: LoadedTool| loaded_view(l)) =~= before.push(
                        report_of(tool@),
                    ));
                    assert(acc.push(tool@).map_values(|t: ToolView| report_of(t)) =~= acc.map_values(
                        |t: ToolView| report_of(t),
                    ).push(report_of(tool@)));
                    assert(string_views(seen@) =~= sv.push(t@));
                    acc = acc.push(tool@);
                }
            },
        }
        i = i + 1;
    }
    proof {
        assert(nv.take(ns@.len() as int) =~= nv);
    }
    if loaded.len() == 0 {
        return Err(
            string_of(chars_of("names must contain at least one loadable tool or script").as_slice()),
        );
    }
    Ok(loaded)
}


proof fn lemma_fold_loadable(names: Seq<Seq<char>>, ts: Seq<ToolView>)
    ensures
        load_fold(names, ts) matches Ok((acc, seen)) ==> {
            &&& acc.len() == seen.len()
            &&& forall|i: int| 0 <= i < acc.len() ==> {
                &&& !(#[trigger] acc[i]).always_loaded
                &&& acc[i].name != "load_tools"@
                &&& acc[i].name == seen[i]
                &&& lookup(ts, acc[i].name) == Some(acc[i])
            }
            &&& forall|i: int, j: int| 0 <= i < j < seen.len() ==> #[trigger] seen[i] != #[trigger] seen[j]
        },
    decreases names.len(),
{
    if names.len() > 0 {
        lemma_fold_loadable(names.drop_last(), ts);
        let n = trim(names.last());
        crate::tools::registry::lemma_lookup_name(ts, n);
        match load_fold(names.drop_last(), ts) {
            Ok((acc, seen)) => {
                if !(n.len() == 0 || seen.contains(n)) {
                    match lookup(ts, n) {
                        Some(t) => {
                            if !(t.name == "load_tools"@ || t.always_loaded) {
                                let acc2 = acc.push(t);
                                let seen2 = seen.push(n);
                                assert forall|i: int, j: int| 0 <= i < j < seen2.len() implies #[trigger] seen2[i]
                                    != #[trigger] seen2[j] by {
                                    if j == seen.len() {
                                        assert(seen.contains(seen[i]));
                                    }
                                }
                                assert forall|i: int| 0 <= i < acc2.len() implies {
                                    &&& !(#[trigger] acc2[i]).always_loaded
                                    &&& acc2[i].name != "load_tools"@
                                    &&& acc2[i].name == seen2[i]
                                    &&& lookup(ts, acc2[i].name) == Some(acc2[i])
                                } by {
                                    if i < acc.len() {
                                        assert(acc2[i] == acc[i]);
                                        assert(seen2[i] == seen[i]);
                                    }
                                }
                            }
                        },
                        None => {},
                    }
                }
            },
            Err(_) => {},
        }
    }
}

/// `load_tools` loads only tools that can be loaded: none is always loaded, none is
/// `load_tools` itself, each is the registered tool of its name, and none is loaded
/// twice.
pub proof fn law_loaded_tools_are_loadable(names: Option<Seq<Seq<char>>>, ts: Seq<ToolView>)
    ensures
        loaded_tools(names, ts) matches Ok(acc) ==> {
            &&& forall|i: int| 0 <= i < acc.len() ==> {
                &&& !(#[trigger] acc[i]).always_loaded
                &&& acc[i].name != "load_tools"@
                &&& lookup(ts, acc[i].name) == Some(acc[i])
            }
            &&& forall|i: int, j: int| 0 <= i < j < acc.len() ==> #[trigger] acc[i].name != #[trigger] acc[j].name
        },
{
    match names {
        Some(ns) => {
            lemma_fold_loadable(ns, ts);
            match load_fold(ns, ts) {
                Ok((acc, seen)) => {
                    assert forall|i: int, j: int| 0 <= i < j < acc.len() implies #[trigger] acc[i].name
                        != #[trigger] acc[j].name by {
                        assert(seen[i] != seen[j]);
                    }
                },
                Err(_) => {},
            }
        },
        None => {},
    }
}

} // verus!
