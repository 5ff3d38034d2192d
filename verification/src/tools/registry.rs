//! The tool registry as data: each tool's name, description, parameter schema (as
//! JSON text), permission and loading policy, and for script tools how to run them.
//! The handlers that run tools belong to the application around this library.
use crate::text::{chars_of, eq_chars, string_of};
use vstd::prelude::*;

verus! {

/// Whether a tool changes anything.
#[derive(Clone, Copy, PartialEq, Eq, Structural, Debug)]
pub enum ToolPermission {
    ReadOnly,
    Writes,
}

/// How to run a script tool.
#[derive(Debug)]
pub struct ScriptRun {
    pub path: String,
    pub scripts_dir: String,
    pub timeout_seconds: u64,
}

/// One tool.
#[derive(Debug)]
pub struct ToolSpec {
    pub name: String,
    pub display_name: Option<String>,
    pub description: String,
    pub parameters: String,
    pub permission: ToolPermission,
    pub is_script: bool,
    pub always_loaded: bool,
    pub run: Option<ScriptRun>,
}

/// A script file in a scripts directory that is not registered as a tool.
#[derive(Debug)]
pub struct UnregisteredScript {
    pub name: String,
    pub path: String,
}

/// A tool as a value of the model.
pub struct ToolView {
    pub name: Seq<char>,
    pub display_name: Option<Seq<char>>,
    pub description: Seq<char>,
    pub parameters: Seq<char>,
    pub permission: ToolPermission,
    pub is_script: bool,
    pub always_loaded: bool,
    pub run: Option<(Seq<char>, Seq<char>, u64)>,
}

pub open spec fn opt_seq(o: Option<String>) -> Option<Seq<char>> {
    match o {
        Some(s) => Some(s@),
        None => None,
    }
}

impl View for ToolSpec {
    type V = ToolView;

    open spec fn view(&self) -> ToolView {
        ToolView {
            name: self.name@,
            display_name: opt_seq(self.display_name),
            description: self.description@,
            parameters: self.parameters@,
            permission: self.permission,
            is_script: self.is_script,
            always_loaded: self.always_loaded,
            run: match self.run {
                Some(r) => Some((r.path@, r.scripts_dir@, r.timeout_seconds)),
                None => None,
            },
        }
    }
}

impl ToolSpec {
    /// A tool with the given name, description and parameter schema: read-only, not a
    /// script, always loaded, no display name.
    pub fn new(name: String, description: String, parameters: String) -> (t: ToolSpec)
        ensures
            t@ == (ToolView {
                name: name@,
                display_name: None,
                description: description@,
                parameters: parameters@,
                permission: ToolPermission::ReadOnly,
                is_script: false,
                always_loaded: true,
                run: None,
            }),
    {
        ToolSpec {
            name,
            display_name: None,
            description,
            parameters,
            permission: ToolPermission::ReadOnly,
            is_script: false,
            always_loaded: true,
            run: None,
        }
    }
}

pub open spec fn tool_views(v: Seq<ToolSpec>) -> Seq<ToolView> {
    v.map_values(|t: ToolSpec| t@)
}

/// No two tools share a name.
pub open spec fn names_unique(ts: Seq<ToolView>) -> bool {
    forall|i: int, j: int| 0 <= i < j < ts.len() ==> #[trigger] ts[i].name != #[trigger] ts[j].name
}

/// Position of the tool named `name`, or the length when there is none.
pub open spec fn name_pos(ts: Seq<ToolView>, name: Seq<char>) -> int
    decreases ts.len(),
{
    if ts.len() == 0 {
        0
    } else if ts[0].name == name {
        0
    } else {
        1 + name_pos(ts.drop_first(), name)
    }
}

pub proof fn lemma_name_pos(ts: Seq<ToolView>, name: Seq<char>)
    ensures
        0 <= name_pos(ts, name) <= ts.len(),
        forall|k: int| 0 <= k < name_pos(ts, name) ==> #[trigger] ts[k].name != name,
        name_pos(ts, name) < ts.len() ==> ts[name_pos(ts, name)].name == name,
    decreases ts.len(),
{
    if ts.len() > 0 && ts[0].name != name {
        let t = ts.drop_first();
        lemma_name_pos(t, name);
        assert forall|k: int| 0 <= k < name_pos(ts, name) implies #[trigger] ts[k].name != name by {
            if k > 0 {
                assert(ts[k] == t[k - 1]);
            }
        }
    }
}

/// Registering a tool replaces the tool of the same name, or adds it at the end.
pub open spec fn register_view(ts: Seq<ToolView>, t: ToolView) -> Seq<ToolView> {
    let k = name_pos(ts, t.name);
    if k < ts.len() {
        ts.update(k, t)
    } else {
        ts.push(t)
    }
}

/// The tool named `name`, if any.
pub open spec fn lookup(ts: Seq<ToolView>, name: Seq<char>) -> Option<ToolView> {
    let k = name_pos(ts, name);
    if k < ts.len() {
        Some(ts[k])
    } else {
        None
    }
}

/// The names and paths of unregistered script files.
pub open spec fn unregistered_views(v: Seq<UnregisteredScript>) -> Seq<(Seq<char>, Seq<char>)> {
    v.map_values(|u: UnregisteredScript| (u.name@, u.path@))
}

/// The tools available to the model.
pub struct ToolRegistry {
    tools: Vec<ToolSpec>,
    unregistered: Vec<UnregisteredScript>,
}

impl View for ToolRegistry {
    type V = Seq<ToolView>;

    closed spec fn view(&self) -> Seq<ToolView> {
        tool_views(self.tools@)
    }
}

impl ToolRegistry {
    /// The names and paths of the script files that are not registered.
    pub closed spec fn unregistered_view(&self) -> Seq<(Seq<char>, Seq<char>)> {
        unregistered_views(self.unregistered@)
    }

    #[verifier::type_invariant]
    closed spec fn well_formed(self) -> bool {
        names_unique(tool_views(self.tools@))
    }

    /// An empty registry.
    pub fn new() -> (r: ToolRegistry)
        ensures
            r@ == Seq::<ToolView>::empty(),
            r.unregistered_view() == Seq::<(Seq<char>, Seq<char>)>::empty(),
            names_unique(r@),
    {
        let r = ToolRegistry { tools: Vec::new(), unregistered: Vec::new() };
        proof {
            assert(tool_views(r.tools@) =~= Seq::<ToolView>::empty());
            assert(unregistered_views(r.unregistered@) =~= Seq::<(Seq<char>, Seq<char>)>::empty());
        }
        r
    }

    /// Number of tools.
    pub fn len(&self) -> (n: usize)
        ensures
            n == self@.len(),
            names_unique(self@),
    {
        proof {
            use_type_invariant(self);
        }
        self.tools.len()
    }

    /// The tool at a position.
    pub fn at(&self, i: usize) -> (t: &ToolSpec)
        requires
            i < self@.len(),
        ensures
            t@ == self@[i as int],
    {
        &self.tools[i]
    }

    fn position(&self, name: &[char]) -> (k: usize)
        ensures
            k == name_pos(self@, name@),
    {
        proof {
            lemma_name_pos(self@, name@);
        }
        let mut k: usize = 0;
        while k < self.tools.len()
            invariant
                0 <= k <= self.tools@.len(),
                self@ == tool_views(self.tools@),
                forall|j: int| 0 <= j < k ==> #[trigger] self@[j].name != name@,
            decreases self.tools.len() - k,
        {
            let nc = chars_of(self.tools[k].name.as_str());
            if eq_chars(nc.as_slice(), name) {
                proof {
                    assert(self@[k as int].name == name@);
                    lemma_name_pos_at(self@, name@, k as int);
                }
                return k;
            }
            proof {
                assert(self@[k as int].name == self.tools@[k as int].name@);
            }
            k = k + 1;
        }
        proof {
            lemma_name_pos_at(self@, name@, k as int);
        }
        k
    }

    /// The tool named `name` (`get`).
    pub fn get(&self, name: &str) -> (r: Option<&ToolSpec>)
        ensures
            match r {
                Some(t) => lookup(self@, name@) == Some(t@),
                None => lookup(self@, name@) is None,
            },
    {
        let nc = chars_of(name);
        let k = self.position(nc.as_slice());
        if k < self.tools.len() {
            Some(&self.tools[k])
        } else {
            None
        }
    }

    /// Registers a tool (`register`): it replaces the tool of the same name, or is
    /// added after the others.
    pub fn register(&mut self, spec: ToolSpec)
        ensures
            final(self)@ == register_view(old(self)@, spec@),
            final(self).unregistered_view() == old(self).unregistered_view(),
            names_unique(final(self)@),
    {
        proof {
            use_type_invariant(&*self);
        }
        let nc = chars_of(spec.name.as_str());
        let k = self.position(nc.as_slice());
        let ghost before = self@;
        let ghost sv = spec@;
        proof {
            lemma_name_pos(before, sv.name);
        }
        let mut tools: Vec<ToolSpec> = Vec::new();
        std::mem::swap(&mut tools, &mut self.tools);
        if k < tools.len() {
            tools.set(k, spec);
            proof {
                assert(tool_views(tools@) =~= before.update(k as int, sv));
            }
        } else {
            tools.push(spec);
            proof {
                assert(tool_views(tools@) =~= before.push(sv));
            }
        }
        proof {
            let after = tool_views(tools@);
            assert forall|i: int, j: int| 0 <= i < j < after.len() implies #[trigger] after[i].name
                != #[trigger] after[j].name by {
                if i == k {
                    assert(before[j].name != sv.name || j >= before.len());
                } else if j == k {
                    if k < before.len() {
                        assert(before[i].name != sv.name);
                    }
                }
            }
        }
        self.tools = tools;
    }

    /// The script files that are not registered.
    pub fn unregistered_scripts(&self) -> (r: &Vec<UnregisteredScript>)
        ensures
            unregistered_views(r@) == self.unregistered_view(),
    {
        &self.unregistered
    }

    /// Replaces the list of unregistered script files.
    pub fn set_unregistered_scripts(&mut self, scripts: Vec<UnregisteredScript>)
        ensures
            final(self)@ == old(self)@,
            final(self).unregistered_view() == unregistered_views(scripts@),
    {
        proof {
            use_type_invariant(&*self);
        }
        self.unregistered = scripts;
    }
}

pub proof fn lemma_name_pos_at(ts: Seq<ToolView>, name: Seq<char>, k: int)
    requires
        0 <= k <= ts.len(),
        forall|j: int| 0 <= j < k ==> #[trigger] ts[j].name != name,
        k == ts.len() || ts[k].name == name,
    ensures
        name_pos(ts, name) == k,
{
    lemma_name_pos(ts, name);
    let p = name_pos(ts, name);
    if p < k {
        assert(ts[p].name == name);
    } else if k < p {
        assert(ts[k].name != name);
    }
}


/// A registered tool is what its name looks up, and registering a tool changes the
/// lookup of no other name.
pub proof fn law_register_then_get(ts: Seq<ToolView>, t: ToolView, other: Seq<char>)
    ensures
        lookup(register_view(ts, t), t.name) == Some(t),
        other != t.name ==> lookup(register_view(ts, t), other) == lookup(ts, other),
{
    lemma_name_pos(ts, t.name);
    lemma_name_pos(ts, other);
    let k = name_pos(ts, t.name);
    let r = register_view(ts, t);
    assert forall|j: int| 0 <= j < k implies #[trigger] r[j].name != t.name by {
        assert(r[j] == ts[j]);
    }
    lemma_name_pos_at(r, t.name, k);
    if other != t.name {
        let p = name_pos(ts, other);
        if k < ts.len() {
            assert forall|j: int| 0 <= j < p implies #[trigger] r[j].name != other by {
                if j != k {
                    assert(r[j] == ts[j]);
                }
            }
            if p < ts.len() {
                assert(p != k);
                assert(r[p] == ts[p]);
            }
            lemma_name_pos_at(r, other, p);
        } else {
            assert forall|j: int| 0 <= j < p implies #[trigger] r[j].name != other by {
                assert(r[j] == ts[j]);
            }
            if p < ts.len() {
                assert(r[p] == ts[p]);
                lemma_name_pos_at(r, other, p);
            } else {
                assert forall|j: int| 0 <= j < r.len() implies #[trigger] r[j].name != other by {
                    if j < ts.len() {
                        assert(r[j] == ts[j]);
                    }
                }
                lemma_name_pos_at(r, other, r.len() as int);
            }
        }
    }
}

/// The tool that a name looks up carries that name.
pub proof fn lemma_lookup_name(ts: Seq<ToolView>, name: Seq<char>)
    ensures
        lookup(ts, name) matches Some(t) ==> t.name == name,
{
    lemma_name_pos(ts, name);
}

} // verus!
