//! The extension registry: the single source of truth for which tool
//! providers are usable and what they expose.
//!
//! Tool names are namespaced by provider name so that two providers may
//! expose tools with the same short name. Registration fails on a
//! duplicate provider name; removal never cancels dispatches already in
//! flight. Listing is deterministic: lexicographic by namespaced name.

use vstd::multiset::Multiset;
use vstd::prelude::*;
use vstd::string::StrSliceExecFns;
use vstd::string::StringExecFns;

use crate::message::{Content, ErrorData, ToolResult, INTERNAL_ERROR};
use crate::strutil::{lemma_lex_total, lemma_lex_trans, lemma_to_multiset_insert, lex_le,
    str_lex_le};

verus! {

/// One named parameter of a tool's input schema.
#[derive(Debug, PartialEq, Eq)]
pub struct ParamDef {
    pub name: String,
    pub description: String,
    pub required: bool,
    pub default: Option<String>,
}

/// Presentation hints a provider may attach to a tool.
#[derive(Debug, PartialEq, Eq)]
pub struct ToolAnnotations {
    pub title: Option<String>,
    pub read_only_hint: Option<bool>,
    pub destructive_hint: Option<bool>,
    pub idempotent_hint: Option<bool>,
    pub open_world_hint: Option<bool>,
}

/// One tool as a provider advertises it.
#[derive(Debug, PartialEq, Eq)]
pub struct ToolDef {
    pub name: String,
    pub description: String,
    pub params: Vec<ParamDef>,
    pub annotations: Option<ToolAnnotations>,
}

/// One prompt as a provider advertises it.
#[derive(Debug, PartialEq, Eq)]
pub struct PromptDef {
    pub name: String,
    pub description: String,
}

/// One resource as a provider advertises it.
#[derive(Debug, PartialEq, Eq)]
pub struct ResourceDef {
    pub uri: String,
    pub name: String,
}

/// Whether the provider behind a handle is still reachable.
#[derive(Clone, Copy, Debug, PartialEq, Eq, Structural)]
pub enum ConnectionState {
    Connected,
    Failed,
}

/// A connected tool provider: its name, everything it advertises, and its
/// connection state.
#[derive(Debug, PartialEq, Eq)]
pub struct ExtensionHandle {
    pub name: String,
    pub tools: Vec<ToolDef>,
    pub prompts: Vec<PromptDef>,
    pub resources: Vec<ResourceDef>,
    pub instructions: String,
    pub state: ConnectionState,
}

/// A failure of a registry operation.
#[derive(Clone, Debug, PartialEq, Eq, Structural)]
pub enum RegistryError {
    /// A provider with this name is already registered.
    DuplicateName,
    /// No registered provider owns the given tool identifier.
    NotFound,
}

/// Mathematical model of a `ParamDef`.
pub ghost struct ParamDefView {
    pub name: Seq<char>,
    pub description: Seq<char>,
    pub required: bool,
    pub default: Option<Seq<char>>,
}

/// Mathematical model of a `ToolDef`.
pub ghost struct ToolDefView {
    pub name: Seq<char>,
    pub description: Seq<char>,
    pub params: Seq<ParamDefView>,
    pub annotations: Option<ToolAnnotationsView>,
}

/// Mathematical model of a `ToolAnnotations`.
pub ghost struct ToolAnnotationsView {
    pub title: Option<Seq<char>>,
    pub read_only_hint: Option<bool>,
    pub destructive_hint: Option<bool>,
    pub idempotent_hint: Option<bool>,
    pub open_world_hint: Option<bool>,
}

impl DeepView for ParamDef {
    type V = ParamDefView;

    open spec fn deep_view(&self) -> ParamDefView {
        ParamDefView {
            name: self.name@,
            description: self.description@,
            required: self.required,
            default: self.default.deep_view(),
        }
    }
}

impl DeepView for ToolAnnotations {
    type V = ToolAnnotationsView;

    open spec fn deep_view(&self) -> ToolAnnotationsView {
        ToolAnnotationsView {
            title: self.title.deep_view(),
            read_only_hint: self.read_only_hint,
            destructive_hint: self.destructive_hint,
            idempotent_hint: self.idempotent_hint,
            open_world_hint: self.open_world_hint,
        }
    }
}

impl DeepView for ToolDef {
    type V = ToolDefView;

    open spec fn deep_view(&self) -> ToolDefView {
        ToolDefView {
            name: self.name@,
            description: self.description@,
            params: self.params.deep_view(),
            annotations: match self.annotations {
                Some(a) => Some(a.deep_view()),
                None => None,
            },
        }
    }
}

fn clone_opt_str(o: &Option<String>) -> (res: Option<String>)
    ensures
        res == *o,
{
    match o {
        Some(s) => Some(s.clone()),
        None => None,
    }
}

impl Clone for ParamDef {
    /// Cloning keeps the value.
    fn clone(&self) -> (res: Self)
        ensures
            res == *self,
    {
        ParamDef {
            name: self.name.clone(),
            description: self.description.clone(),
            required: self.required,
            default: clone_opt_str(&self.default),
        }
    }
}

impl Clone for ToolAnnotations {
    /// Cloning keeps the value.
    fn clone(&self) -> (res: Self)
        ensures
            res == *self,
    {
        ToolAnnotations {
            title: clone_opt_str(&self.title),
            read_only_hint: self.read_only_hint,
            destructive_hint: self.destructive_hint,
            idempotent_hint: self.idempotent_hint,
            open_world_hint: self.open_world_hint,
        }
    }
}

fn clone_params(v: &Vec<ParamDef>) -> (res: Vec<ParamDef>)
    ensures
        res@ == v@,
{
    let n = v.len();
    let mut out: Vec<ParamDef> = Vec::new();
    let mut i: usize = 0;
    while i < n
        invariant
            i <= n,
            n == v@.len(),
            out@ == v@.subrange(0, i as int),
        decreases n - i,
    {
        out.push(v[i].clone());
        proof {
            assert(out@ =~= v@.subrange(0, i as int + 1));
        }
        i = i + 1;
    }
    proof {
        assert(out@ =~= v@);
    }
    out
}

impl Clone for ToolDef {
    /// Cloning keeps the modeled value.
    fn clone(&self) -> (res: Self)
        ensures
            res.deep_view() == self.deep_view(),
            res.name == self.name,
            res.description == self.description,
    {
        ToolDef {
            name: self.name.clone(),
            description: self.description.clone(),
            params: clone_params(&self.params),
            annotations: match &self.annotations {
                Some(a) => Some(a.clone()),
                None => None,
            },
        }
    }
}

/// The namespaced identifier of one tool of one provider.
pub open spec fn namespaced(ext_name: Seq<char>, tool_name: Seq<char>) -> Seq<char> {
    ext_name + "__"@ + tool_name
}

/// Build the namespaced identifier of one tool of one provider.
pub fn namespaced_name(ext_name: &str, tool_name: &str) -> (r: String)
    ensures
        r@ == namespaced(ext_name@, tool_name@),
{
    let mut s = String::from_str(ext_name);
    s.append("__");
    s.append(tool_name);
    s
}

/// Whether some registered provider carries this name.
pub open spec fn has_extension(exts: Seq<ExtensionHandle>, name: Seq<char>) -> bool {
    exists|i: int| 0 <= i < exts.len() && exts[i].name@ == name
}

/// Whether the namespaced identifier `id` resolves to a tool named
/// `tool_name` of the provider named `ext_name`.
pub open spec fn routes_to(
    exts: Seq<ExtensionHandle>,
    id: Seq<char>,
    ext_name: Seq<char>,
    tool_name: Seq<char>,
) -> bool {
    exists|k: int, i: int|
        0 <= k < exts.len() && 0 <= i < exts[k].tools.len() && exts[k].name@ == ext_name
            && exts[k].tools[i].name@ == tool_name && id == namespaced(ext_name, tool_name)
}

/// Whether the namespaced identifier `id` resolves to any registered tool.
pub open spec fn some_route(exts: Seq<ExtensionHandle>, id: Seq<char>) -> bool {
    exists|k: int, i: int|
        0 <= k < exts.len() && 0 <= i < exts[k].tools.len() && id == namespaced(
            exts[k].name@,
            exts[k].tools[i].name@,
        )
}

/// The registry of connected tool providers. Provider names are unique.
pub struct ExtensionRegistry {
    pub extensions: Vec<ExtensionHandle>,
}

impl ExtensionRegistry {
    /// Well-formed: no two registered providers share a name.
    pub open spec fn wf(&self) -> bool {
        forall|i: int, j: int|
            0 <= i < j < self.extensions@.len() ==> self.extensions@[i].name@
                != self.extensions@[j].name@
    }

    /// An empty registry.
    pub fn new() -> (r: ExtensionRegistry)
        ensures
            r.wf(),
            r.extensions@.len() == 0,
    {
        ExtensionRegistry { extensions: Vec::new() }
    }

    /// Register a provider. Fails with `DuplicateName`, leaving the
    /// registry unchanged, exactly when a provider of that name is
    /// already registered; on success the handle's tools are visible
    /// immediately.
    pub fn add(&mut self, handle: ExtensionHandle) -> (r: Result<(), RegistryError>)
        requires
            old(self).wf(),
        ensures
            final(self).wf(),
            match r {
                Ok(()) => !has_extension(old(self).extensions@, handle.name@)
                    && final(self).extensions@ == old(self).extensions@.push(handle),
                Err(e) => e == RegistryError::DuplicateName && has_extension(
                    old(self).extensions@,
                    handle.name@,
                ) && final(self).extensions@ == old(self).extensions@,
            },
    {
        let n = self.extensions.len();
        let mut i: usize = 0;
        while i < n
            invariant
                i <= n,
                n == self.extensions@.len(),
                old(self).wf(),
                self.extensions@ == old(self).extensions@,
                forall|j: int| 0 <= j < i ==> self.extensions@[j].name@ != handle.name@,
            decreases n - i,
        {
            if self.extensions[i].name == handle.name {
                proof {
                    assert(has_extension(self.extensions@, handle.name@));
                }
                return Err(RegistryError::DuplicateName);
            }
            i = i + 1;
        }
        self.extensions.push(handle);
        Ok(())
    }

    /// Deregister the provider with this name. Returns whether one was
    /// present; every other provider stays registered. In-flight
    /// dispatches to the removed provider are not cancelled.
    pub fn remove(&mut self, name: &String) -> (r: bool)
        requires
            old(self).wf(),
        ensures
            final(self).wf(),
            r == has_extension(old(self).extensions@, name@),
            !has_extension(final(self).extensions@, name@),
            r ==> exists|k: int|
                0 <= k < old(self).extensions@.len() && old(self).extensions@[k].name@ == name@
                    && final(self).extensions@ == old(self).extensions@.remove(k),
            !r ==> final(self).extensions@ == old(self).extensions@,
    {
        let n = self.extensions.len();
        let mut i: usize = 0;
        while i < n
            invariant
                i <= n,
                n == self.extensions@.len(),
                old(self).wf(),
                self.extensions@ == old(self).extensions@,
                forall|j: int| 0 <= j < i ==> self.extensions@[j].name@ != name@,
            decreases n - i,
        {
            if self.extensions[i].name == *name {
                let ghost prev = self.extensions@;
                self.extensions.remove(i);
                proof {
                    assert(prev[i as int].name@ == name@);
                    assert(has_extension(old(self).extensions@, name@));
                    assert(self.extensions@ == prev.remove(i as int));
                    assert forall|j: int|
                        0 <= j < self.extensions@.len() implies self.extensions@[j].name@
                        != name@ by {
                        if j < i {
                            assert(self.extensions@[j] == prev[j]);
                        } else {
                            assert(self.extensions@[j] == prev[j + 1]);
                        }
                    }
                    assert forall|a: int, b: int|
                        0 <= a < b < self.extensions@.len() implies self.extensions@[a].name@
                        != self.extensions@[b].name@ by {
                        let a0: int = if a < i { a } else { a + 1 };
                        let b0: int = if b < i { b } else { b + 1 };
                        assert(self.extensions@[a] == prev[a0]);
                        assert(self.extensions@[b] == prev[b0]);
                    }
                }
                return true;
            }
            i = i + 1;
        }
        proof {
            assert(!has_extension(self.extensions@, name@));
        }
        false
    }

    /// Resolve a namespaced tool identifier to the owning provider's name
    /// and the tool's short name, or `NotFound`.
    pub fn resolve(&self, tool_id: &String) -> (r: Result<(String, String), RegistryError>)
        ensures
            match r {
                Ok(pair) => routes_to(self.extensions@, tool_id@, pair.0@, pair.1@) && some_route(
                    self.extensions@,
                    tool_id@,
                ),
                Err(e) => e == RegistryError::NotFound && !some_route(
                    self.extensions@,
                    tool_id@,
                ),
            },
    {
        let n = self.extensions.len();
        let mut k: usize = 0;
        while k < n
            invariant
                k <= n,
                n == self.extensions@.len(),
                forall|k2: int, i2: int|
                    0 <= k2 < k && 0 <= i2 < self.extensions@[k2].tools.len() ==> tool_id@
                        != namespaced(
                        self.extensions@[k2].name@,
                        #[trigger] self.extensions@[k2].tools[i2].name@,
                    ),
            decreases n - k,
        {
            let ext = &self.extensions[k];
            let m = ext.tools.len();
            let mut i: usize = 0;
            while i < m
                invariant
                    i <= m,
                    k < n,
                    n == self.extensions@.len(),
                    m == ext.tools@.len(),
                    ext == &self.extensions[k as int],
                    forall|i2: int|
                        0 <= i2 < i ==> tool_id@ != namespaced(
                            ext.name@,
                            #[trigger] ext.tools[i2].name@,
                        ),
                decreases m - i,
            {
                let candidate = namespaced_name(ext.name.as_str(), ext.tools[i].name.as_str());
                if candidate == *tool_id {
                    proof {
                        assert(routes_to(
                            self.extensions@,
                            tool_id@,
                            ext.name@,
                            ext.tools[i as int].name@,
                        ));
                        assert(some_route(self.extensions@, tool_id@));
                    }
                    return Ok((ext.name.clone(), ext.tools[i].name.clone()));
                }
                i = i + 1;
            }
            k = k + 1;
        }
        Err(RegistryError::NotFound)
    }
}

/// One tool under its namespaced identifier, ready to advertise.
#[derive(Debug, PartialEq, Eq)]
pub struct RegisteredTool {
    pub id: String,
    pub extension: String,
    pub tool: ToolDef,
}

/// Mathematical model of a `RegisteredTool`.
pub ghost struct RegisteredToolView {
    pub id: Seq<char>,
    pub extension: Seq<char>,
    pub tool: ToolDefView,
}

impl DeepView for RegisteredTool {
    type V = RegisteredToolView;

    open spec fn deep_view(&self) -> RegisteredToolView {
        RegisteredToolView {
            id: self.id@,
            extension: self.extension@,
            tool: self.tool.deep_view(),
        }
    }
}

/// The namespaced tools of one provider, in advertised order.
pub open spec fn ext_tools_view(ext: ExtensionHandle) -> Seq<RegisteredToolView> {
    Seq::new(
        ext.tools@.len(),
        |i: int|
            RegisteredToolView {
                id: namespaced(ext.name@, ext.tools@[i].name@),
                extension: ext.name@,
                tool: ext.tools@[i].deep_view(),
            },
    )
}

/// Whether a provider passes the optional name filter.
pub open spec fn filter_matches(ext: ExtensionHandle, filter: Option<Seq<char>>) -> bool {
    match filter {
        None => true,
        Some(f) => ext.name@ == f,
    }
}

/// Every namespaced tool of every provider passing the filter, providers
/// in registration order.
pub open spec fn spec_registered(
    exts: Seq<ExtensionHandle>,
    filter: Option<Seq<char>>,
) -> Seq<RegisteredToolView>
    decreases exts.len(),
{
    if exts.len() == 0 {
        Seq::empty()
    } else {
        let rest = spec_registered(exts.drop_first(), filter);
        if filter_matches(exts[0], filter) {
            ext_tools_view(exts[0]) + rest
        } else {
            rest
        }
    }
}

proof fn lemma_spec_registered_push(
    exts: Seq<ExtensionHandle>,
    ext: ExtensionHandle,
    filter: Option<Seq<char>>,
)
    ensures
        spec_registered(exts.push(ext), filter) == if filter_matches(ext, filter) {
            spec_registered(exts, filter) + ext_tools_view(ext)
        } else {
            spec_registered(exts, filter)
        },
    decreases exts.len(),
{
    if exts.len() == 0 {
        assert(exts.push(ext).drop_first() =~= Seq::<ExtensionHandle>::empty());
        assert(exts.push(ext)[0] == ext);
        assert(spec_registered(Seq::<ExtensionHandle>::empty(), filter)
            == Seq::<RegisteredToolView>::empty());
        if filter_matches(ext, filter) {
            assert(spec_registered(exts.push(ext), filter) =~= spec_registered(exts, filter)
                + ext_tools_view(ext));
        } else {
            assert(spec_registered(exts.push(ext), filter) =~= spec_registered(exts, filter));
        }
    } else {
        assert(exts.push(ext)[0] == exts[0]);
        assert(exts.push(ext).drop_first() =~= exts.drop_first().push(ext));
        lemma_spec_registered_push(exts.drop_first(), ext, filter);
        if filter_matches(ext, filter) {
            assert(spec_registered(exts.push(ext), filter) =~= spec_registered(exts, filter)
                + ext_tools_view(ext));
        } else {
            assert(spec_registered(exts.push(ext), filter) =~= spec_registered(exts, filter));
        }
    }
}

/// Insertion sort by namespaced identifier, in lexicographic order.
fn sort_registered(v: Vec<RegisteredTool>) -> (r: Vec<RegisteredTool>)
    ensures
        forall|i: int, j: int| 0 <= i < j < r@.len() ==> lex_le(r@[i].id@, r@[j].id@),
        r.deep_view().to_multiset() == v.deep_view().to_multiset(),
{
    broadcast use vstd::seq_lib::group_to_multiset_ensures;
    broadcast use vstd::multiset::group_multiset_axioms;

    let ghost orig = v.deep_view();
    let mut rest = v;
    let mut out: Vec<RegisteredTool> = Vec::new();
    proof {
        assert(out.deep_view() =~= Seq::<RegisteredToolView>::empty());
        assert(out.deep_view().to_multiset() =~= Multiset::<RegisteredToolView>::empty());
        assert(orig.to_multiset() =~= out.deep_view().to_multiset().add(
            rest.deep_view().to_multiset(),
        ));
    }
    while rest.len() > 0
        invariant
            forall|i: int, j: int|
                0 <= i < j < out@.len() ==> lex_le(out@[i].id@, out@[j].id@),
            orig.to_multiset() == out.deep_view().to_multiset().add(
                rest.deep_view().to_multiset(),
            ),
        decreases rest.len(),
    {
        let ghost rest_dv = rest.deep_view();
        proof {
            assert(rest_dv.len() == rest@.len());
        }
        let x = rest.pop().unwrap();
        proof {
            rest_dv.to_multiset_ensures();
            assert(rest.deep_view() =~= rest_dv.drop_last());
            assert(rest_dv.drop_last() =~= rest_dv.remove(rest_dv.len() - 1));
            assert(rest_dv[rest_dv.len() - 1] == x.deep_view());
            assert(rest_dv.remove(rest_dv.len() - 1).to_multiset() == rest_dv.to_multiset().remove(
                rest_dv[rest_dv.len() - 1],
            ));
            assert(rest.deep_view().to_multiset() == rest_dv.to_multiset().remove(x.deep_view()));
            assert(rest_dv.contains(x.deep_view()));
            assert(rest_dv.to_multiset().count(x.deep_view()) > 0);
        }
        let ghost out_dv = out.deep_view();
        let mut pos: usize = 0;
        while pos < out.len() && str_lex_le(out[pos].id.as_str(), x.id.as_str())
            invariant
                pos <= out@.len(),
                out.deep_view() == out_dv,
                forall|j: int| 0 <= j < pos ==> lex_le(out@[j].id@, x.id@),
                forall|i: int, j: int|
                    0 <= i < j < out@.len() ==> lex_le(out@[i].id@, out@[j].id@),
            decreases out@.len() - pos,
        {
            pos = pos + 1;
        }
        let ghost before = out@;
        out.insert(pos, x);
        proof {
            assert(out.deep_view() =~= out_dv.insert(pos as int, x.deep_view()));
            lemma_to_multiset_insert(out_dv, pos as int, x.deep_view());
            assert(out.deep_view().to_multiset() == out_dv.to_multiset().insert(x.deep_view()));
            assert(out.deep_view().to_multiset().add(rest.deep_view().to_multiset())
                =~= orig.to_multiset());
            assert forall|a: int, b: int|
                0 <= a < b < out@.len() implies lex_le(out@[a].id@, out@[b].id@) by {
                if b < pos {
                    assert(out@[a] == before[a]);
                    assert(out@[b] == before[b]);
                } else if a < pos && b == pos {
                    assert(out@[a] == before[a]);
                    assert(out@[b] == x);
                } else if a == pos {
                    assert(out@[a] == x);
                    assert(out@[b] == before[b - 1]);
                    assert(pos < before.len());
                    assert(!lex_le(before[pos as int].id@, x.id@));
                    lemma_lex_total(before[pos as int].id@, x.id@);
                    assert(lex_le(x.id@, before[pos as int].id@));
                    if b - 1 > pos {
                        assert(lex_le(before[pos as int].id@, before[b - 1].id@));
                        lemma_lex_trans(x.id@, before[pos as int].id@, before[b - 1].id@);
                    }
                } else if a < pos && b > pos {
                    assert(out@[a] == before[a]);
                    assert(out@[b] == before[b - 1]);
                    if a == b - 1 {
                    } else {
                        assert(lex_le(before[a].id@, before[b - 1].id@));
                    }
                } else {
                    assert(out@[a] == before[a - 1]);
                    assert(out@[b] == before[b - 1]);
                }
            }
        }
    }
    proof {
        assert(rest.deep_view() =~= Seq::<RegisteredToolView>::empty());
        assert(rest.deep_view().to_multiset() =~= Multiset::<RegisteredToolView>::empty());
        assert(out.deep_view().to_multiset() =~= orig.to_multiset());
    }
    out
}

impl ExtensionRegistry {
    /// The aggregated, namespaced tool list, optionally restricted to one
    /// provider, in lexicographic order of namespaced name.
    pub fn list_tools(&self, filter: Option<&String>) -> (r: Vec<RegisteredTool>)
        ensures
            forall|i: int, j: int| 0 <= i < j < r@.len() ==> lex_le(r@[i].id@, r@[j].id@),
            r.deep_view().to_multiset() == spec_registered(
                self.extensions@,
                match filter {
                    Some(f) => Some(f@),
                    None => None,
                },
            ).to_multiset(),
    {
        let ghost gfilter: Option<Seq<char>> = match filter {
            Some(f) => Some(f@),
            None => None,
        };
        let n = self.extensions.len();
        let mut all: Vec<RegisteredTool> = Vec::new();
        let mut k: usize = 0;
        proof {
            assert(self.extensions@.subrange(0, 0) =~= Seq::<ExtensionHandle>::empty());
            assert(all.deep_view() =~= spec_registered(self.extensions@.subrange(0, 0), gfilter));
        }
        while k < n
            invariant
                k <= n,
                n == self.extensions@.len(),
                gfilter == match filter {
                    Some(f) => Some(f@),
                    None => None,
                },
                all.deep_view() == spec_registered(self.extensions@.subrange(0, k as int), gfilter),
            decreases n - k,
        {
            proof {
                assert(self.extensions@.subrange(0, k as int + 1) =~= self.extensions@.subrange(
                    0,
                    k as int,
                ).push(self.extensions@[k as int]));
                lemma_spec_registered_push(
                    self.extensions@.subrange(0, k as int),
                    self.extensions@[k as int],
                    gfilter,
                );
            }
            let ext = &self.extensions[k];
            let wanted = match filter {
                None => true,
                Some(f) => ext.name == *f,
            };
            if wanted {
                let m = ext.tools.len();
                let ghost base = all.deep_view();
                let mut i: usize = 0;
                proof {
                    assert(all.deep_view() =~= base + ext_tools_view(
                        self.extensions@[k as int],
                    ).subrange(0, 0));
                }
                while i < m
                    invariant
                        i <= m,
                        k < n,
                        n == self.extensions@.len(),
                        m == ext.tools@.len(),
                        ext == &self.extensions[k as int],
                        all.deep_view() == base + ext_tools_view(
                            self.extensions@[k as int],
                        ).subrange(0, i as int),
                    decreases m - i,
                {
                    let id = namespaced_name(ext.name.as_str(), ext.tools[i].name.as_str());
                    let item = RegisteredTool {
                        id,
                        extension: ext.name.clone(),
                        tool: ext.tools[i].clone(),
                    };
                    let ghost pre = all.deep_view();
                    all.push(item);
                    proof {
                        assert(item.deep_view() == ext_tools_view(self.extensions@[k as int])[
                            i as int
                        ]);
                        assert(all.deep_view() =~= pre.push(item.deep_view()));
                        assert(all.deep_view() =~= base + ext_tools_view(
                            self.extensions@[k as int],
                        ).subrange(0, i as int + 1));
                    }
                    i = i + 1;
                }
                proof {
                    assert(filter_matches(self.extensions@[k as int], gfilter));
                    assert(ext_tools_view(self.extensions@[k as int]).subrange(
                        0,
                        m as int,
                    ) =~= ext_tools_view(self.extensions@[k as int]));
                    assert(all.deep_view() == spec_registered(
                        self.extensions@.subrange(0, k as int + 1),
                        gfilter,
                    ));
                }
            } else {
                proof {
                    assert(!filter_matches(self.extensions@[k as int], gfilter));
                    assert(all.deep_view() == spec_registered(
                        self.extensions@.subrange(0, k as int + 1),
                        gfilter,
                    ));
                }
            }
            k = k + 1;
        }
        proof {
            assert(self.extensions@.subrange(0, n as int) =~= self.extensions@);
        }
        sort_registered(all)
    }
}

/// What a tool provider advertises it can do: for each capability class,
/// whether it is offered and whether list-change notifications are sent.
#[derive(Clone, Copy, Debug, PartialEq, Eq, Structural)]
pub struct ServerCapabilities {
    pub tools: Option<bool>,
    pub prompts: Option<bool>,
    pub resources: Option<bool>,
}

/// Builder for a provider's advertised capabilities.
#[derive(Clone, Copy, Debug, PartialEq, Eq, Structural)]
pub struct CapabilitiesBuilder {
    pub tools: Option<bool>,
    pub prompts: Option<bool>,
    pub resources: Option<bool>,
}

impl CapabilitiesBuilder {
    /// A builder advertising nothing.
    pub fn new() -> (r: CapabilitiesBuilder)
        ensures
            r.tools is None,
            r.prompts is None,
            r.resources is None,
    {
        CapabilitiesBuilder { tools: None, prompts: None, resources: None }
    }

    /// Advertise tools, with or without list-change notifications.
    pub fn with_tools(self, list_changed: bool) -> (r: CapabilitiesBuilder)
        ensures
            r == (CapabilitiesBuilder { tools: Some(list_changed), ..self }),
    {
        CapabilitiesBuilder { tools: Some(list_changed), ..self }
    }

    /// Advertise prompts, with or without list-change notifications.
    pub fn with_prompts(self, list_changed: bool) -> (r: CapabilitiesBuilder)
        ensures
            r == (CapabilitiesBuilder { prompts: Some(list_changed), ..self }),
    {
        CapabilitiesBuilder { prompts: Some(list_changed), ..self }
    }

    /// The advertised capabilities.
    pub fn build(self) -> (r: ServerCapabilities)
        ensures
            r.tools == self.tools,
            r.prompts == self.prompts,
            r.resources == self.resources,
    {
        ServerCapabilities { tools: self.tools, prompts: self.prompts, resources: self.resources }
    }
}

/// A failure to serve a prompt.
#[derive(Debug, PartialEq, Eq)]
pub enum PromptError {
    NotFound(String),
}

/// A failure to serve a resource.
#[derive(Debug, PartialEq, Eq)]
pub enum ResourceError {
    NotFound(String),
}

/// What came back from one attempt to reach a provider over its channel.
pub enum DispatchOutcome {
    /// The provider replied, with content or with its own error.
    Reply(ToolResult<Vec<Content>>),
    /// The channel itself failed before a reply arrived.
    TransportFailure(String),
}

/// Turn a dispatch outcome into a tool result: a transport-level failure
/// becomes an ordinary error result (`provider unavailable`) so that the
/// reply loop can surface it as a tool response instead of aborting.
pub fn interpret_dispatch(outcome: DispatchOutcome) -> (r: ToolResult<Vec<Content>>)
    ensures
        match outcome {
            DispatchOutcome::Reply(res) => r == res,
            DispatchOutcome::TransportFailure(msg) => match r {
                Err(e) => e.code == INTERNAL_ERROR && e.message@ == "provider unavailable: "@
                    + msg@,
                Ok(_) => false,
            },
        },
{
    match outcome {
        DispatchOutcome::Reply(res) => res,
        DispatchOutcome::TransportFailure(msg) => {
            let mut text = String::from_str("provider unavailable: ");
            text.append(msg.as_str());
            Err(ErrorData { code: INTERNAL_ERROR, message: text })
        },
    }
}

} // verus!
