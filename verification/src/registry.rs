//! The provider registry: a name-to-provider mapping built per render, plus
//! the union of filesystem markers its registered providers want
//! pre-resolved. The provider set is closed, so a provider is a variant of
//! one enum.

use vstd::prelude::*;

use crate::cache::GitInfoV;
use crate::cache::spec_assoc_lookup;
use crate::error::ErrorV;
use crate::error::PromptError;
use crate::module_trait::CtxV;
use crate::module_trait::Module;
use crate::module_trait::ModuleContext;
use crate::modules::bun::BunModule;
use crate::modules::bun::spec_bun_applies;
use crate::modules::deno::DenoModule;
use crate::modules::deno::spec_deno_applies;
use crate::modules::elixir::ElixirModule;
use crate::modules::elixir::spec_elixir_applies;
use crate::modules::env::EnvModule;
use crate::modules::env::spec_env_render;
use crate::modules::fail::FailModule;
use crate::modules::fail::spec_fail_render;
use crate::modules::git::GitModule;
use crate::modules::git::spec_git_render;
use crate::modules::go::GoModule;
use crate::modules::go::spec_go_applies;
use crate::modules::host::HostModule;
use crate::modules::node::NodeModule;
use crate::modules::node::spec_node_applies;
use crate::modules::ok::OkModule;
use crate::modules::ok::spec_ok_render;
use crate::modules::path::PathModule;
use crate::modules::path::PathModuleV;
use crate::modules::path::spec_path_render;
use crate::modules::python::PythonModule;
use crate::modules::python::spec_python_applies;
use crate::modules::rust::RustModule;
use crate::modules::rust::spec_rust_applies;
use crate::modules::time::TimeModule;
use crate::modules::time::TimeParts;
use crate::modules::time::spec_time_render;
use crate::modules::utils::spec_render_version_module;
use crate::modules::whoami::WhoamiModule;

verus! {

/// One provider instance: the closed set of modules a placeholder can name.
pub enum Provider {
    Path(PathModule),
    Git(GitModule),
    Env(EnvModule),
    Okay(OkModule),
    Fail(FailModule),
    Rust(RustModule),
    Node(NodeModule),
    Python(PythonModule),
    Go(GoModule),
    Deno(DenoModule),
    Bun(BunModule),
    Time(TimeModule),
    Elixir(ElixirModule),
    Host(HostModule),
    Whoami(WhoamiModule),
}

/// The mathematical value of a `Provider`: which module it is, with the
/// data that module formats.
#[verifier::ext_equal]
pub enum ProviderV {
    Path(PathModuleV),
    Git(Option<GitInfoV>),
    Env(Seq<(Seq<char>, Seq<char>)>),
    Okay,
    Fail,
    Rust(Option<Seq<char>>),
    Node(Option<Seq<char>>),
    Python(Option<Seq<char>>),
    Go(Option<Seq<char>>),
    Deno(Option<Seq<char>>),
    Bun(Option<Seq<char>>),
    Time(Option<TimeParts>),
    Elixir(Option<Seq<char>>),
    Host(Option<Seq<char>>),
    Whoami(Option<Seq<char>>),
}

impl View for Provider {
    type V = ProviderV;

    open spec fn view(&self) -> ProviderV {
        match self {
            Provider::Path(m) => ProviderV::Path(m@),
            Provider::Git(m) => ProviderV::Git(m@),
            Provider::Env(m) => ProviderV::Env(m@),
            Provider::Okay(_) => ProviderV::Okay,
            Provider::Fail(_) => ProviderV::Fail,
            Provider::Rust(m) => ProviderV::Rust(m@),
            Provider::Node(m) => ProviderV::Node(m@),
            Provider::Python(m) => ProviderV::Python(m@),
            Provider::Go(m) => ProviderV::Go(m@),
            Provider::Deno(m) => ProviderV::Deno(m@),
            Provider::Bun(m) => ProviderV::Bun(m@),
            Provider::Time(m) => ProviderV::Time(m@),
            Provider::Elixir(m) => ProviderV::Elixir(m@),
            Provider::Host(m) => ProviderV::Host(m@),
            Provider::Whoami(m) => ProviderV::Whoami(m@),
        }
    }
}

impl DeepView for Provider {
    type V = ProviderV;

    open spec fn deep_view(&self) -> ProviderV {
        self.view()
    }
}

/// What a provider renders for a format field under a render context.
pub open spec fn spec_provider_render(p: ProviderV, format: Seq<char>, ctx: CtxV) -> Result<
    Option<Seq<char>>,
    ErrorV,
> {
    match p {
        ProviderV::Path(pv) => spec_path_render(pv.current_dir, pv.home_dir, format),
        ProviderV::Git(info) => spec_git_render(info, format),
        ProviderV::Env(values) => spec_env_render(values, format),
        ProviderV::Okay => Ok(spec_ok_render(format, ctx.exit_code)),
        ProviderV::Fail => Ok(spec_fail_render(format, ctx.exit_code)),
        ProviderV::Rust(v) => spec_render_version_module(
            spec_rust_applies(ctx.markers),
            ctx.no_version,
            "rust"@,
            v,
            format,
            "rust"@,
        ),
        ProviderV::Node(v) => spec_render_version_module(
            spec_node_applies(ctx.markers),
            ctx.no_version,
            "node"@,
            v,
            format,
            "node"@,
        ),
        ProviderV::Python(v) => spec_render_version_module(
            spec_python_applies(ctx.markers),
            ctx.no_version,
            ""@,
            v,
            format,
            "python"@,
        ),
        ProviderV::Go(v) => spec_render_version_module(
            spec_go_applies(ctx.markers),
            ctx.no_version,
            "go"@,
            v,
            format,
            "go"@,
        ),
        ProviderV::Deno(v) => spec_render_version_module(
            spec_deno_applies(ctx.markers),
            ctx.no_version,
            "deno"@,
            v,
            format,
            "deno"@,
        ),
        ProviderV::Bun(v) => spec_render_version_module(
            spec_bun_applies(ctx.markers),
            ctx.no_version,
            "bun"@,
            v,
            format,
            "bun"@,
        ),
        ProviderV::Time(parts) => spec_time_render(parts, format),
        ProviderV::Elixir(v) => spec_render_version_module(
            spec_elixir_applies(ctx.markers),
            ctx.no_version,
            "elixir"@,
            v,
            format,
            "elixir"@,
        ),
        ProviderV::Host(h) => Ok(h),
        ProviderV::Whoami(u) => Ok(u),
    }
}

/// The filesystem markers a provider wants pre-resolved.
pub open spec fn spec_provider_markers(p: ProviderV) -> Seq<Seq<char>> {
    match p {
        ProviderV::Git(_) => seq![".git"@],
        ProviderV::Rust(_) => seq!["Cargo.toml"@],
        ProviderV::Node(_) => seq!["package.json"@],
        ProviderV::Python(_) => seq!["requirements.txt"@, "pyproject.toml"@, "setup.py"@],
        ProviderV::Go(_) => seq!["go.mod"@],
        ProviderV::Deno(_) => seq!["deno.json"@, "deno.jsonc"@],
        ProviderV::Bun(_) => seq!["bun.lockb"@, "bunfig.toml"@],
        ProviderV::Elixir(_) => seq!["mix.exs"@],
        _ => Seq::empty(),
    }
}

impl Provider {
    /// Renders this provider's contribution, as `spec_provider_render`
    /// says.
    pub fn render(&self, format: &str, context: &ModuleContext) -> (r: Result<
        Option<String>,
        PromptError,
    >)
        ensures
            match r {
                Ok(v) => spec_provider_render(self@, format@, context@) == Ok::<
                    Option<Seq<char>>,
                    ErrorV,
                >(v.deep_view()),
                Err(e) => spec_provider_render(self@, format@, context@) == Err::<
                    Option<Seq<char>>,
                    ErrorV,
                >(e@),
            },
    {
        match self {
            Provider::Path(m) => m.render(format, context),
            Provider::Git(m) => m.render(format, context),
            Provider::Env(m) => m.render(format, context),
            Provider::Okay(m) => m.render(format, context),
            Provider::Fail(m) => m.render(format, context),
            Provider::Rust(m) => m.render(format, context),
            Provider::Node(m) => m.render(format, context),
            Provider::Python(m) => m.render(format, context),
            Provider::Go(m) => m.render(format, context),
            Provider::Deno(m) => m.render(format, context),
            Provider::Bun(m) => m.render(format, context),
            Provider::Time(m) => m.render(format, context),
            Provider::Elixir(m) => m.render(format, context),
            Provider::Host(m) => m.render(format, context),
            Provider::Whoami(m) => m.render(format, context),
        }
    }

    /// The filesystem markers this provider wants pre-resolved, as
    /// `spec_provider_markers` says.
    pub fn fs_markers(&self) -> (r: Vec<String>)
        ensures
            r.deep_view() == spec_provider_markers(self@),
    {
        let mut markers: Vec<String> = Vec::new();
        match self {
            Provider::Git(_) => {
                markers.push(".git".to_owned());
            },
            Provider::Rust(_) => {
                markers.push("Cargo.toml".to_owned());
            },
            Provider::Node(_) => {
                markers.push("package.json".to_owned());
            },
            Provider::Python(_) => {
                markers.push("requirements.txt".to_owned());
                markers.push("pyproject.toml".to_owned());
                markers.push("setup.py".to_owned());
            },
            Provider::Go(_) => {
                markers.push("go.mod".to_owned());
            },
            Provider::Deno(_) => {
                markers.push("deno.json".to_owned());
                markers.push("deno.jsonc".to_owned());
            },
            Provider::Bun(_) => {
                markers.push("bun.lockb".to_owned());
                markers.push("bunfig.toml".to_owned());
            },
            Provider::Elixir(_) => {
                markers.push("mix.exs".to_owned());
            },
            _ => (),
        }
        proof {
            assert(markers.deep_view() =~= spec_provider_markers(self@));
        }
        markers
    }
}

/// The union of marker names wanted by the providers from position `i`
/// onward.
pub open spec fn spec_markers_from(entries: Seq<(Seq<char>, ProviderV)>, i: int) -> Set<Seq<char>>
    decreases entries.len() - i,
    when 0 <= i <= entries.len()
{
    if i >= entries.len() {
        Set::empty()
    } else {
        spec_provider_markers(entries[i].1).to_set() + spec_markers_from(entries, i + 1)
    }
}

/// The union of marker names wanted by a registry's providers.
pub open spec fn spec_registry_markers(entries: Seq<(Seq<char>, ProviderV)>) -> Set<Seq<char>> {
    spec_markers_from(entries, 0)
}

/// The name-to-provider mapping one render works against.
pub struct ModuleRegistry {
    entries: Vec<(String, Provider)>,
}

impl View for ModuleRegistry {
    type V = Seq<(Seq<char>, ProviderV)>;

    closed spec fn view(&self) -> Seq<(Seq<char>, ProviderV)> {
        self.entries.deep_view()
    }
}

fn vec_contains_str(v: &Vec<String>, s: &str) -> (r: bool)
    ensures
        r == v.deep_view().contains(s@),
{
    let n = v.len();
    let mut i: usize = 0;
    while i < n
        invariant
            i <= n,
            n == v.len(),
            forall|k: int| 0 <= k < i ==> v.deep_view()[k] != s@,
        decreases n - i,
    {
        if crate::chars::str_eq(v[i].as_str(), s) {
            proof {
                assert(v.deep_view()[i as int] == s@);
            }
            return true;
        }
        i = i + 1;
    }
    proof {
        assert(forall|k: int| 0 <= k < v.deep_view().len() ==> v.deep_view()[k] != s@);
    }
    false
}

impl ModuleRegistry {
    /// An empty registry.
    pub fn new() -> (r: Self)
        ensures
            r@ == Seq::<(Seq<char>, ProviderV)>::empty(),
    {
        let r = ModuleRegistry { entries: Vec::new() };
        proof {
            assert(r@ =~= Seq::<(Seq<char>, ProviderV)>::empty());
        }
        r
    }

    /// Registers a provider under a name, shadowing any earlier entry for
    /// it.
    pub fn register(&mut self, name: String, module: Provider)
        ensures
            final(self)@ == seq![(name@, module@)] + old(self)@,
            forall|k: Seq<char>|
                #[trigger] spec_assoc_lookup(final(self)@, k) == if k == name@ {
                    Some(module@)
                } else {
                    spec_assoc_lookup(old(self)@, k)
                },
    {
        let ghost old_view = self@;
        let ghost pair_view = (name@, module@);
        self.entries.insert(0, (name, module));
        proof {
            assert(self@ =~= seq![pair_view] + old_view);
            assert forall|k: Seq<char>| #[trigger]
                spec_assoc_lookup(self@, k) == if k == pair_view.0 {
                    Some(pair_view.1)
                } else {
                    spec_assoc_lookup(old_view, k)
                } by {
                assert(self@[0] == pair_view);
                assert(self@.drop_first() =~= old_view);
            }
        }
    }

    /// The provider registered under a name, if any.
    pub fn get(&self, name: &str) -> (r: Option<&Provider>)
        ensures
            match r {
                Some(p) => spec_assoc_lookup(self@, name@) == Some(p@),
                None => spec_assoc_lookup(self@, name@) is None,
            },
    {
        let ghost all = self@;
        let n = self.entries.len();
        proof {
            assert(self@.skip(0) =~= self@);
        }
        let mut i: usize = 0;
        while i < n
            invariant
                i <= n,
                n == self.entries.len(),
                all == self@,
                spec_assoc_lookup(all, name@) == spec_assoc_lookup(self@.skip(i as int), name@),
            decreases n - i,
        {
            proof {
                assert(self@.skip(i as int)[0] == self@[i as int]);
                assert(self@.skip(i as int).drop_first() =~= self@.skip(i as int + 1));
            }
            if crate::chars::str_eq(self.entries[i].0.as_str(), name) {
                proof {
                    assert(self@[i as int] == (
                        self.entries[i as int].0@,
                        self.entries[i as int].1@,
                    ));
                }
                return Some(&self.entries[i].1);
            }
            i = i + 1;
        }
        proof {
            assert(self@.skip(n as int) =~= Seq::<(Seq<char>, ProviderV)>::empty());
        }
        None
    }

    /// The union of marker names the registered providers want
    /// pre-resolved, without duplicates.
    pub fn required_markers(&self) -> (r: Vec<String>)
        ensures
            r.deep_view().to_set() == spec_registry_markers(self@),
            r.deep_view().no_duplicates(),
    {
        let ghost all = self@;
        let n = self.entries.len();
        let mut out: Vec<String> = Vec::new();
        proof {
            assert(out.deep_view().to_set() =~= Set::<Seq<char>>::empty());
            assert(out.deep_view().to_set() + spec_markers_from(all, 0) =~= spec_registry_markers(
                all,
            ));
        }
        let mut i: usize = 0;
        while i < n
            invariant
                i <= n,
                n == self.entries.len(),
                n == all.len(),
                all == self@,
                out.deep_view().to_set() + spec_markers_from(all, i as int)
                    == spec_registry_markers(all),
                out.deep_view().no_duplicates(),
            decreases n - i,
        {
            let ms = self.entries[i].1.fs_markers();
            let ghost provider_markers = spec_provider_markers(all[i as int].1);
            proof {
                assert(all[i as int] == (self.entries[i as int].0@, self.entries[i as int].1@));
                assert(ms.deep_view() == provider_markers);
                assert(spec_markers_from(all, i as int) == provider_markers.to_set()
                    + spec_markers_from(all, i as int + 1));
                assert(provider_markers.skip(0) =~= provider_markers);
                assert(out.deep_view().to_set() + provider_markers.skip(0).to_set()
                    + spec_markers_from(all, i as int + 1) =~= spec_registry_markers(all));
            }
            let m_len = ms.len();
            let mut j: usize = 0;
            while j < m_len
                invariant
                    j <= m_len,
                    i < n,
                    n == all.len(),
                    m_len == ms.len(),
                    ms.deep_view() == provider_markers,
                    out.deep_view().no_duplicates(),
                    out.deep_view().to_set() + provider_markers.skip(j as int).to_set()
                        + spec_markers_from(all, i as int + 1) == spec_registry_markers(all),
                decreases m_len - j,
            {
                let ghost before = out.deep_view();
                proof {
                    assert(ms.deep_view()[j as int] == ms[j as int]@);
                }
                if !vec_contains_str(&out, ms[j].as_str()) {
                    out.push(ms[j].clone());
                    proof {
                        assert(out.deep_view() =~= before.push(provider_markers[j as int]));
                        lemma_push_no_duplicates(before, provider_markers[j as int]);
                        lemma_push_to_set(before, provider_markers[j as int]);
                    }
                }
                proof {
                    let ghost tail = provider_markers.skip(j as int);
                    assert(tail[0] == provider_markers[j as int]);
                    lemma_seq_head_to_set(tail);
                    assert(tail.drop_first() =~= provider_markers.skip(j as int + 1));
                    assert(out.deep_view().to_set() + provider_markers.skip(j as int + 1).to_set()
                        + spec_markers_from(all, i as int + 1) =~= spec_registry_markers(all));
                }
                j = j + 1;
            }
            proof {
                assert(provider_markers.skip(m_len as int) =~= Seq::<Seq<char>>::empty());
                assert(provider_markers.skip(m_len as int).to_set() =~= Set::<Seq<char>>::empty());
                assert(out.deep_view().to_set() + spec_markers_from(all, i as int + 1)
                    =~= spec_registry_markers(all));
            }
            i = i + 1;
        }
        proof {
            assert(spec_markers_from(all, n as int) =~= Set::<Seq<char>>::empty());
            assert(out.deep_view().to_set() =~= spec_registry_markers(all));
        }
        out
    }
}

proof fn lemma_push_to_set<A>(s: Seq<A>, x: A)
    ensures
        s.push(x).to_set() =~= s.to_set().insert(x),
{
    let t = s.push(x);
    assert forall|y: A| t.to_set().contains(y) implies s.to_set().insert(x).contains(y) by {
        let k = choose|k: int| 0 <= k < t.len() && t[k] == y;
        if k < s.len() {
            assert(s[k] == y);
            assert(s.contains(y));
        } else {
            assert(y == x);
        }
    }
    assert forall|y: A| s.to_set().insert(x).contains(y) implies t.to_set().contains(y) by {
        if s.to_set().contains(y) {
            let k = choose|k: int| 0 <= k < s.len() && s[k] == y;
            assert(t[k] == y);
            assert(t.contains(y));
        } else {
            assert(t[s.len() as int] == x);
            assert(t.contains(x));
        }
    }
}

proof fn lemma_seq_head_to_set<A>(s: Seq<A>)
    requires
        s.len() > 0,
    ensures
        s.to_set() =~= s.drop_first().to_set().insert(s[0]),
{
    assert forall|x: A| s.to_set().contains(x) implies s.drop_first().to_set().insert(
        s[0],
    ).contains(x) by {
        let k = choose|k: int| 0 <= k < s.len() && s[k] == x;
        if k > 0 {
            assert(s.drop_first()[k - 1] == x);
            assert(s.drop_first().contains(x));
        }
    }
    assert forall|x: A| s.drop_first().to_set().insert(s[0]).contains(x) implies s.to_set().contains(
        x,
    ) by {
        if s.drop_first().to_set().contains(x) {
            let k = choose|k: int| 0 <= k < s.drop_first().len() && s.drop_first()[k] == x;
            assert(s[k + 1] == x);
            assert(s.contains(x));
        } else {
            assert(x == s[0]);
            assert(s.contains(x));
        }
    }
}

impl Default for ModuleRegistry {
    fn default() -> (r: Self)
        ensures
            r@ == Seq::<(Seq<char>, ProviderV)>::empty(),
    {
        ModuleRegistry::new()
    }
}

proof fn lemma_push_no_duplicates(s: Seq<Seq<char>>, x: Seq<char>)
    requires
        s.no_duplicates(),
        !s.contains(x),
    ensures
        s.push(x).no_duplicates(),
{
    let t = s.push(x);
    assert forall|p: int, q: int| 0 <= p < q < t.len() implies t[p] != t[q] by {
        if q < s.len() {
            assert(t[p] == s[p] && t[q] == s[q]);
        } else {
            assert(t[q] == x);
            assert(t[p] == s[p]);
            assert(s.contains(s[p]));
        }
    }
}

} // verus!
