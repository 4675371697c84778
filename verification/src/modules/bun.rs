//! The bun version provider: shows the bun toolchain version inside
//! a project that uses it, as looked up before the render.

use vstd::prelude::*;


use crate::detector::spec_marker_lookup;
use crate::error::PromptError;
use crate::module_trait::Module;
use crate::module_trait::ModuleContext;
use crate::modules::utils::render_version_module;
use crate::modules::utils::spec_render_version_module;

verus! {

/// Shows the bun version when the render happens inside a matching
/// project, from a version string supplied at construction.
pub struct BunModule {
    version: Option<String>,
}

impl View for BunModule {
    type V = Option<Seq<char>>;

    closed spec fn view(&self) -> Option<Seq<char>> {
        self.version.deep_view()
    }
}

/// Whether the render happens inside a project this provider applies to:
/// one of the markers `bun.lockb`, `bunfig.toml` was found.
pub open spec fn spec_bun_applies(markers: Seq<(Seq<char>, Seq<char>)>) -> bool {
    spec_marker_lookup(markers, "bun.lockb"@) is Some
        || spec_marker_lookup(markers, "bunfig.toml"@) is Some
}

impl BunModule {
    /// A provider with no version recorded: it renders nothing beyond the
    /// bare tool name.
    pub fn new() -> (r: Self)
        ensures
            r@ is None,
    {
        BunModule { version: None }
    }

    /// A provider showing the given version lookup outcome.
    pub fn with_version(version: Option<String>) -> (r: Self)
        ensures
            r@ == version.deep_view(),
    {
        BunModule { version }
    }

    /// Renders the version, as `spec_render_version_module` says.
    pub fn render(&self, format: &str, context: &ModuleContext) -> (r: Result<
        Option<String>,
        PromptError,
    >)
        ensures
            match r {
                Ok(v) => spec_render_version_module(
                    spec_bun_applies(context.detection@),
                    context.no_version,
                    "bun"@,
                    self@,
                    format@,
                    "bun"@,
                ) == Ok::<Option<Seq<char>>, crate::error::ErrorV>(v.deep_view()),
                Err(e) => spec_render_version_module(
                    spec_bun_applies(context.detection@),
                    context.no_version,
                    "bun"@,
                    self@,
                    format@,
                    "bun"@,
                ) == Err::<Option<Seq<char>>, crate::error::ErrorV>(e@),
            },
    {
        let found = context.marker_path("bun.lockb").is_some() || context.marker_path("bunfig.toml").is_some();
        render_version_module(found, context.no_version, "bun", &self.version, format, "bun")
    }
}

impl Default for BunModule {
    fn default() -> Self {
        BunModule::new()
    }
}

impl Module for BunModule {
    fn fs_markers(&self) -> Vec<String> {
        let mut markers = Vec::new();
        markers.push("bun.lockb".to_owned());
        markers.push("bunfig.toml".to_owned());
        markers
    }

    fn render(&self, format: &str, context: &ModuleContext) -> Result<Option<String>, PromptError> {
        BunModule::render(self, format, context)
    }
}


/// The version in `bun --version` output: the whole output, trimmed.
pub fn bun_version_from_output(stdout: &str) -> (r: String)
    ensures
        r@ == crate::modules::utils::spec_trimmed(stdout@),
{
    crate::modules::utils::trim_blanks(stdout)
}

} // verus!
