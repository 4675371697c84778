//! The deno version provider: shows the deno toolchain version inside
//! a project that uses it, as looked up before the render.

use vstd::prelude::*;


use crate::detector::spec_marker_lookup;
use crate::error::PromptError;
use crate::module_trait::Module;
use crate::module_trait::ModuleContext;
use crate::modules::utils::render_version_module;
use crate::modules::utils::spec_render_version_module;

verus! {

/// Shows the deno version when the render happens inside a matching
/// project, from a version string supplied at construction.
pub struct DenoModule {
    version: Option<String>,
}

impl View for DenoModule {
    type V = Option<Seq<char>>;

    closed spec fn view(&self) -> Option<Seq<char>> {
        self.version.deep_view()
    }
}

/// Whether the render happens inside a project this provider applies to:
/// one of the markers `deno.json`, `deno.jsonc` was found.
pub open spec fn spec_deno_applies(markers: Seq<(Seq<char>, Seq<char>)>) -> bool {
    spec_marker_lookup(markers, "deno.json"@) is Some
        || spec_marker_lookup(markers, "deno.jsonc"@) is Some
}

impl DenoModule {
    /// A provider with no version recorded: it renders nothing beyond the
    /// bare tool name.
    pub fn new() -> (r: Self)
        ensures
            r@ is None,
    {
        DenoModule { version: None }
    }

    /// A provider showing the given version lookup outcome.
    pub fn with_version(version: Option<String>) -> (r: Self)
        ensures
            r@ == version.deep_view(),
    {
        DenoModule { version }
    }

    /// Renders the version, as `spec_render_version_module` says.
    pub fn render(&self, format: &str, context: &ModuleContext) -> (r: Result<
        Option<String>,
        PromptError,
    >)
        ensures
            match r {
                Ok(v) => spec_render_version_module(
                    spec_deno_applies(context.detection@),
                    context.no_version,
                    "deno"@,
                    self@,
                    format@,
                    "deno"@,
                ) == Ok::<Option<Seq<char>>, crate::error::ErrorV>(v.deep_view()),
                Err(e) => spec_render_version_module(
                    spec_deno_applies(context.detection@),
                    context.no_version,
                    "deno"@,
                    self@,
                    format@,
                    "deno"@,
                ) == Err::<Option<Seq<char>>, crate::error::ErrorV>(e@),
            },
    {
        let found = context.marker_path("deno.json").is_some() || context.marker_path("deno.jsonc").is_some();
        render_version_module(found, context.no_version, "deno", &self.version, format, "deno")
    }
}

impl Default for DenoModule {
    fn default() -> Self {
        DenoModule::new()
    }
}

impl Module for DenoModule {
    fn fs_markers(&self) -> Vec<String> {
        let mut markers = Vec::new();
        markers.push("deno.json".to_owned());
        markers.push("deno.jsonc".to_owned());
        markers
    }

    fn render(&self, format: &str, context: &ModuleContext) -> Result<Option<String>, PromptError> {
        DenoModule::render(self, format, context)
    }
}


/// The version in `deno --version` output: the second word of its first
/// line.
pub fn deno_version_from_output(stdout: &str) -> (r: Option<String>)
    ensures
        match r {
            Some(v) => crate::modules::utils::spec_nth_word(
                crate::modules::utils::spec_first_line(stdout@),
                1,
            ) == Some(v@),
            None => crate::modules::utils::spec_nth_word(
                crate::modules::utils::spec_first_line(stdout@),
                1,
            ) is None,
        },
{
    let line = crate::modules::utils::first_line(stdout);
    crate::modules::utils::nth_word(line.as_str(), 1)
}

} // verus!
