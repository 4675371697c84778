//! The elixir version provider: shows the elixir toolchain version inside
//! a project that uses it, as looked up before the render.

use vstd::prelude::*;

use crate::detector::spec_marker_lookup;
use crate::error::PromptError;
use crate::module_trait::Module;
use crate::module_trait::ModuleContext;
use crate::modules::utils::render_version_module;
use crate::modules::utils::spec_render_version_module;

verus! {

/// Shows the elixir version when the render happens inside a matching
/// project, from a version string supplied at construction.
pub struct ElixirModule {
    version: Option<String>,
}

impl View for ElixirModule {
    type V = Option<Seq<char>>;

    closed spec fn view(&self) -> Option<Seq<char>> {
        self.version.deep_view()
    }
}

/// Whether the render happens inside a project this provider applies to:
/// the `mix.exs` marker was found.
pub open spec fn spec_elixir_applies(markers: Seq<(Seq<char>, Seq<char>)>) -> bool {
    spec_marker_lookup(markers, "mix.exs"@) is Some
}

impl ElixirModule {
    /// A provider with no version recorded: it renders nothing beyond the
    /// bare tool name.
    pub fn new() -> (r: Self)
        ensures
            r@ is None,
    {
        ElixirModule { version: None }
    }

    /// A provider showing the given version lookup outcome.
    pub fn with_version(version: Option<String>) -> (r: Self)
        ensures
            r@ == version.deep_view(),
    {
        ElixirModule { version }
    }

    /// Renders the version, as `spec_render_version_module` says.
    pub fn render(&self, format: &str, context: &ModuleContext) -> (r: Result<
        Option<String>,
        PromptError,
    >)
        ensures
            match r {
                Ok(v) => spec_render_version_module(
                    spec_elixir_applies(context.detection@),
                    context.no_version,
                    "elixir"@,
                    self@,
                    format@,
                    "elixir"@,
                ) == Ok::<Option<Seq<char>>, crate::error::ErrorV>(v.deep_view()),
                Err(e) => spec_render_version_module(
                    spec_elixir_applies(context.detection@),
                    context.no_version,
                    "elixir"@,
                    self@,
                    format@,
                    "elixir"@,
                ) == Err::<Option<Seq<char>>, crate::error::ErrorV>(e@),
            },
    {
        let found = context.marker_path("mix.exs").is_some();
        render_version_module(found, context.no_version, "elixir", &self.version, format, "elixir")
    }
}

impl Default for ElixirModule {
    fn default() -> Self {
        ElixirModule::new()
    }
}

impl Module for ElixirModule {
    fn fs_markers(&self) -> Vec<String> {
        let mut markers = Vec::new();
        markers.push("mix.exs".to_owned());
        markers
    }

    fn render(&self, format: &str, context: &ModuleContext) -> Result<Option<String>, PromptError> {
        ElixirModule::render(self, format, context)
    }
}

} // verus!
