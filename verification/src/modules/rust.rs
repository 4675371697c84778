//! The rust version provider: shows the rust toolchain version inside
//! a project that uses it, as looked up before the render.

use vstd::prelude::*;


use crate::detector::spec_marker_lookup;
use crate::error::PromptError;
use crate::module_trait::Module;
use crate::module_trait::ModuleContext;
use crate::modules::utils::render_version_module;
use crate::modules::utils::spec_render_version_module;

verus! {

/// Shows the rust version when the render happens inside a matching
/// project, from a version string supplied at construction.
pub struct RustModule {
    version: Option<String>,
}

impl View for RustModule {
    type V = Option<Seq<char>>;

    closed spec fn view(&self) -> Option<Seq<char>> {
        self.version.deep_view()
    }
}

/// Whether the render happens inside a project this provider applies to:
/// the `Cargo.toml` marker was found.
pub open spec fn spec_rust_applies(markers: Seq<(Seq<char>, Seq<char>)>) -> bool {
    spec_marker_lookup(markers, "Cargo.toml"@) is Some
}

impl RustModule {
    /// A provider with no version recorded: it renders nothing beyond the
    /// bare tool name.
    pub fn new() -> (r: Self)
        ensures
            r@ is None,
    {
        RustModule { version: None }
    }

    /// A provider showing the given version lookup outcome.
    pub fn with_version(version: Option<String>) -> (r: Self)
        ensures
            r@ == version.deep_view(),
    {
        RustModule { version }
    }

    /// Renders the version, as `spec_render_version_module` says.
    pub fn render(&self, format: &str, context: &ModuleContext) -> (r: Result<
        Option<String>,
        PromptError,
    >)
        ensures
            match r {
                Ok(v) => spec_render_version_module(
                    spec_rust_applies(context.detection@),
                    context.no_version,
                    "rust"@,
                    self@,
                    format@,
                    "rust"@,
                ) == Ok::<Option<Seq<char>>, crate::error::ErrorV>(v.deep_view()),
                Err(e) => spec_render_version_module(
                    spec_rust_applies(context.detection@),
                    context.no_version,
                    "rust"@,
                    self@,
                    format@,
                    "rust"@,
                ) == Err::<Option<Seq<char>>, crate::error::ErrorV>(e@),
            },
    {
        let found = context.marker_path("Cargo.toml").is_some();
        render_version_module(found, context.no_version, "rust", &self.version, format, "rust")
    }
}

impl Default for RustModule {
    fn default() -> Self {
        RustModule::new()
    }
}

impl Module for RustModule {
    fn fs_markers(&self) -> Vec<String> {
        let mut markers = Vec::new();
        markers.push("Cargo.toml".to_owned());
        markers
    }

    fn render(&self, format: &str, context: &ModuleContext) -> Result<Option<String>, PromptError> {
        RustModule::render(self, format, context)
    }
}


/// The version in `rustc --version` output: its second word.
pub fn parse_rustc_version(stdout: &str) -> (r: Option<String>)
    ensures
        match r {
            Some(v) => crate::modules::utils::spec_nth_word(stdout@, 1) == Some(v@),
            None => crate::modules::utils::spec_nth_word(stdout@, 1) is None,
        },
{
    crate::modules::utils::nth_word(stdout, 1)
}

} // verus!
