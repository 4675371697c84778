//! The node version provider: shows the node toolchain version inside
//! a project that uses it, as looked up before the render.

use vstd::prelude::*;


use crate::detector::spec_marker_lookup;
use crate::error::PromptError;
use crate::module_trait::Module;
use crate::module_trait::ModuleContext;
use crate::modules::utils::render_version_module;
use crate::modules::utils::spec_render_version_module;

verus! {

/// Shows the node version when the render happens inside a matching
/// project, from a version string supplied at construction.
pub struct NodeModule {
    version: Option<String>,
}

impl View for NodeModule {
    type V = Option<Seq<char>>;

    closed spec fn view(&self) -> Option<Seq<char>> {
        self.version.deep_view()
    }
}

/// Whether the render happens inside a project this provider applies to:
/// the `package.json` marker was found.
pub open spec fn spec_node_applies(markers: Seq<(Seq<char>, Seq<char>)>) -> bool {
    spec_marker_lookup(markers, "package.json"@) is Some
}

impl NodeModule {
    /// A provider with no version recorded: it renders nothing beyond the
    /// bare tool name.
    pub fn new() -> (r: Self)
        ensures
            r@ is None,
    {
        NodeModule { version: None }
    }

    /// A provider showing the given version lookup outcome.
    pub fn with_version(version: Option<String>) -> (r: Self)
        ensures
            r@ == version.deep_view(),
    {
        NodeModule { version }
    }

    /// Renders the version, as `spec_render_version_module` says.
    pub fn render(&self, format: &str, context: &ModuleContext) -> (r: Result<
        Option<String>,
        PromptError,
    >)
        ensures
            match r {
                Ok(v) => spec_render_version_module(
                    spec_node_applies(context.detection@),
                    context.no_version,
                    "node"@,
                    self@,
                    format@,
                    "node"@,
                ) == Ok::<Option<Seq<char>>, crate::error::ErrorV>(v.deep_view()),
                Err(e) => spec_render_version_module(
                    spec_node_applies(context.detection@),
                    context.no_version,
                    "node"@,
                    self@,
                    format@,
                    "node"@,
                ) == Err::<Option<Seq<char>>, crate::error::ErrorV>(e@),
            },
    {
        let found = context.marker_path("package.json").is_some();
        render_version_module(found, context.no_version, "node", &self.version, format, "node")
    }
}

impl Default for NodeModule {
    fn default() -> Self {
        NodeModule::new()
    }
}

impl Module for NodeModule {
    fn fs_markers(&self) -> Vec<String> {
        let mut markers = Vec::new();
        markers.push("package.json".to_owned());
        markers
    }

    fn render(&self, format: &str, context: &ModuleContext) -> Result<Option<String>, PromptError> {
        NodeModule::render(self, format, context)
    }
}


/// The version in `node --version` output: trimmed, with the leading `v`
/// dropped.
pub fn node_version_from_output(stdout: &str) -> (r: String)
    ensures
        r@ == crate::modules::utils::spec_strip_leading(
            crate::modules::utils::spec_trimmed(stdout@),
            'v',
        ),
{
    let trimmed = crate::modules::utils::trim_blanks(stdout);
    crate::modules::utils::strip_leading(trimmed.as_str(), 'v')
}

} // verus!
