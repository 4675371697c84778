//! The python version provider: shows the python toolchain version inside
//! a project that uses it, as looked up before the render.

use vstd::prelude::*;


use crate::detector::spec_marker_lookup;
use crate::error::PromptError;
use crate::module_trait::Module;
use crate::module_trait::ModuleContext;
use crate::modules::utils::render_version_module;
use crate::modules::utils::spec_render_version_module;

verus! {

/// Shows the python version when the render happens inside a matching
/// project, from a version string supplied at construction.
pub struct PythonModule {
    version: Option<String>,
}

impl View for PythonModule {
    type V = Option<Seq<char>>;

    closed spec fn view(&self) -> Option<Seq<char>> {
        self.version.deep_view()
    }
}

/// Whether the render happens inside a project this provider applies to:
/// one of the markers `requirements.txt`, `pyproject.toml`, `setup.py` was found.
pub open spec fn spec_python_applies(markers: Seq<(Seq<char>, Seq<char>)>) -> bool {
    spec_marker_lookup(markers, "requirements.txt"@) is Some
        || spec_marker_lookup(markers, "pyproject.toml"@) is Some
        || spec_marker_lookup(markers, "setup.py"@) is Some
}

impl PythonModule {
    /// A provider with no version recorded: it renders nothing beyond the
    /// bare tool name.
    pub fn new() -> (r: Self)
        ensures
            r@ is None,
    {
        PythonModule { version: None }
    }

    /// A provider showing the given version lookup outcome.
    pub fn with_version(version: Option<String>) -> (r: Self)
        ensures
            r@ == version.deep_view(),
    {
        PythonModule { version }
    }

    /// Renders the version, as `spec_render_version_module` says.
    pub fn render(&self, format: &str, context: &ModuleContext) -> (r: Result<
        Option<String>,
        PromptError,
    >)
        ensures
            match r {
                Ok(v) => spec_render_version_module(
                    spec_python_applies(context.detection@),
                    context.no_version,
                    ""@,
                    self@,
                    format@,
                    "python"@,
                ) == Ok::<Option<Seq<char>>, crate::error::ErrorV>(v.deep_view()),
                Err(e) => spec_render_version_module(
                    spec_python_applies(context.detection@),
                    context.no_version,
                    ""@,
                    self@,
                    format@,
                    "python"@,
                ) == Err::<Option<Seq<char>>, crate::error::ErrorV>(e@),
            },
    {
        let found = context.marker_path("requirements.txt").is_some() || context.marker_path("pyproject.toml").is_some() || context.marker_path("setup.py").is_some();
        render_version_module(found, context.no_version, "", &self.version, format, "python")
    }
}

impl Default for PythonModule {
    fn default() -> Self {
        PythonModule::new()
    }
}

impl Module for PythonModule {
    fn fs_markers(&self) -> Vec<String> {
        let mut markers = Vec::new();
        markers.push("requirements.txt".to_owned());
        markers.push("pyproject.toml".to_owned());
        markers.push("setup.py".to_owned());
        markers
    }

    fn render(&self, format: &str, context: &ModuleContext) -> Result<Option<String>, PromptError> {
        PythonModule::render(self, format, context)
    }
}


/// The version in `python --version` output: its second word.
pub fn python_version_from_output(stdout: &str) -> (r: Option<String>)
    ensures
        match r {
            Some(v) => crate::modules::utils::spec_nth_word(stdout@, 1) == Some(v@),
            None => crate::modules::utils::spec_nth_word(stdout@, 1) is None,
        },
{
    crate::modules::utils::nth_word(stdout, 1)
}

} // verus!
