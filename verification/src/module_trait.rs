//! The provider interface: every module renders an optional value for a
//! format string and a shared, immutable per-render context.

use vstd::prelude::*;

use crate::detector::DetectionContext;
use crate::detector::spec_marker_lookup;
use crate::error::PromptError;
use crate::style::Shell;

verus! {

/// The immutable per-render bundle every provider reads: flags, the exit
/// code of the last command, the marker snapshot and the target shell.
#[derive(Debug, Clone)]
pub struct ModuleContext {
    /// Skip slow version lookups.
    pub no_version: bool,
    /// The exit code of the last command, if the caller passed one.
    pub exit_code: Option<i32>,
    /// The pre-resolved filesystem markers.
    pub detection: DetectionContext,
    /// The shell whose prompt receives the output.
    pub shell: Shell,
}

/// The mathematical value of a `ModuleContext`.
#[verifier::ext_equal]
pub struct CtxV {
    pub no_version: bool,
    pub exit_code: Option<i32>,
    pub markers: Seq<(Seq<char>, Seq<char>)>,
    pub shell: Shell,
}

impl View for ModuleContext {
    type V = CtxV;

    open spec fn view(&self) -> CtxV {
        CtxV {
            no_version: self.no_version,
            exit_code: self.exit_code,
            markers: self.detection@,
            shell: self.shell,
        }
    }
}

impl ModuleContext {
    /// The path a marker was found at, if any.
    pub fn marker_path(&self, marker: &str) -> (r: Option<&String>)
        ensures
            match r {
                Some(p) => spec_marker_lookup(self.detection@, marker@) == Some(p@),
                None => spec_marker_lookup(self.detection@, marker@) is None,
            },
    {
        self.detection.get(marker)
    }
}

impl Default for ModuleContext {
    fn default() -> (r: Self)
        ensures
            !r.no_version,
            r.exit_code is None,
            r.detection@ == Seq::<(Seq<char>, Seq<char>)>::empty(),
            r.shell == Shell::Plain,
    {
        ModuleContext {
            no_version: false,
            exit_code: None,
            detection: DetectionContext::empty(),
            shell: Shell::Plain,
        }
    }
}

/// What every provider offers: the markers it wants pre-resolved, and the
/// rendering of one placeholder value.
pub trait Module {
    /// The marker files or directories this provider reads through the
    /// context.
    fn fs_markers(&self) -> Vec<String> {
        Vec::new()
    }

    /// The text this provider contributes for a format string, `None` when
    /// it does not apply.
    fn render(&self, format: &str, context: &ModuleContext) -> Result<
        Option<String>,
        PromptError,
    >;
}

} // verus!
