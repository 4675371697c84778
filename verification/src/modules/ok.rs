//! The success indicator: fires only when the last command exited with
//! status zero.

use vstd::prelude::*;

use crate::error::PromptError;
use crate::module_trait::Module;
use crate::module_trait::ModuleContext;

verus! {

/// Shows a prompt symbol after a successful command.
pub struct OkModule;

/// What the success indicator renders: nothing unless the exit code is
/// zero; then the default symbol, the literal code `0` for the `code`
/// format, or the format text itself as a custom symbol.
pub open spec fn spec_ok_render(format: Seq<char>, exit_code: Option<i32>) -> Option<Seq<char>> {
    if exit_code != Some(0i32) {
        None
    } else if format.len() == 0 {
        Some("\u{276f}"@)
    } else if format == "code"@ {
        Some("0"@)
    } else {
        Some(format)
    }
}

impl OkModule {
    pub fn new() -> (r: Self) {
        OkModule
    }

    /// Renders the success indicator, as `spec_ok_render` says; it never
    /// fails.
    pub fn render(&self, format: &str, context: &ModuleContext) -> (r: Result<
        Option<String>,
        PromptError,
    >)
        ensures
            match r {
                Ok(v) => v.deep_view() == spec_ok_render(format@, context.exit_code),
                Err(_) => false,
            },
    {
        let is_zero = match context.exit_code {
            Some(code) => code == 0,
            None => false,
        };
        if !is_zero {
            return Ok(None);
        }
        if format.unicode_len() == 0 {
            Ok(Some("\u{276f}".to_owned()))
        } else if crate::chars::str_eq(format, "code") {
            Ok(Some("0".to_owned()))
        } else {
            Ok(Some(format.to_owned()))
        }
    }
}

impl Default for OkModule {
    fn default() -> Self {
        OkModule::new()
    }
}

impl Module for OkModule {
    fn render(&self, format: &str, context: &ModuleContext) -> Result<Option<String>, PromptError> {
        OkModule::render(self, format, context)
    }
}

} // verus!
