//! The failure indicator: fires only when the last command exited with a
//! non-zero status.

use vstd::prelude::*;

use crate::chars::i32_to_string;
use crate::chars::spec_int_digits;
use crate::error::PromptError;
use crate::module_trait::Module;
use crate::module_trait::ModuleContext;

verus! {

/// Shows a prompt symbol after a failed command.
pub struct FailModule;

/// What the failure indicator renders: nothing unless the exit code is
/// present and non-zero (a missing code counts as success); then the
/// default symbol (also under `full`), the decimal exit code for the
/// `code` format, or the format text itself as a custom symbol.
pub open spec fn spec_fail_render(format: Seq<char>, exit_code: Option<i32>) -> Option<Seq<char>> {
    let code = match exit_code {
        Some(c) => c,
        None => 0i32,
    };
    if code == 0 {
        None
    } else if format.len() == 0 || format == "full"@ {
        Some("\u{276f}"@)
    } else if format == "code"@ {
        Some(spec_int_digits(code as int))
    } else {
        Some(format)
    }
}

impl FailModule {
    pub fn new() -> (r: Self) {
        FailModule
    }

    /// Renders the failure indicator, as `spec_fail_render` says; it never
    /// fails.
    pub fn render(&self, format: &str, context: &ModuleContext) -> (r: Result<
        Option<String>,
        PromptError,
    >)
        ensures
            match r {
                Ok(v) => v.deep_view() == spec_fail_render(format@, context.exit_code),
                Err(_) => false,
            },
    {
        let code = match context.exit_code {
            Some(c) => c,
            None => 0,
        };
        if code == 0 {
            return Ok(None);
        }
        if format.unicode_len() == 0 || crate::chars::str_eq(format, "full") {
            Ok(Some("\u{276f}".to_owned()))
        } else if crate::chars::str_eq(format, "code") {
            Ok(Some(i32_to_string(code)))
        } else {
            Ok(Some(format.to_owned()))
        }
    }
}

impl Default for FailModule {
    fn default() -> Self {
        FailModule::new()
    }
}

impl Module for FailModule {
    fn render(&self, format: &str, context: &ModuleContext) -> Result<Option<String>, PromptError> {
        FailModule::render(self, format, context)
    }
}

} // verus!
