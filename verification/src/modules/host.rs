//! The hostname provider: shows the machine's hostname, as gathered before
//! the render.

use vstd::prelude::*;

use crate::error::PromptError;
use crate::module_trait::Module;
use crate::module_trait::ModuleContext;

verus! {

/// Shows the machine's hostname, supplied at construction.
pub struct HostModule {
    hostname: Option<String>,
}

impl View for HostModule {
    type V = Option<Seq<char>>;

    closed spec fn view(&self) -> Option<Seq<char>> {
        self.hostname.deep_view()
    }
}

impl HostModule {
    /// A provider with no hostname: it renders nothing.
    pub fn new() -> (r: Self)
        ensures
            r@ is None,
    {
        HostModule { hostname: None }
    }

    /// A provider showing the given hostname.
    pub fn with_hostname(hostname: Option<String>) -> (r: Self)
        ensures
            r@ == hostname.deep_view(),
    {
        HostModule { hostname }
    }

    /// Renders the hostname whatever the format field says; it never fails.
    pub fn render(&self, _format: &str, _context: &ModuleContext) -> (r: Result<
        Option<String>,
        PromptError,
    >)
        ensures
            match r {
                Ok(v) => v.deep_view() == self@,
                Err(_) => false,
            },
    {
        match &self.hostname {
            Some(h) => Ok(Some(h.clone())),
            None => Ok(None),
        }
    }
}

impl Default for HostModule {
    fn default() -> Self {
        HostModule::new()
    }
}

impl Module for HostModule {
    fn render(&self, format: &str, context: &ModuleContext) -> Result<Option<String>, PromptError> {
        HostModule::render(self, format, context)
    }
}

} // verus!
