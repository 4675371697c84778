//! The username provider: shows the current user's name, as gathered
//! before the render.

use vstd::prelude::*;

use crate::error::PromptError;
use crate::module_trait::Module;
use crate::module_trait::ModuleContext;

verus! {

/// Shows the current user's name, supplied at construction.
pub struct WhoamiModule {
    username: Option<String>,
}

impl View for WhoamiModule {
    type V = Option<Seq<char>>;

    closed spec fn view(&self) -> Option<Seq<char>> {
        self.username.deep_view()
    }
}

impl WhoamiModule {
    /// A provider with no username: it renders nothing.
    pub fn new() -> (r: Self)
        ensures
            r@ is None,
    {
        WhoamiModule { username: None }
    }

    /// A provider showing the given username.
    pub fn with_username(username: Option<String>) -> (r: Self)
        ensures
            r@ == username.deep_view(),
    {
        WhoamiModule { username }
    }

    /// Renders the username whatever the format field says; it never fails.
    pub fn render(&self, _format: &str, _context: &ModuleContext) -> (r: Result<
        Option<String>,
        PromptError,
    >)
        ensures
            match r {
                Ok(v) => v.deep_view() == self@,
                Err(_) => false,
            },
    {
        match &self.username {
            Some(u) => Ok(Some(u.clone())),
            None => Ok(None),
        }
    }
}

impl Default for WhoamiModule {
    fn default() -> Self {
        WhoamiModule::new()
    }
}

impl Module for WhoamiModule {
    fn render(&self, format: &str, context: &ModuleContext) -> Result<Option<String>, PromptError> {
        WhoamiModule::render(self, format, context)
    }
}

} // verus!
