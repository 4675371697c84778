//! A compiled template: a token sequence parsed once and rendered many
//! times against different registries and contexts, with a precomputed
//! output-size estimate.

use vstd::prelude::*;

use crate::error::ErrorV;
use crate::error::PromptError;
use crate::executor::estimate_output_size;
use crate::executor::render_tokens_sequential;
use crate::executor::spec_render_tokens;
use crate::module_trait::ModuleContext;
use crate::parser::Token;
use crate::parser::TokenV;
use crate::parser::parse;
use crate::parser::spec_parse;
use crate::registry::ModuleRegistry;

verus! {

/// A parsed template held for repeated rendering.
pub struct Template {
    tokens: Vec<Token>,
    estimated_size: usize,
}

impl View for Template {
    type V = Seq<TokenV>;

    closed spec fn view(&self) -> Seq<TokenV> {
        self.tokens.deep_view()
    }
}

impl Template {
    /// Parses a template string once, keeping its tokens and an estimate of
    /// the rendered size.
    pub fn new(template: &str) -> (r: Self)
        ensures
            r@ == spec_parse(template@),
    {
        let tokens = parse(template);
        let estimated_size = estimate_output_size(template.len());
        Template { tokens, estimated_size }
    }

    /// Renders the compiled tokens against a registry and context, walking
    /// them in order.
    pub fn render(
        &self,
        registry: &ModuleRegistry,
        context: &ModuleContext,
        no_color: bool,
    ) -> (r: Result<String, PromptError>)
        ensures
            match r {
                Ok(s) => spec_render_tokens(self@, registry@, context@, no_color) == Ok::<
                    Seq<char>,
                    ErrorV,
                >(s@),
                Err(e) => spec_render_tokens(self@, registry@, context@, no_color) == Err::<
                    Seq<char>,
                    ErrorV,
                >(e@),
            },
    {
        render_tokens_sequential(&self.tokens, registry, context, no_color, self.estimated_size)
    }

    /// The compiled tokens, in rendering order.
    pub fn tokens(&self) -> (r: &Vec<Token>)
        ensures
            r.deep_view() == self@,
    {
        &self.tokens
    }

    /// How many tokens the template compiled to.
    pub fn token_count(&self) -> (r: usize)
        ensures
            r as nat == self@.len(),
    {
        self.tokens.len()
    }
}

} // verus!
