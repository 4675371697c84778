//! A prompt template library: a template string such as
//! `"{path:cyan} {git:purple}"` is parsed into literal-text and placeholder
//! tokens, each placeholder is resolved against a named provider module, and
//! the results are decorated with prefixes, suffixes and ANSI styling and
//! concatenated into the final prompt string.

pub mod cache;
pub mod chars;
pub mod detector;
pub mod error;
pub mod executor;
pub mod memo;
pub mod module_trait;
pub mod modules;
pub mod parser;
pub mod registry;
pub mod style;
pub mod template;

pub use error::PromptError;
pub use executor::SystemProbe;
pub use executor::execute;
pub use executor::execute_with_shell;
pub use executor::render_template;
pub use executor::template_markers;
pub use module_trait::Module;
pub use module_trait::ModuleContext;
pub use parser::Params;
pub use parser::Token;
pub use parser::parse;
pub use registry::ModuleRegistry;
pub use registry::Provider;
pub use style::AnsiStyle;
pub use style::ModuleStyle;
pub use style::Shell;
pub use template::Template;
