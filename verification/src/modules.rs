//! The provider modules: each renders one named placeholder kind.

pub mod bun;
pub mod deno;
pub mod elixir;
pub mod env;
pub mod fail;
pub mod git;
pub mod go;
pub mod host;
pub mod node;
pub mod ok;
pub mod path;
pub mod python;
pub mod rust;
pub mod time;
pub mod utils;
pub mod whoami;
