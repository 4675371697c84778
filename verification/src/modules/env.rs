//! The environment-variable provider: renders the value of the variable
//! named by its format field, from a snapshot taken before the render.

use vstd::prelude::*;

use crate::cache::spec_assoc_lookup;
use crate::chars::str_eq;
use crate::error::ErrorV;
use crate::error::PromptError;
use crate::module_trait::Module;
use crate::module_trait::ModuleContext;

verus! {

/// Shows the value of an environment variable, looked up in a snapshot of
/// name-value pairs supplied at construction.
pub struct EnvModule {
    values: Vec<(String, String)>,
}

impl View for EnvModule {
    type V = Seq<(Seq<char>, Seq<char>)>;

    closed spec fn view(&self) -> Seq<(Seq<char>, Seq<char>)> {
        self.values.deep_view()
    }
}

/// What the environment provider renders: an empty format field is an
/// error asking for a variable name; a variable that is missing from the
/// snapshot, or present with an empty value, contributes nothing; any other
/// value is shown as it is.
pub open spec fn spec_env_render(values: Seq<(Seq<char>, Seq<char>)>, format: Seq<char>) -> Result<
    Option<Seq<char>>,
    ErrorV,
> {
    if format.len() == 0 {
        Err(
            ErrorV::InvalidFormat {
                module: "env"@,
                format,
                valid_formats: "Provide an environment variable name, e.g., {env:blue:USER}"@,
            },
        )
    } else {
        match spec_assoc_lookup(values, format) {
            None => Ok(None),
            Some(v) => if v.len() == 0 {
                Ok(None)
            } else {
                Ok(Some(v))
            },
        }
    }
}

impl EnvModule {
    /// A provider with an empty snapshot: every variable reads as missing.
    pub fn new() -> (r: Self)
        ensures
            r@ == Seq::<(Seq<char>, Seq<char>)>::empty(),
    {
        let r = EnvModule { values: Vec::new() };
        proof {
            assert(r@ =~= Seq::<(Seq<char>, Seq<char>)>::empty());
        }
        r
    }

    /// A provider reading from the given name-value snapshot.
    pub fn with_values(values: Vec<(String, String)>) -> (r: Self)
        ensures
            r@ == values.deep_view(),
    {
        EnvModule { values }
    }

    /// Renders the named variable's value, as `spec_env_render` says.
    pub fn render(&self, format: &str, _context: &ModuleContext) -> (r: Result<
        Option<String>,
        PromptError,
    >)
        ensures
            match r {
                Ok(v) => spec_env_render(self@, format@) == Ok::<Option<Seq<char>>, ErrorV>(
                    v.deep_view(),
                ),
                Err(e) => spec_env_render(self@, format@) == Err::<Option<Seq<char>>, ErrorV>(e@),
            },
    {
        if format.unicode_len() == 0 {
            let mut valid = String::new();
            valid.append("Provide an environment variable name, e.g., {env:blue:USER}");
            return Err(
                PromptError::InvalidFormat {
                    module: "env".to_owned(),
                    format: format.to_owned(),
                    valid_formats: valid,
                },
            );
        }
        let ghost all = self@;
        let n = self.values.len();
        proof {
            assert(self@.skip(0) =~= self@);
        }
        let mut i: usize = 0;
        while i < n
            invariant
                i <= n,
                n == self.values.len(),
                all == self@,
                format@.len() != 0,
                spec_assoc_lookup(all, format@) == spec_assoc_lookup(self@.skip(i as int), format@),
            decreases n - i,
        {
            proof {
                assert(self@.skip(i as int)[0] == self@[i as int]);
                assert(self@.skip(i as int).drop_first() =~= self@.skip(i as int + 1));
            }
            if str_eq(self.values[i].0.as_str(), format) {
                let value = &self.values[i].1;
                proof {
                    assert(self@[i as int] == (self.values[i as int].0@, self.values[i as int].1@));
                    assert(spec_assoc_lookup(all, format@) == Some(value@));
                }
                if value.as_str().unicode_len() == 0 {
                    return Ok(None);
                }
                return Ok(Some(value.clone()));
            }
            i = i + 1;
        }
        proof {
            assert(self@.skip(n as int) =~= Seq::<(Seq<char>, Seq<char>)>::empty());
        }
        Ok(None)
    }
}

impl Default for EnvModule {
    fn default() -> Self {
        EnvModule::new()
    }
}

impl Module for EnvModule {
    fn render(&self, format: &str, context: &ModuleContext) -> Result<Option<String>, PromptError> {
        EnvModule::render(self, format, context)
    }
}

} // verus!
