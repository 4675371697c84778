//! The git provider: shows the current branch and, for the full format,
//! one-character flags for unstaged, staged and untracked changes. The
//! repository inspection happens before the render; this provider formats
//! its outcome.

use vstd::prelude::*;

use crate::cache::GitInfo;
use crate::cache::GitInfoV;
use crate::chars::push_char;
use crate::error::ErrorV;
use crate::error::PromptError;
use crate::module_trait::Module;
use crate::module_trait::ModuleContext;

verus! {

/// Shows branch and status flags for the repository the render runs in,
/// from metadata supplied at construction; absent metadata means the
/// render happens outside any repository.
pub struct GitModule {
    info: Option<GitInfo>,
}

impl View for GitModule {
    type V = Option<GitInfoV>;

    closed spec fn view(&self) -> Option<GitInfoV> {
        match self.info {
            Some(ref i) => Some(i@),
            None => None,
        }
    }
}

/// Whether a git format field asks for status flags: the default, `full`
/// and `f` do, `short` and `s` do not, and anything else is unrecognized.
pub open spec fn spec_git_format(f: Seq<char>) -> Option<bool> {
    if f.len() == 0 || f == "full"@ || f == "f"@ {
        Some(true)
    } else if f == "short"@ || f == "s"@ {
        Some(false)
    } else {
        None
    }
}

/// The branch name followed by the status flags: `*` for unstaged changes,
/// `+` for staged ones, `?` for untracked files, in that order.
pub open spec fn spec_git_full_text(info: GitInfoV) -> Seq<char> {
    info.branch + (if info.has_changes {
        seq!['*']
    } else {
        Seq::<char>::empty()
    }) + (if info.has_staged {
        seq!['+']
    } else {
        Seq::<char>::empty()
    }) + (if info.has_untracked {
        seq!['?']
    } else {
        Seq::<char>::empty()
    })
}

/// What the git provider renders: an unrecognized format is an error;
/// outside a repository it contributes nothing; otherwise the branch name,
/// with status flags for the full format.
pub open spec fn spec_git_render(info: Option<GitInfoV>, format: Seq<char>) -> Result<
    Option<Seq<char>>,
    ErrorV,
> {
    match spec_git_format(format) {
        None => Err(
            ErrorV::InvalidFormat {
                module: "git"@,
                format,
                valid_formats: "full, f, short, s"@,
            },
        ),
        Some(full) => match info {
            None => Ok(None),
            Some(i) => if full {
                Ok(Some(spec_git_full_text(i)))
            } else {
                Ok(Some(i.branch))
            },
        },
    }
}

fn validate_git_format<'a>(format: &'a str) -> (r: Result<bool, PromptError>)
    ensures
        match r {
            Ok(full) => spec_git_format(format@) == Some(full),
            Err(e) => spec_git_format(format@) is None && e@ == (ErrorV::InvalidFormat {
                module: "git"@,
                format: format@,
                valid_formats: "full, f, short, s"@,
            }),
        },
{
    if format.unicode_len() == 0 || crate::chars::str_eq(format, "full") || crate::chars::str_eq(
        format,
        "f",
    ) {
        Ok(true)
    } else if crate::chars::str_eq(format, "short") || crate::chars::str_eq(format, "s") {
        Ok(false)
    } else {
        let mut valid = String::new();
        valid.append("full, f, short, s");
        Err(
            PromptError::InvalidFormat {
                module: "git".to_owned(),
                format: format.to_owned(),
                valid_formats: valid,
            },
        )
    }
}

impl GitModule {
    /// A provider outside any repository: it renders nothing.
    pub fn new() -> (r: Self)
        ensures
            r@ is None,
    {
        GitModule { info: None }
    }

    /// A provider formatting the given repository metadata.
    pub fn with_info(info: Option<GitInfo>) -> (r: Self)
        ensures
            match info {
                Some(i) => r@ == Some(i@),
                None => r@ is None,
            },
    {
        GitModule { info }
    }

    /// Renders branch and status flags, as `spec_git_render` says.
    pub fn render(&self, format: &str, _context: &ModuleContext) -> (r: Result<
        Option<String>,
        PromptError,
    >)
        ensures
            match r {
                Ok(v) => spec_git_render(self@, format@) == Ok::<Option<Seq<char>>, ErrorV>(
                    v.deep_view(),
                ),
                Err(e) => spec_git_render(self@, format@) == Err::<Option<Seq<char>>, ErrorV>(e@),
            },
    {
        let full = match validate_git_format(format) {
            Ok(full) => full,
            Err(e) => {
                return Err(e);
            },
        };
        let info = match &self.info {
            None => {
                return Ok(None);
            },
            Some(info) => info,
        };
        if !full {
            return Ok(Some(info.branch.clone()));
        }
        let mut out = info.branch.clone();
        if info.has_changes {
            push_char(&mut out, '*');
        }
        if info.has_staged {
            push_char(&mut out, '+');
        }
        if info.has_untracked {
            push_char(&mut out, '?');
        }
        proof {
            assert(out@ =~= spec_git_full_text(self@.unwrap()));
        }
        Ok(Some(out))
    }
}

impl Default for GitModule {
    fn default() -> Self {
        GitModule::new()
    }
}

impl Module for GitModule {
    fn fs_markers(&self) -> Vec<String> {
        let mut markers = Vec::new();
        markers.push(".git".to_owned());
        markers
    }

    fn render(&self, format: &str, context: &ModuleContext) -> Result<Option<String>, PromptError> {
        GitModule::render(self, format, context)
    }
}

} // verus!
