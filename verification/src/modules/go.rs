//! The go version provider: shows the go toolchain version inside
//! a project that uses it, as looked up before the render.

use vstd::prelude::*;


use crate::detector::spec_marker_lookup;
use crate::error::PromptError;
use crate::module_trait::Module;
use crate::module_trait::ModuleContext;
use crate::modules::utils::render_version_module;
use crate::modules::utils::spec_render_version_module;

verus! {

/// Shows the go version when the render happens inside a matching
/// project, from a version string supplied at construction.
pub struct GoModule {
    version: Option<String>,
}

impl View for GoModule {
    type V = Option<Seq<char>>;

    closed spec fn view(&self) -> Option<Seq<char>> {
        self.version.deep_view()
    }
}

/// Whether the render happens inside a project this provider applies to:
/// the `go.mod` marker was found.
pub open spec fn spec_go_applies(markers: Seq<(Seq<char>, Seq<char>)>) -> bool {
    spec_marker_lookup(markers, "go.mod"@) is Some
}

impl GoModule {
    /// A provider with no version recorded: it renders nothing beyond the
    /// bare tool name.
    pub fn new() -> (r: Self)
        ensures
            r@ is None,
    {
        GoModule { version: None }
    }

    /// A provider showing the given version lookup outcome.
    pub fn with_version(version: Option<String>) -> (r: Self)
        ensures
            r@ == version.deep_view(),
    {
        GoModule { version }
    }

    /// Renders the version, as `spec_render_version_module` says.
    pub fn render(&self, format: &str, context: &ModuleContext) -> (r: Result<
        Option<String>,
        PromptError,
    >)
        ensures
            match r {
                Ok(v) => spec_render_version_module(
                    spec_go_applies(context.detection@),
                    context.no_version,
                    "go"@,
                    self@,
                    format@,
                    "go"@,
                ) == Ok::<Option<Seq<char>>, crate::error::ErrorV>(v.deep_view()),
                Err(e) => spec_render_version_module(
                    spec_go_applies(context.detection@),
                    context.no_version,
                    "go"@,
                    self@,
                    format@,
                    "go"@,
                ) == Err::<Option<Seq<char>>, crate::error::ErrorV>(e@),
            },
    {
        let found = context.marker_path("go.mod").is_some();
        render_version_module(found, context.no_version, "go", &self.version, format, "go")
    }
}

impl Default for GoModule {
    fn default() -> Self {
        GoModule::new()
    }
}

impl Module for GoModule {
    fn fs_markers(&self) -> Vec<String> {
        let mut markers = Vec::new();
        markers.push("go.mod".to_owned());
        markers
    }

    fn render(&self, format: &str, context: &ModuleContext) -> Result<Option<String>, PromptError> {
        GoModule::render(self, format, context)
    }
}


/// A word without its leading repetitions of the `go` prefix.
pub open spec fn spec_strip_go(s: Seq<char>) -> Seq<char>
    decreases s.len(),
{
    if s.len() >= 2 && s[0] == 'g' && s[1] == 'o' {
        spec_strip_go(s.skip(2))
    } else {
        s
    }
}

/// The version in `go version` output: its third word, with any leading
/// `go` prefixes dropped.
pub fn go_version_from_output(stdout: &str) -> (r: Option<String>)
    ensures
        match r {
            Some(v) => match crate::modules::utils::spec_nth_word(stdout@, 2) {
                Some(w) => v@ == spec_strip_go(w),
                None => false,
            },
            None => crate::modules::utils::spec_nth_word(stdout@, 2) is None,
        },
{
    let word = match crate::modules::utils::nth_word(stdout, 2) {
        Some(w) => w,
        None => {
            return None;
        },
    };
    let s = word.as_str();
    let n = s.unicode_len();
    proof {
        assert(s@.subrange(0, n as int) =~= s@);
    }
    let mut a: usize = 0;
    while n - a >= 2 && s.get_char(a) == 'g' && s.get_char(a + 1) == 'o'
        invariant
            a <= n,
            n == s@.len(),
            spec_strip_go(s@) == spec_strip_go(s@.subrange(a as int, n as int)),
        decreases n - a,
    {
        proof {
            let ghost tail = s@.subrange(a as int, n as int);
            assert(tail.skip(2) =~= s@.subrange(a as int + 2, n as int));
        }
        a = a + 2;
    }
    proof {
        let ghost tail = s@.subrange(a as int, n as int);
        if n - a >= 2 {
            assert(!(tail[0] == 'g' && tail[1] == 'o'));
        }
        assert(spec_strip_go(tail) == tail);
    }
    Some(s.substring_char(a, n).to_owned())
}

} // verus!
