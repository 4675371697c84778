//! The working-directory provider: shows the current directory relative to
//! home (with `~`), absolutely, as its basename, or truncated to a display
//! width. The directory and home lookups happen before the render; this
//! provider formats the strings it is given.

use vstd::prelude::*;

use crate::chars::push_char;
use crate::chars::str_eq;
use crate::error::ErrorV;
use crate::error::PromptError;
use crate::module_trait::Module;
use crate::module_trait::ModuleContext;
use crate::modules::utils::display_width;
use crate::modules::utils::width_of_char;
use crate::modules::utils::width_of_str;

verus! {

/// Shows the current working directory, from directory and home paths
/// supplied at construction.
pub struct PathModule {
    current_dir: Option<String>,
    home_dir: Option<String>,
}

/// The mathematical value of a `PathModule`: the current directory and the
/// home directory, either of which may be unknown.
#[verifier::ext_equal]
pub struct PathModuleV {
    pub current_dir: Option<Seq<char>>,
    pub home_dir: Option<Seq<char>>,
}

impl View for PathModule {
    type V = PathModuleV;

    closed spec fn view(&self) -> PathModuleV {
        PathModuleV {
            current_dir: self.current_dir.deep_view(),
            home_dir: self.home_dir.deep_view(),
        }
    }
}

/// The current directory with the home prefix folded to `~`: home itself
/// reads as `~`, a directory under home (split at a `/`) as `~/` and the
/// rest, and anything else stays as it is.
pub open spec fn spec_relative_path(current: Seq<char>, home: Option<Seq<char>>) -> Seq<char> {
    match home {
        Some(h) => if current == h {
            "~"@
        } else if h.len() > 0 && current.len() > h.len() && current.take(h.len() as int) == h
            && current[h.len() as int] == '/' {
            "~"@ + current.skip(h.len() as int)
        } else {
            current
        },
        None => current,
    }
}

/// The position of the last `/`, or `-1` if there is none.
pub open spec fn spec_last_slash(s: Seq<char>) -> int
    decreases s.len(),
{
    if s.len() == 0 {
        -1
    } else if s[s.len() - 1] == '/' {
        s.len() - 1
    } else {
        spec_last_slash(s.drop_last())
    }
}

/// The basename of a path: what follows its last `/`, or `.` when that is
/// empty.
pub open spec fn spec_short_path(s: Seq<char>) -> Seq<char> {
    let base = s.skip(spec_last_slash(s) + 1);
    if base.len() == 0 {
        "."@
    } else {
        base
    }
}

/// The numeric value of a digit sequence, most significant digit first.
pub open spec fn spec_digits_val(s: Seq<char>) -> int
    decreases s.len(),
{
    if s.len() == 0 {
        0
    } else {
        spec_digits_val(s.drop_last()) * 10 + (s.last() as int - '0' as int)
    }
}

/// Whether every character is a decimal digit.
pub open spec fn spec_all_digits(s: Seq<char>) -> bool {
    forall|k: int| 0 <= k < s.len() ==> '0' <= #[trigger] s[k] && s[k] <= '9'
}

/// The unsigned number a string parses to: an optional leading `+`, then
/// at least one digit, with a value that fits the machine's word.
pub open spec fn spec_parse_usize(s: Seq<char>) -> Option<int> {
    let body = if s.len() > 0 && s[0] == '+' {
        s.skip(1)
    } else {
        s
    };
    if body.len() > 0 && spec_all_digits(body) && spec_digits_val(body) <= usize::MAX as int {
        Some(spec_digits_val(body))
    } else {
        None
    }
}

/// The greedy prefix that fits a display-width budget: characters are taken
/// from the front while each one's width still fits what is left of the
/// budget.
pub open spec fn spec_width_prefix(s: Seq<char>, budget: int) -> Seq<char>
    decreases s.len(),
{
    if s.len() == 0 {
        Seq::empty()
    } else if display_width(seq![s[0]]) <= budget {
        seq![s[0]] + spec_width_prefix(s.drop_first(), budget - display_width(seq![s[0]]))
    } else {
        Seq::empty()
    }
}

/// A path cut to a display width: kept whole when it fits, otherwise the
/// greedy prefix fitting the width minus three columns, with `...`
/// appended.
pub open spec fn spec_truncate_path(s: Seq<char>, max_width: int) -> Seq<char> {
    if display_width(s) <= max_width {
        s
    } else {
        let target = if max_width >= 3 {
            max_width - 3
        } else {
            0
        };
        spec_width_prefix(s, target) + "..."@
    }
}

/// What the path provider renders: nothing when the current directory is
/// unknown; otherwise the relative form (default, `relative`, `r`), the
/// absolute form (`absolute`, `a`, `f`), the basename (`short`, `s`), or
/// the relative form truncated to `truncate:N` columns (thirty when `N`
/// does not parse). Anything else is an error listing the accepted
/// formats.
pub open spec fn spec_path_render(
    current: Option<Seq<char>>,
    home: Option<Seq<char>>,
    format: Seq<char>,
) -> Result<Option<Seq<char>>, ErrorV> {
    match current {
        None => Ok(None),
        Some(cur) => {
            if format.len() == 0 || format == "relative"@ || format == "r"@ {
                Ok(Some(spec_relative_path(cur, home)))
            } else if format == "absolute"@ || format == "a"@ || format == "f"@ {
                Ok(Some(cur))
            } else if format == "short"@ || format == "s"@ {
                Ok(Some(spec_short_path(cur)))
            } else if format.len() >= 9 && format.take(9) == "truncate:"@ {
                let max_width = match spec_parse_usize(format.skip(9)) {
                    Some(v) => v,
                    None => 30,
                };
                Ok(Some(spec_truncate_path(spec_relative_path(cur, home), max_width)))
            } else {
                Err(
                    ErrorV::InvalidFormat {
                        module: "path"@,
                        format,
                        valid_formats: "relative, r, absolute, a, f, short, s, truncate:N"@,
                    },
                )
            }
        },
    }
}

fn relative_path(current: &str, home: &Option<String>) -> (r: String)
    ensures
        r@ == spec_relative_path(current@, home.deep_view()),
{
    let h = match home {
        Some(h) => h,
        None => {
            return current.to_owned();
        },
    };
    if str_eq(current, h.as_str()) {
        return "~".to_owned();
    }
    let hn = h.as_str().unicode_len();
    let cn = current.unicode_len();
    if hn > 0 && cn > hn && str_eq(current.substring_char(0, hn), h.as_str()) && current.get_char(
        hn,
    ) == '/' {
        let mut out = "~".to_owned();
        out.append(current.substring_char(hn, cn));
        proof {
            assert(current@.subrange(0, hn as int) =~= current@.take(hn as int));
            assert(current@.subrange(hn as int, cn as int) =~= current@.skip(hn as int));
        }
        out
    } else {
        proof {
            assert(current@.subrange(0, hn as int) =~= current@.take(hn as int));
        }
        current.to_owned()
    }
}

fn short_path(current: &str) -> (r: String)
    ensures
        r@ == spec_short_path(current@),
{
    let n = current.unicode_len();
    let mut i: usize = n;
    proof {
        assert(current@.take(n as int) =~= current@);
    }
    while i > 0 && current.get_char(i - 1) != '/'
        invariant
            i <= n,
            n == current@.len(),
            spec_last_slash(current@) == spec_last_slash(current@.take(i as int)),
        decreases i,
    {
        proof {
            assert(current@.take(i as int).drop_last() =~= current@.take(i as int - 1));
        }
        i = i - 1;
    }
    proof {
        let ghost pre = current@.take(i as int);
        if i > 0 {
            assert(pre[pre.len() - 1] == '/');
            assert(spec_last_slash(pre) == i - 1);
        } else {
            assert(pre =~= Seq::<char>::empty());
            assert(spec_last_slash(pre) == -1);
        }
        assert(spec_last_slash(current@) == i - 1);
    }
    if i == n {
        proof {
            assert(current@.skip(n as int) =~= Seq::<char>::empty());
        }
        ".".to_owned()
    } else {
        let r = current.substring_char(i, n).to_owned();
        proof {
            assert(current@.subrange(i as int, n as int) =~= current@.skip(i as int));
        }
        r
    }
}

proof fn lemma_digits_val_nonneg(s: Seq<char>)
    requires
        spec_all_digits(s),
    ensures
        spec_digits_val(s) >= 0,
    decreases s.len(),
{
    if s.len() > 0 {
        assert(spec_all_digits(s.drop_last())) by {
            assert(forall|k: int|
                0 <= k < s.len() - 1 ==> '0' <= #[trigger] s.drop_last()[k] && s.drop_last()[k]
                    <= '9');
        }
        lemma_digits_val_nonneg(s.drop_last());
    }
}

proof fn lemma_digits_val_prefix(s: Seq<char>, i: int)
    requires
        spec_all_digits(s),
        0 <= i <= s.len(),
    ensures
        spec_digits_val(s.take(i)) <= spec_digits_val(s),
    decreases s.len() - i,
{
    if i < s.len() {
        lemma_digits_val_prefix(s, i + 1);
        let t = s.take(i + 1);
        assert(t.drop_last() =~= s.take(i));
        assert(spec_all_digits(t)) by {
            assert(forall|k: int| 0 <= k < t.len() ==> t[k] == s[k]);
        }
        lemma_digits_val_nonneg(s.take(i));
        assert(spec_digits_val(t) == spec_digits_val(s.take(i)) * 10 + (s[i] as int - '0' as int));
        assert(spec_digits_val(s.take(i)) * 10 >= spec_digits_val(s.take(i))) by {
            lemma_digits_val_nonneg(s.take(i));
        }
    } else {
        assert(s.take(i) =~= s);
    }
}

fn parse_usize_field(s: &str) -> (r: Option<usize>)
    ensures
        match r {
            Some(v) => spec_parse_usize(s@) == Some(v as int),
            None => spec_parse_usize(s@) is None,
        },
{
    let n = s.unicode_len();
    let start: usize = if n > 0 && s.get_char(0) == '+' {
        1
    } else {
        0
    };
    let ghost body = if s@.len() > 0 && s@[0] == '+' {
        s@.skip(1)
    } else {
        s@
    };
    proof {
        if start == 1 {
            assert(body =~= s@.skip(1));
        } else {
            assert(body == s@);
        }
    }
    if start == n {
        return None;
    }
    let mut acc: usize = 0;
    let mut i: usize = start;
    proof {
        assert(body.take(0) =~= Seq::<char>::empty());
    }
    while i < n
        invariant
            start <= i <= n,
            n == s@.len(),
            body == (if s@.len() > 0 && s@[0] == '+' {
                s@.skip(1)
            } else {
                s@
            }),
            start == (if s@.len() > 0 && s@[0] == '+' {
                1int
            } else {
                0int
            }),
            body.len() == n - start,
            forall|k: int| 0 <= k < body.len() ==> body[k] == s@[k + start],
            spec_all_digits(body.take(i - start)),
            acc as int == spec_digits_val(body.take(i - start)),
        decreases n - i,
    {
        let c = s.get_char(i);
        let u = c as u32;
        if !(48 <= u && u <= 57) {
            proof {
                assert(body[i - start] == c);
                assert(!('0' <= c && c <= '9'));
                assert(!spec_all_digits(body));
            }
            return None;
        }
        let d = (u - 48) as usize;
        proof {
            assert(d as int == c as int - '0' as int);
        }
        if acc > usize::MAX / 10 || (acc == usize::MAX / 10 && d > usize::MAX % 10) {
            proof {
                let t = body.take(i - start + 1);
                assert(t.drop_last() =~= body.take(i - start));
                assert(t.last() == c);
                assert(spec_digits_val(t) == acc as int * 10 + d);
                assert(acc as int * 10 + d > usize::MAX as int) by (nonlinear_arith)
                    requires
                        acc > usize::MAX / 10 || (acc == usize::MAX / 10 && d > usize::MAX % 10),
                        acc as int <= usize::MAX as int,
                        d < 10,
                ;
                if spec_all_digits(body) {
                    lemma_digits_val_prefix(body, i - start + 1);
                }
            }
            return None;
        }
        let next = acc * 10 + d;
        proof {
            let t = body.take(i - start + 1);
            assert(t.drop_last() =~= body.take(i - start));
            assert(t.last() == c);
            assert(spec_all_digits(t)) by {
                assert(forall|k: int| 0 <= k < t.len() - 1 ==> t[k] == body.take(i - start)[k]);
            }
        }
        acc = next;
        i = i + 1;
    }
    proof {
        assert(body.take(n - start) =~= body);
    }
    Some(acc)
}

fn truncate_to_width(s: &str, max_width: usize) -> (r: String)
    ensures
        r@ == spec_truncate_path(s@, max_width as int),
{
    let total = width_of_str(s);
    if total <= max_width {
        return s.to_owned();
    }
    let target: usize = if max_width >= 3 {
        max_width - 3
    } else {
        0
    };
    let n = s.unicode_len();
    let mut out = String::new();
    let mut remaining: usize = target;
    let mut i: usize = 0;
    proof {
        assert(s@.skip(0) =~= s@);
        assert(out@ + spec_width_prefix(s@, target as int) =~= spec_width_prefix(
            s@,
            target as int,
        ));
    }
    loop
        invariant_except_break
            i <= n,
            n == s@.len(),
            remaining <= target,
            spec_width_prefix(s@, target as int) == out@ + spec_width_prefix(
                s@.skip(i as int),
                remaining as int,
            ),
        ensures
            out@ == spec_width_prefix(s@, target as int),
        decreases n - i,
    {
        if i >= n {
            proof {
                assert(s@.skip(i as int) =~= Seq::<char>::empty());
                assert(out@ + Seq::<char>::empty() =~= out@);
            }
            break;
        }
        let c = s.get_char(i);
        let w = width_of_char(c);
        proof {
            assert(s@.skip(i as int)[0] == c);
        }
        if w > remaining {
            proof {
                assert(spec_width_prefix(s@.skip(i as int), remaining as int)
                    =~= Seq::<char>::empty());
                assert(out@ + Seq::<char>::empty() =~= out@);
            }
            break;
        }
        push_char(&mut out, c);
        proof {
            assert(s@.skip(i as int).drop_first() =~= s@.skip(i as int + 1));
        }
        remaining = remaining - w;
        i = i + 1;
    }
    out.append("...");
    proof {
        assert(out@ =~= spec_truncate_path(s@, max_width as int));
    }
    out
}

impl PathModule {
    /// A provider with no directory information: it renders nothing.
    pub fn new() -> (r: Self)
        ensures
            r@.current_dir is None,
            r@.home_dir is None,
    {
        PathModule { current_dir: None, home_dir: None }
    }

    /// A provider formatting the given current and home directories.
    pub fn with_dirs(current_dir: Option<String>, home_dir: Option<String>) -> (r: Self)
        ensures
            r@.current_dir == current_dir.deep_view(),
            r@.home_dir == home_dir.deep_view(),
    {
        PathModule { current_dir, home_dir }
    }

    /// Renders the working directory, as `spec_path_render` says.
    pub fn render(&self, format: &str, _context: &ModuleContext) -> (r: Result<
        Option<String>,
        PromptError,
    >)
        ensures
            match r {
                Ok(v) => spec_path_render(self@.current_dir, self@.home_dir, format@) == Ok::<
                    Option<Seq<char>>,
                    ErrorV,
                >(v.deep_view()),
                Err(e) => spec_path_render(self@.current_dir, self@.home_dir, format@) == Err::<
                    Option<Seq<char>>,
                    ErrorV,
                >(e@),
            },
    {
        let current = match &self.current_dir {
            Some(c) => c,
            None => {
                return Ok(None);
            },
        };
        let n = format.unicode_len();
        if n == 0 || str_eq(format, "relative") || str_eq(format, "r") {
            Ok(Some(relative_path(current.as_str(), &self.home_dir)))
        } else if str_eq(format, "absolute") || str_eq(format, "a") || str_eq(format, "f") {
            Ok(Some(current.clone()))
        } else if str_eq(format, "short") || str_eq(format, "s") {
            Ok(Some(short_path(current.as_str())))
        } else if n >= 9 && str_eq(format.substring_char(0, 9), "truncate:") {
            proof {
                assert(format@.subrange(0, 9) =~= format@.take(9));
            }
            let arg = format.substring_char(9, n);
            let max_width = match parse_usize_field(arg) {
                Some(v) => v,
                None => 30,
            };
            proof {
                assert(format@.subrange(9, n as int) =~= format@.skip(9));
            }
            let rel = relative_path(current.as_str(), &self.home_dir);
            Ok(Some(truncate_to_width(rel.as_str(), max_width)))
        } else {
            let mut valid = String::new();
            valid.append("relative, r, absolute, a, f, short, s, truncate:N");
            Err(
                PromptError::InvalidFormat {
                    module: "path".to_owned(),
                    format: format.to_owned(),
                    valid_formats: valid,
                },
            )
        }
    }
}

impl Default for PathModule {
    fn default() -> Self {
        PathModule::new()
    }
}

impl Module for PathModule {
    fn render(&self, format: &str, context: &ModuleContext) -> Result<Option<String>, PromptError> {
        PathModule::render(self, format, context)
    }
}

} // verus!
