//! What the version-reporting providers share: the format-field vocabulary
//! (`full`, `short`, `major` and their one-letter forms), trimming a version
//! string to the requested precision, and the display-width measure used for
//! path truncation.

use vstd::prelude::*;

use crate::error::ErrorV;
use crate::error::PromptError;

verus! {

/// The display width, in terminal columns, that `unicode_width` assigns to a
/// string: a pure function of the characters alone.
pub uninterp spec fn display_width(s: Seq<char>) -> nat;

/// Relies on unicode_width's `UnicodeWidthStr::width`: the displayed column
/// width of the string, computed from its characters alone.
#[verifier::external_body]
pub fn width_of_str(s: &str) -> (w: usize)
    ensures
        w as nat == display_width(s@),
{
    unicode_width::UnicodeWidthStr::width(s)
}

/// Relies on unicode_width's `UnicodeWidthStr::width`, applied to the
/// one-character string holding `c`.
#[verifier::external_body]
pub fn width_of_char(c: char) -> (w: usize)
    ensures
        w as nat == display_width(seq![c]),
{
    let mut s = String::new();
    s.push(c);
    unicode_width::UnicodeWidthStr::width(s.as_str())
}

/// The canonical version format a format field selects: `full` (also the
/// default and `f`), `short` (`s`) or `major` (`m`); `None` for anything
/// else.
pub open spec fn spec_version_format(f: Seq<char>) -> Option<Seq<char>> {
    if f.len() == 0 || f == "full"@ || f == "f"@ {
        Some("full"@)
    } else if f == "short"@ || f == "s"@ {
        Some("short"@)
    } else if f == "major"@ || f == "m"@ {
        Some("major"@)
    } else {
        None
    }
}

/// The error a provider reports for an unrecognized version format field.
pub open spec fn spec_version_format_error(module: Seq<char>, f: Seq<char>) -> ErrorV {
    ErrorV::InvalidFormat {
        module,
        format: f,
        valid_formats: "full, f, short, s, major, m"@,
    }
}

/// Checks a version format field, handing back its canonical name.
pub fn validate_version_format<'a>(format: &'a str, module_name: &str) -> (r: Result<
    &'static str,
    PromptError,
>)
    ensures
        match r {
            Ok(s) => spec_version_format(format@) == Some(s@),
            Err(e) => spec_version_format(format@) is None && e@ == spec_version_format_error(
                module_name@,
                format@,
            ),
        },
{
    if format.unicode_len() == 0 || crate::chars::str_eq(format, "full") || crate::chars::str_eq(
        format,
        "f",
    ) {
        Ok("full")
    } else if crate::chars::str_eq(format, "short") || crate::chars::str_eq(format, "s") {
        Ok("short")
    } else if crate::chars::str_eq(format, "major") || crate::chars::str_eq(format, "m") {
        Ok("major")
    } else {
        let mut valid = String::new();
        valid.append("full, f, short, s, major, m");
        Err(
            PromptError::InvalidFormat {
                module: module_name.to_owned(),
                format: format.to_owned(),
                valid_formats: valid,
            },
        )
    }
}

/// The position of the first `.` in a version string at or after `i`, or
/// its length.
pub open spec fn version_dot(s: Seq<char>, i: int) -> int
    decreases s.len() - i,
    when 0 <= i <= s.len()
{
    if i >= s.len() {
        s.len() as int
    } else if s[i] == '.' {
        i
    } else {
        version_dot(s, i + 1)
    }
}

pub proof fn lemma_version_dot_bounds(s: Seq<char>, i: int)
    requires
        0 <= i <= s.len(),
    ensures
        i <= version_dot(s, i) <= s.len(),
        version_dot(s, i) < s.len() ==> s[version_dot(s, i)] == '.',
    decreases s.len() - i,
{
    if i < s.len() && s[i] != '.' {
        lemma_version_dot_bounds(s, i + 1);
    }
}

/// A version string cut to the requested precision: `major` keeps what
/// stands before the first dot, `short` what stands before the second dot,
/// and `full` everything. A version with fewer parts is kept whole.
pub open spec fn spec_version_text(v: Seq<char>, kind: Seq<char>) -> Seq<char> {
    if kind == "major"@ {
        v.take(version_dot(v, 0))
    } else if kind == "short"@ {
        let d1 = version_dot(v, 0);
        if d1 == v.len() {
            v
        } else {
            v.take(version_dot(v, d1 + 1))
        }
    } else {
        v
    }
}

/// What every version-reporting provider renders: nothing when its project
/// marker is absent, its bare tool name when version lookups are switched
/// off, and otherwise its version at the requested precision — nothing when
/// the lookup found no version. An unrecognized format is an error.
pub open spec fn spec_render_version_module(
    marker_found: bool,
    no_version: bool,
    placeholder: Seq<char>,
    version: Option<Seq<char>>,
    format: Seq<char>,
    module_name: Seq<char>,
) -> Result<Option<Seq<char>>, ErrorV> {
    if !marker_found {
        Ok(None)
    } else if no_version {
        Ok(Some(placeholder))
    } else {
        match spec_version_format(format) {
            None => Err(spec_version_format_error(module_name, format)),
            Some(kind) => match version {
                None => Ok(None),
                Some(v) => Ok(Some(spec_version_text(v, kind))),
            },
        }
    }
}

/// The shared body of the version-reporting providers, as
/// `spec_render_version_module` says.
pub fn render_version_module(
    marker_found: bool,
    no_version: bool,
    placeholder: &str,
    version: &Option<String>,
    format: &str,
    module_name: &str,
) -> (r: Result<Option<String>, PromptError>)
    ensures
        match r {
            Ok(v) => spec_render_version_module(
                marker_found,
                no_version,
                placeholder@,
                version.deep_view(),
                format@,
                module_name@,
            ) == Ok::<Option<Seq<char>>, ErrorV>(v.deep_view()),
            Err(e) => spec_render_version_module(
                marker_found,
                no_version,
                placeholder@,
                version.deep_view(),
                format@,
                module_name@,
            ) == Err::<Option<Seq<char>>, ErrorV>(e@),
        },
{
    if !marker_found {
        return Ok(None);
    }
    if no_version {
        return Ok(Some(placeholder.to_owned()));
    }
    let kind = match validate_version_format(format, module_name) {
        Ok(kind) => kind,
        Err(e) => {
            return Err(e);
        },
    };
    match version {
        None => Ok(None),
        Some(v) => Ok(Some(version_text(v.as_str(), kind))),
    }
}

fn find_version_dot(s: &str, from: usize) -> (j: usize)
    requires
        from <= s@.len(),
    ensures
        j == version_dot(s@, from as int),
        from <= j <= s@.len(),
{
    let n = s.unicode_len();
    let mut i: usize = from;
    while i < n
        invariant
            from <= i <= n,
            n == s@.len(),
            version_dot(s@, from as int) == version_dot(s@, i as int),
        decreases n - i,
    {
        if s.get_char(i) == '.' {
            return i;
        }
        i = i + 1;
    }
    n
}

/// Cuts a version string to a canonical format's precision.
pub fn version_text(version: &str, kind: &str) -> (r: String)
    requires
        kind@ == "full"@ || kind@ == "short"@ || kind@ == "major"@,
    ensures
        r@ == spec_version_text(version@, kind@),
{
    let n = version.unicode_len();
    if crate::chars::str_eq(kind, "major") {
        let d = find_version_dot(version, 0);
        let r = version.substring_char(0, d).to_owned();
        proof {
            assert(version@.subrange(0, version_dot(version@, 0)) =~= version@.take(
                version_dot(version@, 0),
            ));
        }
        r
    } else if crate::chars::str_eq(kind, "short") {
        let d1 = find_version_dot(version, 0);
        if d1 == n {
            version.to_owned()
        } else {
            let d2 = find_version_dot(version, d1 + 1);
            let r = version.substring_char(0, d2).to_owned();
            proof {
                assert(version@.subrange(0, version_dot(version@, d1 as int + 1)) =~= version@.take(
                    version_dot(version@, d1 as int + 1),
                ));
            }
            r
        }
    } else {
        version.to_owned()
    }
}

} // verus!
// The version-reporting providers read their tool's version from command
// output. Extracting the version from that output is plain text work, so it
// stands here, verified; only the command invocations stay outside.

verus! {

/// Whether a character separates words in tool output: ASCII whitespace.
pub open spec fn spec_is_blank(c: char) -> bool {
    c == ' ' || c == '\t' || c == '\n' || c == '\r'
}

/// The first non-blank position at or after `i`, or the length of `s`.
pub open spec fn blank_skip(s: Seq<char>, i: int) -> int
    decreases s.len() - i,
    when 0 <= i <= s.len()
{
    if i >= s.len() {
        s.len() as int
    } else if spec_is_blank(s[i]) {
        blank_skip(s, i + 1)
    } else {
        i
    }
}

/// The first blank position at or after `i`, or the length of `s`.
pub open spec fn blank_end(s: Seq<char>, i: int) -> int
    decreases s.len() - i,
    when 0 <= i <= s.len()
{
    if i >= s.len() {
        s.len() as int
    } else if spec_is_blank(s[i]) {
        i
    } else {
        blank_end(s, i + 1)
    }
}

pub proof fn lemma_blank_skip_bounds(s: Seq<char>, i: int)
    requires
        0 <= i <= s.len(),
    ensures
        i <= blank_skip(s, i) <= s.len(),
        blank_skip(s, i) < s.len() ==> !spec_is_blank(s[blank_skip(s, i)]),
    decreases s.len() - i,
{
    if i < s.len() && spec_is_blank(s[i]) {
        lemma_blank_skip_bounds(s, i + 1);
    }
}

pub proof fn lemma_blank_end_bounds(s: Seq<char>, i: int)
    requires
        0 <= i <= s.len(),
    ensures
        i <= blank_end(s, i) <= s.len(),
        blank_end(s, i) < s.len() ==> spec_is_blank(s[blank_end(s, i)]),
    decreases s.len() - i,
{
    if i < s.len() && !spec_is_blank(s[i]) {
        lemma_blank_end_bounds(s, i + 1);
    }
}

/// The word with the given zero-based index among the blank-separated words
/// at or after position `i`, if there are that many.
pub open spec fn spec_word_after(s: Seq<char>, i: int, n: nat) -> Option<Seq<char>>
    decreases n, s.len() - i,
    when 0 <= i <= s.len()
    via spec_word_after_decreases
{
    let a = blank_skip(s, i);
    if a >= s.len() {
        None
    } else if n == 0 {
        Some(s.subrange(a, blank_end(s, a)))
    } else {
        spec_word_after(s, blank_end(s, a), (n - 1) as nat)
    }
}

#[via_fn]
proof fn spec_word_after_decreases(s: Seq<char>, i: int, n: nat) {
    if 0 <= i <= s.len() {
        lemma_blank_skip_bounds(s, i);
        lemma_blank_end_bounds(s, blank_skip(s, i));
    }
}

/// The word with the given zero-based index among a text's blank-separated
/// words, if there are that many.
pub open spec fn spec_nth_word(s: Seq<char>, n: nat) -> Option<Seq<char>> {
    spec_word_after(s, 0, n)
}

fn is_blank_char(c: char) -> (r: bool)
    ensures
        r == spec_is_blank(c),
{
    c == ' ' || c == '\t' || c == '\n' || c == '\r'
}

fn skip_blanks(s: &str, from: usize) -> (j: usize)
    requires
        from <= s@.len(),
    ensures
        j == blank_skip(s@, from as int),
        from <= j <= s@.len(),
    decreases s@.len() - from,
{
    let n = s.unicode_len();
    let mut i: usize = from;
    while i < n && is_blank_char(s.get_char(i))
        invariant
            from <= i <= n,
            n == s@.len(),
            blank_skip(s@, from as int) == blank_skip(s@, i as int),
        decreases n - i,
    {
        i = i + 1;
    }
    i
}

fn find_blank(s: &str, from: usize) -> (j: usize)
    requires
        from <= s@.len(),
    ensures
        j == blank_end(s@, from as int),
        from <= j <= s@.len(),
    decreases s@.len() - from,
{
    let n = s.unicode_len();
    let mut i: usize = from;
    while i < n && !is_blank_char(s.get_char(i))
        invariant
            from <= i <= n,
            n == s@.len(),
            blank_end(s@, from as int) == blank_end(s@, i as int),
        decreases n - i,
    {
        i = i + 1;
    }
    i
}

/// The blank-separated word with the given zero-based index, as
/// `spec_nth_word` says.
pub fn nth_word(s: &str, n: usize) -> (r: Option<String>)
    ensures
        match r {
            Some(w) => spec_nth_word(s@, n as nat) == Some(w@),
            None => spec_nth_word(s@, n as nat) is None,
        },
{
    let len = s.unicode_len();
    let mut i: usize = 0;
    let mut remaining: usize = n;
    loop
        invariant
            i <= len,
            len == s@.len(),
            remaining <= n,
            spec_nth_word(s@, n as nat) == spec_word_after(s@, i as int, remaining as nat),
        decreases remaining, len - i,
    {
        let a = skip_blanks(s, i);
        if a >= len {
            return None;
        }
        let e = find_blank(s, a);
        if remaining == 0 {
            let w = s.substring_char(a, e).to_owned();
            proof {
                assert(s@.subrange(a as int, e as int) == s@.subrange(
                    blank_skip(s@, i as int),
                    blank_end(s@, blank_skip(s@, i as int)),
                ));
            }
            return Some(w);
        }
        proof {
            lemma_blank_end_bounds(s@, a as int);
        }
        remaining = remaining - 1;
        i = e;
    }
}

/// A text without leading and trailing blanks: what `trim` keeps.
pub open spec fn spec_trimmed(s: Seq<char>) -> Seq<char>
    decreases s.len(),
{
    if s.len() > 0 && spec_is_blank(s[0]) {
        spec_trimmed(s.drop_first())
    } else if s.len() > 0 && spec_is_blank(s[s.len() - 1]) {
        spec_trimmed(s.drop_last())
    } else {
        s
    }
}

/// Trims leading and trailing blanks, as `spec_trimmed` says.
pub fn trim_blanks(s: &str) -> (r: String)
    ensures
        r@ == spec_trimmed(s@),
{
    let n = s.unicode_len();
    proof {
        assert(s@.subrange(0, n as int) =~= s@);
    }
    let mut a: usize = 0;
    while a < n && is_blank_char(s.get_char(a))
        invariant
            a <= n,
            n == s@.len(),
            spec_trimmed(s@) == spec_trimmed(s@.subrange(a as int, n as int)),
        decreases n - a,
    {
        proof {
            let ghost tail = s@.subrange(a as int, n as int);
            assert(tail.drop_first() =~= s@.subrange(a as int + 1, n as int));
        }
        a = a + 1;
    }
    let mut b: usize = n;
    while b > a && is_blank_char(s.get_char(b - 1))
        invariant
            a <= b <= n,
            n == s@.len(),
            a < n ==> !spec_is_blank(s@[a as int]),
            spec_trimmed(s@) == spec_trimmed(s@.subrange(a as int, b as int)),
        decreases b,
    {
        proof {
            let ghost mid = s@.subrange(a as int, b as int);
            assert(mid[0] == s@[a as int]);
            assert(mid.drop_last() =~= s@.subrange(a as int, b as int - 1));
        }
        b = b - 1;
    }
    proof {
        let ghost mid = s@.subrange(a as int, b as int);
        if b > a {
            assert(mid[0] == s@[a as int]);
            assert(!spec_is_blank(mid[mid.len() - 1]));
        } else {
            assert(mid =~= Seq::<char>::empty());
        }
        assert(spec_trimmed(mid) == mid);
    }
    s.substring_char(a, b).to_owned()
}

/// A text without its leading copies of one character.
pub open spec fn spec_strip_leading(s: Seq<char>, c: char) -> Seq<char>
    decreases s.len(),
{
    if s.len() > 0 && s[0] == c {
        spec_strip_leading(s.drop_first(), c)
    } else {
        s
    }
}

/// Strips leading copies of one character, as `spec_strip_leading` says.
pub fn strip_leading(s: &str, c: char) -> (r: String)
    ensures
        r@ == spec_strip_leading(s@, c),
{
    let n = s.unicode_len();
    proof {
        assert(s@.subrange(0, n as int) =~= s@);
    }
    let mut a: usize = 0;
    while a < n && s.get_char(a) == c
        invariant
            a <= n,
            n == s@.len(),
            spec_strip_leading(s@, c) == spec_strip_leading(s@.subrange(a as int, n as int), c),
        decreases n - a,
    {
        proof {
            let ghost tail = s@.subrange(a as int, n as int);
            assert(tail.drop_first() =~= s@.subrange(a as int + 1, n as int));
        }
        a = a + 1;
    }
    proof {
        let ghost tail = s@.subrange(a as int, n as int);
        if a < n {
            assert(tail[0] != c);
        }
        assert(spec_strip_leading(tail, c) == tail);
    }
    s.substring_char(a, n).to_owned()
}

/// The first line of a text: everything before the first newline.
pub open spec fn spec_first_line(s: Seq<char>) -> Seq<char> {
    s.take(line_break(s, 0))
}

/// The position of the first newline at or after `i`, or the length of `s`.
pub open spec fn line_break(s: Seq<char>, i: int) -> int
    decreases s.len() - i,
    when 0 <= i <= s.len()
{
    if i >= s.len() {
        s.len() as int
    } else if s[i] == '\n' {
        i
    } else {
        line_break(s, i + 1)
    }
}

/// The first line of a text, as `spec_first_line` says.
pub fn first_line(s: &str) -> (r: String)
    ensures
        r@ == spec_first_line(s@),
{
    let n = s.unicode_len();
    let mut i: usize = 0;
    while i < n && s.get_char(i) != '\n'
        invariant
            i <= n,
            n == s@.len(),
            line_break(s@, 0) == line_break(s@, i as int),
        decreases n - i,
    {
        i = i + 1;
    }
    let r = s.substring_char(0, i).to_owned();
    proof {
        assert(s@.subrange(0, i as int) =~= s@.take(i as int));
    }
    r
}

} // verus!
