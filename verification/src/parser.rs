//! The template lexer: turns a template string into a sequence of
//! literal-text and placeholder tokens.
//!
//! The scanner walks the input looking for `{`, `}` and `\`. Text between
//! those is emitted unchanged as one token. `\` followed by one of
//! `{ } \ n t :` decodes to the corresponding literal character; any other
//! `\` passes through. `{` opens a placeholder attempt: if a matching
//! unescaped `}` follows and the content yields a non-empty module name, a
//! placeholder token is produced, otherwise the `{` itself degrades to
//! literal text. The placeholder body is split on unescaped `:` into at most
//! five fields (module, style, format, prefix, suffix); the suffix keeps any
//! further colons, and each field is unescaped on its own.

use vstd::prelude::*;

use crate::chars::char_to_string;
use crate::chars::push_char;

verus! {

/// The parsed content of one placeholder.
#[derive(Debug, Clone, PartialEq)]
pub struct Params {
    pub module: String,
    pub style: String,
    pub format: String,
    pub prefix: String,
    pub suffix: String,
}

/// One lexed unit of a template: a literal text run or a placeholder.
#[derive(Debug, Clone, PartialEq)]
pub enum Token {
    Text(String),
    Placeholder(Params),
}

/// The mathematical value of a `Params`: its five fields as character
/// sequences.
#[verifier::ext_equal]
pub struct ParamsV {
    pub module: Seq<char>,
    pub style: Seq<char>,
    pub format: Seq<char>,
    pub prefix: Seq<char>,
    pub suffix: Seq<char>,
}

/// The mathematical value of a `Token`.
#[verifier::ext_equal]
pub enum TokenV {
    Text(Seq<char>),
    Placeholder(ParamsV),
}

impl View for Params {
    type V = ParamsV;

    open spec fn view(&self) -> ParamsV {
        ParamsV {
            module: self.module@,
            style: self.style@,
            format: self.format@,
            prefix: self.prefix@,
            suffix: self.suffix@,
        }
    }
}

impl DeepView for Params {
    type V = ParamsV;

    open spec fn deep_view(&self) -> ParamsV {
        self.view()
    }
}

impl View for Token {
    type V = TokenV;

    open spec fn view(&self) -> TokenV {
        match self {
            Token::Text(s) => TokenV::Text(s@),
            Token::Placeholder(p) => TokenV::Placeholder(p@),
        }
    }
}

impl DeepView for Token {
    type V = TokenV;

    open spec fn deep_view(&self) -> TokenV {
        self.view()
    }
}

/// A character that interrupts a literal text run: `{`, `}` or `\`.
pub open spec fn is_special(c: char) -> bool {
    c == '{' || c == '}' || c == '\\'
}

/// A character that may follow a backslash to form one of the six
/// recognized escapes.
pub open spec fn is_escapable(c: char) -> bool {
    c == '{' || c == '}' || c == '\\' || c == 'n' || c == 't' || c == ':'
}

/// The literal character an escape pair `\c` decodes to.
pub open spec fn escaped_char(c: char) -> char {
    if c == 'n' {
        '\n'
    } else if c == 't' {
        '\t'
    } else {
        c
    }
}

/// The position of the first special character at or after `i`, or the
/// length of `s` if there is none.
pub open spec fn next_special(s: Seq<char>, i: int) -> int
    decreases s.len() - i,
    when 0 <= i <= s.len()
{
    if i >= s.len() {
        i
    } else if is_special(s[i]) {
        i
    } else {
        next_special(s, i + 1)
    }
}

pub proof fn lemma_next_special(s: Seq<char>, i: int)
    requires
        0 <= i <= s.len(),
    ensures
        i <= next_special(s, i) <= s.len(),
        forall|k: int| i <= k < next_special(s, i) ==> !is_special(s[k]),
        next_special(s, i) < s.len() ==> is_special(s[next_special(s, i)]),
    decreases s.len() - i,
{
    if i < s.len() && !is_special(s[i]) {
        lemma_next_special(s, i + 1);
    }
}

/// The position of the closing `}` for a placeholder whose body starts at
/// `i`, skipping over escape pairs so that `\}` does not terminate it; `None`
/// if the placeholder is never closed.
pub open spec fn find_close(s: Seq<char>, i: int) -> Option<int>
    decreases s.len() - i,
    when 0 <= i <= s.len()
{
    if i >= s.len() {
        None
    } else if s[i] == '}' {
        Some(i)
    } else if s[i] == '\\' {
        if i + 2 <= s.len() {
            find_close(s, i + 2)
        } else {
            None
        }
    } else {
        find_close(s, i + 1)
    }
}

pub proof fn lemma_find_close_bounds(s: Seq<char>, i: int)
    requires
        0 <= i <= s.len(),
    ensures
        match find_close(s, i) {
            Some(j) => i <= j < s.len() && s[j] == '}',
            None => true,
        },
    decreases s.len() - i,
{
    if i < s.len() && s[i] != '}' {
        if s[i] == '\\' {
            if i + 2 <= s.len() {
                lemma_find_close_bounds(s, i + 2);
            }
        } else {
            lemma_find_close_bounds(s, i + 1);
        }
    }
}

/// The position of the first unescaped `:` at or after `i`, or the length of
/// `s` if there is none. Escape pairs are skipped whole, so `\:` does not
/// split a field.
pub open spec fn field_end(s: Seq<char>, i: int) -> int
    decreases s.len() - i,
    when 0 <= i <= s.len()
{
    if i >= s.len() {
        s.len() as int
    } else if s[i] == ':' {
        i
    } else if s[i] == '\\' {
        if i + 2 <= s.len() {
            field_end(s, i + 2)
        } else {
            s.len() as int
        }
    } else {
        field_end(s, i + 1)
    }
}

pub proof fn lemma_field_end_bounds(s: Seq<char>, i: int)
    requires
        0 <= i <= s.len(),
    ensures
        i <= field_end(s, i) <= s.len(),
        field_end(s, i) < s.len() ==> s[field_end(s, i)] == ':',
    decreases s.len() - i,
{
    if i < s.len() && s[i] != ':' {
        if s[i] == '\\' {
            if i + 2 <= s.len() {
                lemma_field_end_bounds(s, i + 2);
            }
        } else {
            lemma_field_end_bounds(s, i + 1);
        }
    }
}

/// The decoded form of a field or text run starting at position `i`: the six
/// escape pairs decode to their literal character, an unrecognized pair is
/// kept whole, and a trailing backslash stays.
pub open spec fn unescape_from(s: Seq<char>, i: int) -> Seq<char>
    decreases s.len() - i,
    when 0 <= i <= s.len()
{
    if i >= s.len() {
        Seq::empty()
    } else if s[i] == '\\' {
        if i + 1 < s.len() {
            if is_escapable(s[i + 1]) {
                seq![escaped_char(s[i + 1])] + unescape_from(s, i + 2)
            } else {
                seq!['\\', s[i + 1]] + unescape_from(s, i + 2)
            }
        } else {
            seq!['\\']
        }
    } else {
        seq![s[i]] + unescape_from(s, i + 1)
    }
}

/// The decoded form of a whole field.
pub open spec fn spec_unescape(s: Seq<char>) -> Seq<char> {
    unescape_from(s, 0)
}

/// The raw (still escaped) five fields of a placeholder body: the body is
/// split at its first four unescaped colons, and everything after the fourth
/// belongs to the suffix.
pub open spec fn spec_raw_fields(s: Seq<char>) -> (Seq<char>, Seq<char>, Seq<char>, Seq<
    char,
>, Seq<char>) {
    let e0 = field_end(s, 0);
    if e0 == s.len() {
        (s, Seq::empty(), Seq::empty(), Seq::empty(), Seq::empty())
    } else {
        let e1 = field_end(s, e0 + 1);
        if e1 == s.len() {
            (
                s.subrange(0, e0),
                s.subrange(e0 + 1, s.len() as int),
                Seq::empty(),
                Seq::empty(),
                Seq::empty(),
            )
        } else {
            let e2 = field_end(s, e1 + 1);
            if e2 == s.len() {
                (
                    s.subrange(0, e0),
                    s.subrange(e0 + 1, e1),
                    s.subrange(e1 + 1, s.len() as int),
                    Seq::empty(),
                    Seq::empty(),
                )
            } else {
                let e3 = field_end(s, e2 + 1);
                if e3 == s.len() {
                    (
                        s.subrange(0, e0),
                        s.subrange(e0 + 1, e1),
                        s.subrange(e1 + 1, e2),
                        s.subrange(e2 + 1, s.len() as int),
                        Seq::empty(),
                    )
                } else {
                    (
                        s.subrange(0, e0),
                        s.subrange(e0 + 1, e1),
                        s.subrange(e1 + 1, e2),
                        s.subrange(e2 + 1, e3),
                        s.subrange(e3 + 1, s.len() as int),
                    )
                }
            }
        }
    }
}

/// Whether a placeholder body yields a non-empty module name.
pub open spec fn placeholder_valid(content: Seq<char>) -> bool {
    spec_raw_fields(content).0.len() > 0
}

/// The decoded parameters of a placeholder body.
pub open spec fn spec_params(content: Seq<char>) -> ParamsV {
    let f = spec_raw_fields(content);
    ParamsV {
        module: spec_unescape(f.0),
        style: spec_unescape(f.1),
        format: spec_unescape(f.2),
        prefix: spec_unescape(f.3),
        suffix: spec_unescape(f.4),
    }
}

/// The token sequence produced by scanning `s` from position `pos`.
pub open spec fn scan_from(s: Seq<char>, pos: int) -> Seq<TokenV>
    decreases s.len() - pos,
    when 0 <= pos <= s.len()
    via scan_from_decreases
{
    if pos >= s.len() {
        Seq::empty()
    } else {
        let j = next_special(s, pos);
        if j > pos {
            seq![TokenV::Text(s.subrange(pos, j))] + scan_from(s, j)
        } else if s[pos] == '\\' {
            if pos + 1 < s.len() {
                if is_escapable(s[pos + 1]) {
                    seq![TokenV::Text(seq![escaped_char(s[pos + 1])])] + scan_from(s, pos + 2)
                } else {
                    seq![TokenV::Text(seq!['\\'])] + scan_from(s, pos + 1)
                }
            } else {
                seq![TokenV::Text(seq!['\\'])]
            }
        } else if s[pos] == '{' {
            match find_close(s, pos + 1) {
                Some(close) => {
                    let content = s.subrange(pos + 1, close);
                    if placeholder_valid(content) {
                        seq![TokenV::Placeholder(spec_params(content))] + scan_from(s, close + 1)
                    } else {
                        seq![TokenV::Text(seq!['{'])] + scan_from(s, pos + 1)
                    }
                },
                None => seq![TokenV::Text(seq!['{'])] + scan_from(s, pos + 1),
            }
        } else {
            seq![TokenV::Text(seq!['}'])] + scan_from(s, pos + 1)
        }
    }
}

#[via_fn]
proof fn scan_from_decreases(s: Seq<char>, pos: int) {
    if 0 <= pos < s.len() {
        lemma_next_special(s, pos);
        if s[pos] == '{' {
            lemma_find_close_bounds(s, pos + 1);
        }
    }
}

/// The token sequence of a whole template.
pub open spec fn spec_parse(s: Seq<char>) -> Seq<TokenV> {
    scan_from(s, 0)
}

/// The number of `{` characters at or after position `i`.
pub open spec fn count_open(s: Seq<char>, i: int) -> nat
    decreases s.len() - i,
    when 0 <= i <= s.len()
{
    if i >= s.len() {
        0
    } else if s[i] == '{' {
        1 + count_open(s, i + 1)
    } else {
        count_open(s, i + 1)
    }
}

fn find_next_special(s: &str, from: usize) -> (j: usize)
    requires
        from <= s@.len(),
    ensures
        j == next_special(s@, from as int),
        from <= j <= s@.len(),
        j < s@.len() ==> is_special(s@[j as int]),
{
    let n = s.unicode_len();
    let mut i: usize = from;
    while i < n
        invariant
            from <= i <= n,
            n == s@.len(),
            next_special(s@, from as int) == next_special(s@, i as int),
        decreases n - i,
    {
        let c = s.get_char(i);
        if c == '{' || c == '}' || c == '\\' {
            return i;
        }
        i = i + 1;
    }
    i
}

fn find_close_exec(s: &str, from: usize) -> (r: Option<usize>)
    requires
        from <= s@.len(),
    ensures
        match r {
            Some(j) => find_close(s@, from as int) == Some(j as int) && from <= j < s@.len()
                && s@[j as int] == '}',
            None => find_close(s@, from as int) is None,
        },
{
    let n = s.unicode_len();
    let mut i: usize = from;
    while i < n
        invariant
            from <= i <= n,
            n == s@.len(),
            find_close(s@, from as int) == find_close(s@, i as int),
        decreases n - i,
    {
        let c = s.get_char(i);
        if c == '}' {
            return Some(i);
        }
        if c == '\\' {
            if i + 1 < n {
                i = i + 2;
            } else {
                return None;
            }
        } else {
            i = i + 1;
        }
    }
    None
}

fn field_end_exec(s: &str, from: usize) -> (j: usize)
    requires
        from <= s@.len(),
    ensures
        j == field_end(s@, from as int),
        from <= j <= s@.len(),
        j < s@.len() ==> s@[j as int] == ':',
{
    let n = s.unicode_len();
    let mut i: usize = from;
    while i < n
        invariant
            from <= i <= n,
            n == s@.len(),
            field_end(s@, from as int) == field_end(s@, i as int),
        decreases n - i,
    {
        let c = s.get_char(i);
        if c == ':' {
            return i;
        }
        if c == '\\' {
            if i + 1 < n {
                i = i + 2;
            } else {
                return n;
            }
        } else {
            i = i + 1;
        }
    }
    n
}

fn contains_backslash(s: &str) -> (r: bool)
    ensures
        r == s@.contains('\\'),
{
    let n = s.unicode_len();
    let mut i: usize = 0;
    while i < n
        invariant
            i <= n,
            n == s@.len(),
            forall|k: int| 0 <= k < i ==> s@[k] != '\\',
        decreases n - i,
    {
        if s.get_char(i) == '\\' {
            assert(s@.contains('\\'));
            return true;
        }
        i = i + 1;
    }
    assert(forall|k: int| 0 <= k < s@.len() ==> s@[k] != '\\');
    assert(!s@.contains('\\'));
    false
}

proof fn lemma_unescape_no_backslash(s: Seq<char>, i: int)
    requires
        0 <= i <= s.len(),
        forall|k: int| 0 <= k < s.len() ==> s[k] != '\\',
    ensures
        unescape_from(s, i) == s.subrange(i, s.len() as int),
    decreases s.len() - i,
{
    if i < s.len() {
        lemma_unescape_no_backslash(s, i + 1);
        assert(seq![s[i]] + s.subrange(i + 1, s.len() as int) =~= s.subrange(i, s.len() as int));
    } else {
        assert(Seq::<char>::empty() =~= s.subrange(i, s.len() as int));
    }
}

/// Decodes the escapes in a field, borrowing-free only when it must: a field
/// without a backslash is copied as it is.
pub fn unescape_if_needed(s: &str) -> (r: String)
    ensures
        r@ == spec_unescape(s@),
{
    if !contains_backslash(s) {
        proof {
            lemma_unescape_no_backslash(s@, 0);
            assert(s@.subrange(0, s@.len() as int) =~= s@);
        }
        return s.to_owned();
    }
    let n = s.unicode_len();
    let mut out = String::new();
    let mut i: usize = 0;
    while i < n
        invariant
            i <= n,
            n == s@.len(),
            out@ + unescape_from(s@, i as int) == spec_unescape(s@),
        decreases n - i,
    {
        let c = s.get_char(i);
        if c == '\\' {
            if i + 1 < n {
                let d = s.get_char(i + 1);
                if d == '{' || d == '}' || d == '\\' || d == 'n' || d == 't' || d == ':' {
                    let decoded = if d == 'n' {
                        '\n'
                    } else if d == 't' {
                        '\t'
                    } else {
                        d
                    };
                    push_char(&mut out, decoded);
                    proof {
                        assert(out@ + unescape_from(s@, i + 2) =~= spec_unescape(s@));
                    }
                } else {
                    push_char(&mut out, '\\');
                    push_char(&mut out, d);
                    proof {
                        assert(out@ + unescape_from(s@, i + 2) =~= spec_unescape(s@));
                    }
                }
                i = i + 2;
            } else {
                push_char(&mut out, '\\');
                proof {
                    assert(out@ + unescape_from(s@, i + 1) =~= spec_unescape(s@));
                }
                i = i + 1;
            }
        } else {
            push_char(&mut out, c);
            proof {
                assert(out@ + unescape_from(s@, i + 1) =~= spec_unescape(s@));
            }
            i = i + 1;
        }
    }
    proof {
        assert(out@ =~= spec_unescape(s@));
    }
    out
}

/// Splits a placeholder body into its five fields and decodes each one;
/// `None` when the module field is empty.
pub fn parse_placeholder(content: &str) -> (r: Option<Params>)
    ensures
        match r {
            Some(p) => placeholder_valid(content@) && p@ == spec_params(content@),
            None => !placeholder_valid(content@),
        },
{
    let n = content.unicode_len();
    let e0 = field_end_exec(content, 0);
    if e0 == 0 {
        proof {
            if field_end(content@, 0) == content@.len() {
                assert(spec_raw_fields(content@).0 =~= content@);
            } else {
                assert(spec_raw_fields(content@).0 =~= content@.subrange(0, 0));
            }
        }
        return None;
    }
    let (module, style, format, prefix, suffix): (String, String, String, String, String) = if e0
        == n {
        (
            unescape_if_needed(content),
            String::new(),
            String::new(),
            String::new(),
            String::new(),
        )
    } else {
        let e1 = field_end_exec(content, e0 + 1);
        if e1 == n {
            (
                unescape_if_needed(content.substring_char(0, e0)),
                unescape_if_needed(content.substring_char(e0 + 1, n)),
                String::new(),
                String::new(),
                String::new(),
            )
        } else {
            let e2 = field_end_exec(content, e1 + 1);
            if e2 == n {
                (
                    unescape_if_needed(content.substring_char(0, e0)),
                    unescape_if_needed(content.substring_char(e0 + 1, e1)),
                    unescape_if_needed(content.substring_char(e1 + 1, n)),
                    String::new(),
                    String::new(),
                )
            } else {
                let e3 = field_end_exec(content, e2 + 1);
                if e3 == n {
                    (
                        unescape_if_needed(content.substring_char(0, e0)),
                        unescape_if_needed(content.substring_char(e0 + 1, e1)),
                        unescape_if_needed(content.substring_char(e1 + 1, e2)),
                        unescape_if_needed(content.substring_char(e2 + 1, n)),
                        String::new(),
                    )
                } else {
                    (
                        unescape_if_needed(content.substring_char(0, e0)),
                        unescape_if_needed(content.substring_char(e0 + 1, e1)),
                        unescape_if_needed(content.substring_char(e1 + 1, e2)),
                        unescape_if_needed(content.substring_char(e2 + 1, e3)),
                        unescape_if_needed(content.substring_char(e3 + 1, n)),
                    )
                }
            }
        }
    };
    Some(
        Params {
            module,
            style,
            format,
            prefix,
            suffix,
        },
    )
}

fn count_open_braces(s: &str) -> (r: usize)
    ensures
        r as nat == count_open(s@, 0),
{
    let n = s.unicode_len();
    let mut i: usize = 0;
    let mut r: usize = 0;
    while i < n
        invariant
            i <= n,
            n == s@.len(),
            r <= i,
            r as nat + count_open(s@, i as int) == count_open(s@, 0),
        decreases n - i,
    {
        if s.get_char(i) == '{' {
            r = r + 1;
        }
        i = i + 1;
    }
    r
}

/// A scanner over a template string.
pub struct Parser<'a> {
    input: &'a str,
    pos: usize,
}

impl<'a> Parser<'a> {
    /// The scanning position of a fresh parser: the start of the input.
    pub closed spec fn wf(&self) -> bool {
        self.pos == 0
    }

    /// The input this parser scans.
    pub closed spec fn spec_input(&self) -> Seq<char> {
        self.input@
    }

    pub fn new(input: &'a str) -> (p: Self)
        ensures
            p.wf(),
            p.spec_input() == input@,
    {
        Parser { input, pos: 0 }
    }

    /// Scans the whole template into its token sequence.
    pub fn parse(self) -> (tokens: Vec<Token>)
        requires
            self.wf(),
        ensures
            tokens.deep_view() == spec_parse(self.spec_input()),
    {
        let input = self.input;
        let ghost s = input@;
        let n = input.unicode_len();
        // Pre-size the token list from the number of `{` in the input: about
        // two tokens can come out of each placeholder attempt, plus one for
        // leading literal text.
        let open_count = count_open_braces(input);
        let capacity = if open_count == 0 {
            1
        } else if open_count <= (usize::MAX - 1) / 2 {
            let doubled = open_count * 2;
            let with_lead = if n > 0 && input.get_char(0) != '{' {
                doubled + 1
            } else {
                doubled
            };
            with_lead
        } else {
            open_count
        };
        let mut tokens: Vec<Token> = Vec::with_capacity(capacity);
        let mut pos: usize = self.pos;
        proof {
            assert(tokens.deep_view() + scan_from(s, 0) =~= scan_from(s, 0));
        }
        while pos < n
            invariant
                pos <= n,
                n == s.len(),
                input@ == s,
                tokens.deep_view() + scan_from(s, pos as int) == scan_from(s, 0),
            decreases n - pos,
        {
            let ghost start = pos as int;
            let ghost emitted = tokens.deep_view();
            let j = find_next_special(input, pos);
            if j > pos {
                let text = input.substring_char(pos, j).to_owned();
                tokens.push(Token::Text(text));
                pos = j;
                proof {
                    assert(scan_from(s, start) == seq![TokenV::Text(s.subrange(start, pos as int))]
                        + scan_from(s, pos as int));
                    lemma_deep_view_push(emitted, tokens.deep_view(), scan_from(s, pos as int),
                        scan_from(s, 0));
                }
            } else {
                let c = input.get_char(pos);
                if c == '\\' {
                    if pos + 1 < n {
                        let d = input.get_char(pos + 1);
                        if d == '{' || d == '}' || d == '\\' || d == 'n' || d == 't' || d == ':' {
                            let decoded = if d == 'n' {
                                '\n'
                            } else if d == 't' {
                                '\t'
                            } else {
                                d
                            };
                            tokens.push(Token::Text(char_to_string(decoded)));
                            pos = pos + 2;
                        } else {
                            tokens.push(Token::Text(char_to_string('\\')));
                            pos = pos + 1;
                        }
                    } else {
                        tokens.push(Token::Text(char_to_string('\\')));
                        pos = n;
                    }
                    proof {
                        lemma_deep_view_push(emitted, tokens.deep_view(), scan_from(s, pos as int),
                            scan_from(s, 0));
                    }
                } else if c == '{' {
                    match find_close_exec(input, pos + 1) {
                        Some(close) => {
                            let content = input.substring_char(pos + 1, close);
                            match parse_placeholder(content) {
                                Some(params) => {
                                    tokens.push(Token::Placeholder(params));
                                    pos = close + 1;
                                },
                                None => {
                                    tokens.push(Token::Text(char_to_string('{')));
                                    pos = pos + 1;
                                },
                            }
                        },
                        None => {
                            tokens.push(Token::Text(char_to_string('{')));
                            pos = pos + 1;
                        },
                    }
                    proof {
                        lemma_deep_view_push(emitted, tokens.deep_view(), scan_from(s, pos as int),
                            scan_from(s, 0));
                    }
                } else {
                    tokens.push(Token::Text(char_to_string('}')));
                    pos = pos + 1;
                    proof {
                        lemma_deep_view_push(emitted, tokens.deep_view(), scan_from(s, pos as int),
                            scan_from(s, 0));
                    }
                }
            }
        }
        proof {
            assert(tokens.deep_view() + scan_from(s, n as int) =~~= tokens.deep_view());
            assert(tokens.deep_view() =~~= spec_parse(s));
        }
        tokens
    }
}

proof fn lemma_deep_view_push(
    emitted: Seq<TokenV>,
    pushed: Seq<TokenV>,
    rest: Seq<TokenV>,
    whole: Seq<TokenV>,
)
    requires
        pushed.len() == emitted.len() + 1,
        forall|k: int| 0 <= k < emitted.len() ==> pushed[k] == emitted[k],
        emitted + (seq![pushed[emitted.len() as int]] + rest) == whole,
    ensures
        pushed + rest == whole,
{
    assert(pushed + rest =~= emitted + (seq![pushed[emitted.len() as int]] + rest));
}

/// Parses a template string into its token sequence.
pub fn parse(template: &str) -> (tokens: Vec<Token>)
    ensures
        tokens.deep_view() == spec_parse(template@),
{
    Parser::new(template).parse()
}

} // verus!
// What follows states the lexer's guarantees as standalone laws: plain text
// scans to one token, the six escapes decode in text and in fields, escaping
// then parsing a placeholder recovers its five fields exactly, and a
// malformed placeholder always degrades to literal text.

verus! {

/// A character that must be written as an escape pair inside template text
/// or a placeholder field.
pub open spec fn needs_escape(c: char) -> bool {
    c == '{' || c == '}' || c == '\\' || c == ':' || c == '\n' || c == '\t'
}

/// The character that stands for `c` after a backslash.
pub open spec fn escape_code(c: char) -> char {
    if c == '\n' {
        'n'
    } else if c == '\t' {
        't'
    } else {
        c
    }
}

/// The escaped form of a text: every character needing an escape becomes
/// its escape pair, everything else stays itself.
pub open spec fn spec_escape(s: Seq<char>) -> Seq<char>
    decreases s.len(),
{
    if s.len() == 0 {
        Seq::empty()
    } else if needs_escape(s[0]) {
        seq!['\\', escape_code(s[0])] + spec_escape(s.drop_first())
    } else {
        seq![s[0]] + spec_escape(s.drop_first())
    }
}

proof fn lemma_unescape_shift(a: Seq<char>, b: Seq<char>, i: int)
    requires
        0 <= i <= b.len(),
    ensures
        unescape_from(a + b, a.len() + i) == unescape_from(b, i),
    decreases b.len() - i,
{
    let t = a + b;
    if i < b.len() {
        assert(t[a.len() + i] == b[i]);
        if b[i] == '\\' {
            if i + 1 < b.len() {
                assert(t[a.len() + i + 1] == b[i + 1]);
                lemma_unescape_shift(a, b, i + 2);
            }
        } else {
            lemma_unescape_shift(a, b, i + 1);
        }
    }
}

/// Decoding undoes encoding: the escaped form of any text decodes back to
/// that text, both at the top level and inside placeholder fields, which
/// share the escape vocabulary.
pub proof fn lemma_unescape_escape(s: Seq<char>)
    ensures
        spec_unescape(spec_escape(s)) == s,
    decreases s.len(),
{
    if s.len() == 0 {
        assert(spec_unescape(spec_escape(s)) =~= s);
    } else {
        let e = spec_escape(s);
        let rest = spec_escape(s.drop_first());
        lemma_unescape_escape(s.drop_first());
        if needs_escape(s[0]) {
            let unit = seq!['\\', escape_code(s[0])];
            assert(e == unit + rest);
            assert(e[0] == '\\');
            assert(e[1] == escape_code(s[0]));
            assert(is_escapable(escape_code(s[0])));
            assert(escaped_char(escape_code(s[0])) == s[0]);
            lemma_unescape_shift(unit, rest, 0);
            if rest.len() > 0 {
                assert(e.len() >= 3);
                assert(unescape_from(e, 0) == seq![s[0]] + unescape_from(e, 2));
            } else {
                assert(e.len() == 2);
                assert(unescape_from(e, 0) == seq![s[0]] + unescape_from(e, 2));
            }
            assert(unescape_from(e, 2) == spec_unescape(rest));
            assert(seq![s[0]] + s.drop_first() =~= s);
        } else {
            let unit = seq![s[0]];
            assert(e == unit + rest);
            assert(e[0] == s[0]);
            assert(s[0] != '\\');
            lemma_unescape_shift(unit, rest, 0);
            assert(unescape_from(e, 0) == seq![s[0]] + unescape_from(e, 1));
            assert(unescape_from(e, 1) == spec_unescape(rest));
            assert(seq![s[0]] + s.drop_first() =~= s);
        }
    }
}

/// Plain text scans to one token: a non-empty template holding no brace and
/// no backslash parses to exactly one text token equal to the whole input.
pub proof fn lemma_plain_text_single_token(s: Seq<char>)
    requires
        s.len() > 0,
        forall|k: int| 0 <= k < s.len() ==> !is_special(#[trigger] s[k]),
    ensures
        spec_parse(s) == seq![TokenV::Text(s)],
{
    lemma_next_special(s, 0);
    assert(next_special(s, 0) == s.len());
    assert(s.subrange(0, s.len() as int) =~= s);
    assert(scan_from(s, s.len() as int) =~= Seq::<TokenV>::empty());
    assert(spec_parse(s) =~= seq![TokenV::Text(s)]);
}

/// Each of the six escape pairs decodes to its single literal character at
/// the top level: the pair scans to one one-character text token.
pub proof fn lemma_escape_pair_decodes_text(c: char)
    requires
        is_escapable(c),
    ensures
        spec_parse(seq!['\\', c]) == seq![TokenV::Text(seq![escaped_char(c)])],
{
    let s = seq!['\\', c];
    assert(s[0] == '\\');
    assert(is_special(s[0]));
    assert(next_special(s, 0) == 0);
    assert(scan_from(s, 2) =~= Seq::<TokenV>::empty());
    assert(spec_parse(s) =~= seq![TokenV::Text(seq![escaped_char(c)])]);
}

/// Each of the six escape pairs decodes to its single literal character
/// inside a placeholder field.
pub proof fn lemma_escape_pair_decodes_field(c: char)
    requires
        is_escapable(c),
    ensures
        spec_unescape(seq!['\\', c]) == seq![escaped_char(c)],
{
    let s = seq!['\\', c];
    assert(unescape_from(s, 2) =~= Seq::<char>::empty());
    assert(spec_unescape(s) =~= seq![escaped_char(c)]);
}

/// An unclosed `{`, wherever it stands, degrades to a literal `{` text
/// token and scanning resumes one character later — never an error, never a
/// dropped character.
pub proof fn lemma_unclosed_brace_is_text(s: Seq<char>, pos: int)
    requires
        0 <= pos < s.len(),
        s[pos] == '{',
        find_close(s, pos + 1) is None,
    ensures
        scan_from(s, pos) == seq![TokenV::Text(seq!['{'])] + scan_from(s, pos + 1),
{
    assert(next_special(s, pos) == pos);
}

/// A placeholder whose module field is empty, wherever it stands, likewise
/// degrades to a literal `{` text token with scanning resuming one
/// character later.
pub proof fn lemma_empty_module_is_text(s: Seq<char>, pos: int, close: int)
    requires
        0 <= pos < s.len(),
        s[pos] == '{',
        find_close(s, pos + 1) == Some(close),
        !placeholder_valid(s.subrange(pos + 1, close)),
    ensures
        scan_from(s, pos) == seq![TokenV::Text(seq!['{'])] + scan_from(s, pos + 1),
{
    assert(next_special(s, pos) == pos);
}

/// A placeholder field in its escaped form: free of unescaped `:` and `}`,
/// with no dangling backslash.
pub open spec fn field_clean(s: Seq<char>, i: int) -> bool
    decreases s.len() - i,
    when 0 <= i <= s.len()
{
    if i >= s.len() {
        true
    } else if s[i] == ':' || s[i] == '}' {
        false
    } else if s[i] == '\\' {
        i + 2 <= s.len() && field_clean(s, i + 2)
    } else {
        field_clean(s, i + 1)
    }
}

/// A placeholder suffix in its escaped form: free of unescaped `}` with no
/// dangling backslash; unescaped colons are allowed, since nothing splits
/// the suffix further.
pub open spec fn suffix_clean(s: Seq<char>, i: int) -> bool
    decreases s.len() - i,
    when 0 <= i <= s.len()
{
    if i >= s.len() {
        true
    } else if s[i] == '}' {
        false
    } else if s[i] == '\\' {
        i + 2 <= s.len() && suffix_clean(s, i + 2)
    } else {
        suffix_clean(s, i + 1)
    }
}

proof fn lemma_suffix_clean_shift(a: Seq<char>, b: Seq<char>, i: int)
    requires
        0 <= i <= b.len(),
    ensures
        suffix_clean(a + b, a.len() + i) == suffix_clean(b, i),
    decreases b.len() - i,
{
    let t = a + b;
    if i < b.len() {
        assert(t[a.len() + i] == b[i]);
        if b[i] == '\\' {
            if i + 2 <= b.len() {
                lemma_suffix_clean_shift(a, b, i + 2);
            }
        } else if b[i] != '}' {
            lemma_suffix_clean_shift(a, b, i + 1);
        }
    }
}

proof fn lemma_field_end_shift(a: Seq<char>, b: Seq<char>, i: int)
    requires
        0 <= i <= b.len(),
    ensures
        field_end(a + b, a.len() + i) == a.len() + field_end(b, i),
    decreases b.len() - i,
{
    let t = a + b;
    if i < b.len() {
        assert(t[a.len() + i] == b[i]);
        if b[i] == '\\' {
            if i + 2 <= b.len() {
                lemma_field_end_shift(a, b, i + 2);
            }
        } else if b[i] != ':' {
            lemma_field_end_shift(a, b, i + 1);
        }
    }
}

proof fn lemma_field_clean_compose(x: Seq<char>, y: Seq<char>, i: int)
    requires
        0 <= i <= x.len(),
        field_clean(x, i),
        suffix_clean(y, 0),
    ensures
        suffix_clean(x + seq![':'] + y, i),
    decreases x.len() - i,
{
    let t = x + seq![':'] + y;
    if i == x.len() {
        assert(t[i] == ':');
        lemma_suffix_clean_shift(x + seq![':'], y, 0);
        assert(suffix_clean(t, i + 1));
    } else {
        assert(t[i] == x[i]);
        if x[i] == '\\' {
            lemma_field_clean_compose(x, y, i + 2);
            assert(i + 2 <= t.len());
        } else {
            lemma_field_clean_compose(x, y, i + 1);
        }
    }
}

proof fn lemma_field_end_stops(x: Seq<char>, rest: Seq<char>, i: int)
    requires
        0 <= i <= x.len(),
        field_clean(x, i),
    ensures
        field_end(x + seq![':'] + rest, i) == x.len(),
    decreases x.len() - i,
{
    let t = x + seq![':'] + rest;
    if i == x.len() {
        assert(t[i] == ':');
    } else {
        assert(t[i] == x[i]);
        if x[i] == '\\' {
            assert(i + 2 <= t.len());
            lemma_field_end_stops(x, rest, i + 2);
        } else {
            lemma_field_end_stops(x, rest, i + 1);
        }
    }
}

proof fn lemma_find_close_reaches(body: Seq<char>, i: int)
    requires
        0 <= i <= body.len(),
        suffix_clean(body, i),
    ensures
        find_close(seq!['{'] + body + seq!['}'], 1 + i) == Some(1 + body.len() as int),
    decreases body.len() - i,
{
    let t = seq!['{'] + body + seq!['}'];
    if i == body.len() {
        assert(t[1 + i] == '}');
    } else {
        assert(t[1 + i] == body[i]);
        if body[i] == '\\' {
            assert(1 + i + 2 <= t.len());
            lemma_find_close_reaches(body, i + 2);
        } else {
            lemma_find_close_reaches(body, i + 1);
        }
    }
}

/// A well-formed placeholder parses to exactly one placeholder token whose
/// parameters are the body's five decoded fields.
pub proof fn lemma_placeholder_parses(body: Seq<char>)
    requires
        suffix_clean(body, 0),
        placeholder_valid(body),
    ensures
        spec_parse(seq!['{'] + body + seq!['}']) == seq![TokenV::Placeholder(spec_params(body))],
{
    let t = seq!['{'] + body + seq!['}'];
    assert(t[0] == '{');
    assert(next_special(t, 0) == 0);
    lemma_find_close_reaches(body, 0);
    let close: int = 1 + body.len() as int;
    assert(t.subrange(1, close) =~= body);
    assert(scan_from(t, close + 1) =~= Seq::<TokenV>::empty());
    assert(spec_parse(t) =~= seq![TokenV::Placeholder(spec_params(t.subrange(1, close)))]);
}

/// The five raw fields of a body built from clean field texts are exactly
/// those texts: splitting undoes the joining with `:`.
pub proof fn lemma_body_fields(m: Seq<char>, s: Seq<char>, f: Seq<char>, p: Seq<char>, q: Seq<char>)
    requires
        field_clean(m, 0),
        field_clean(s, 0),
        field_clean(f, 0),
        field_clean(p, 0),
        suffix_clean(q, 0),
    ensures
        spec_raw_fields(m + seq![':'] + s + seq![':'] + f + seq![':'] + p + seq![':'] + q) == (
            m,
            s,
            f,
            p,
            q,
        ),
{
    let body = m + seq![':'] + s + seq![':'] + f + seq![':'] + p + seq![':'] + q;
    let rest1 = s + seq![':'] + f + seq![':'] + p + seq![':'] + q;
    let rest2 = f + seq![':'] + p + seq![':'] + q;
    let rest3 = p + seq![':'] + q;
    assert(body =~= m + seq![':'] + rest1);
    lemma_field_end_stops(m, rest1, 0);
    let e0 = field_end(body, 0);
    assert(e0 == m.len());
    assert(e0 < body.len());

    assert(body =~= (m + seq![':']) + rest1);
    lemma_field_end_shift(m + seq![':'], rest1, 0);
    assert(rest1 =~= s + seq![':'] + rest2);
    lemma_field_end_stops(s, rest2, 0);
    let e1 = field_end(body, e0 + 1);
    assert(e1 == m.len() + 1 + s.len());
    assert(e1 < body.len());

    assert(body =~= (m + seq![':'] + s + seq![':']) + rest2);
    lemma_field_end_shift(m + seq![':'] + s + seq![':'], rest2, 0);
    assert(rest2 =~= f + seq![':'] + rest3);
    lemma_field_end_stops(f, rest3, 0);
    let e2 = field_end(body, e1 + 1);
    assert(e2 == m.len() + 1 + s.len() + 1 + f.len());
    assert(e2 < body.len());

    assert(body =~= (m + seq![':'] + s + seq![':'] + f + seq![':']) + rest3);
    lemma_field_end_shift(m + seq![':'] + s + seq![':'] + f + seq![':'], rest3, 0);
    assert(rest3 =~= p + seq![':'] + q);
    lemma_field_end_stops(p, q, 0);
    let e3 = field_end(body, e2 + 1);
    assert(e3 == m.len() + 1 + s.len() + 1 + f.len() + 1 + p.len());
    assert(e3 < body.len());

    assert(body.subrange(0, e0) =~= m);
    assert(body.subrange(e0 + 1, e1) =~= s);
    assert(body.subrange(e1 + 1, e2) =~= f);
    assert(body.subrange(e2 + 1, e3) =~= p);
    assert(body.subrange(e3 + 1, body.len() as int) =~= q);
}

/// The round trip for well-formed placeholders: a placeholder written from
/// five clean field texts parses to one placeholder token, and re-deriving
/// the five fields recovers each text with its escapes decoded.
pub proof fn lemma_placeholder_round_trip(
    m: Seq<char>,
    s: Seq<char>,
    f: Seq<char>,
    p: Seq<char>,
    q: Seq<char>,
)
    requires
        m.len() > 0,
        field_clean(m, 0),
        field_clean(s, 0),
        field_clean(f, 0),
        field_clean(p, 0),
        suffix_clean(q, 0),
    ensures
        spec_parse(
            seq!['{'] + m + seq![':'] + s + seq![':'] + f + seq![':'] + p + seq![':'] + q
                + seq!['}'],
        ) == seq![
            TokenV::Placeholder(
                ParamsV {
                    module: spec_unescape(m),
                    style: spec_unescape(s),
                    format: spec_unescape(f),
                    prefix: spec_unescape(p),
                    suffix: spec_unescape(q),
                },
            ),
        ],
{
    let body = m + seq![':'] + s + seq![':'] + f + seq![':'] + p + seq![':'] + q;
    lemma_body_fields(m, s, f, p, q);
    assert(placeholder_valid(body));
    let rest3 = p + seq![':'] + q;
    let rest2 = f + seq![':'] + rest3;
    let rest1 = s + seq![':'] + rest2;
    lemma_field_clean_compose(p, q, 0);
    assert(suffix_clean(rest3, 0));
    lemma_field_clean_compose(f, rest3, 0);
    assert(rest2 =~= f + seq![':'] + rest3);
    assert(suffix_clean(rest2, 0));
    lemma_field_clean_compose(s, rest2, 0);
    assert(rest1 =~= s + seq![':'] + rest2);
    assert(suffix_clean(rest1, 0));
    lemma_field_clean_compose(m, rest1, 0);
    assert(body =~= m + seq![':'] + rest1);
    assert(suffix_clean(body, 0));
    lemma_placeholder_parses(body);
    assert(spec_params(body) =~~= ParamsV {
        module: spec_unescape(m),
        style: spec_unescape(s),
        format: spec_unescape(f),
        prefix: spec_unescape(p),
        suffix: spec_unescape(q),
    });
    assert(seq!['{'] + body + seq!['}'] =~= seq!['{'] + m + seq![':'] + s + seq![':'] + f
        + seq![':'] + p + seq![':'] + q + seq!['}']);
}

proof fn lemma_field_clean_shift(a: Seq<char>, b: Seq<char>, i: int)
    requires
        0 <= i <= b.len(),
    ensures
        field_clean(a + b, a.len() + i) == field_clean(b, i),
    decreases b.len() - i,
{
    let t = a + b;
    if i < b.len() {
        assert(t[a.len() + i] == b[i]);
        if b[i] == '\\' {
            if i + 2 <= b.len() {
                lemma_field_clean_shift(a, b, i + 2);
            }
        } else if b[i] != ':' && b[i] != '}' {
            lemma_field_clean_shift(a, b, i + 1);
        }
    }
}

/// The escaped form of any text is a clean field: escaping is what makes an
/// arbitrary text safe to stand in a placeholder.
pub proof fn lemma_escape_is_clean(s: Seq<char>)
    ensures
        field_clean(spec_escape(s), 0),
        suffix_clean(spec_escape(s), 0),
        spec_escape(s).len() >= s.len(),
    decreases s.len(),
{
    if s.len() > 0 {
        lemma_escape_is_clean(s.drop_first());
        let rest = spec_escape(s.drop_first());
        if needs_escape(s[0]) {
            let unit = seq!['\\', escape_code(s[0])];
            let e = unit + rest;
            assert(e[0] == '\\');
            lemma_field_clean_shift(unit, rest, 0);
            lemma_suffix_clean_shift(unit, rest, 0);
            assert(field_clean(e, 2) == field_clean(rest, 0));
            assert(suffix_clean(e, 2) == suffix_clean(rest, 0));
        } else {
            let unit = seq![s[0]];
            let e = unit + rest;
            assert(e[0] == s[0]);
            assert(s[0] != ':' && s[0] != '}' && s[0] != '\\');
            lemma_field_clean_shift(unit, rest, 0);
            lemma_suffix_clean_shift(unit, rest, 0);
            assert(field_clean(e, 1) == field_clean(rest, 0));
            assert(suffix_clean(e, 1) == suffix_clean(rest, 0));
        }
    }
}

/// The full round trip: writing any five field texts in their escaped forms
/// between braces and parsing recovers the five texts exactly.
pub proof fn lemma_escaped_fields_round_trip(
    m: Seq<char>,
    s: Seq<char>,
    f: Seq<char>,
    p: Seq<char>,
    q: Seq<char>,
)
    requires
        m.len() > 0,
    ensures
        spec_parse(
            seq!['{'] + spec_escape(m) + seq![':'] + spec_escape(s) + seq![':'] + spec_escape(f)
                + seq![':'] + spec_escape(p) + seq![':'] + spec_escape(q) + seq!['}'],
        ) == seq![
            TokenV::Placeholder(ParamsV { module: m, style: s, format: f, prefix: p, suffix: q }),
        ],
{
    lemma_escape_is_clean(m);
    lemma_escape_is_clean(s);
    lemma_escape_is_clean(f);
    lemma_escape_is_clean(p);
    lemma_escape_is_clean(q);
    lemma_placeholder_round_trip(
        spec_escape(m),
        spec_escape(s),
        spec_escape(f),
        spec_escape(p),
        spec_escape(q),
    );
    lemma_unescape_escape(m);
    lemma_unescape_escape(s);
    lemma_unescape_escape(f);
    lemma_unescape_escape(p);
    lemma_unescape_escape(q);
}

} // verus!
