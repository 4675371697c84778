//! The style engine: parses dot-separated style descriptors such as
//! `red.bold` or `#00ff00+blue.underline` into an [`AnsiStyle`], and wraps
//! text in the matching terminal escape sequences, optionally delimited for
//! a shell's prompt-width accounting.

use vstd::prelude::*;

use crate::chars::push_char;
use crate::chars::spec_nat_digits;
use crate::chars::u64_to_string;

verus! {

/// The shell whose prompt will receive the rendered string; `Plain` wraps
/// nothing around escape sequences.
#[derive(Debug, Clone, Copy, PartialEq, Eq, Structural)]
pub enum Shell {
    Plain,
    Zsh,
    Bash,
}

impl Default for Shell {
    fn default() -> (s: Self)
        ensures
            s == Shell::Plain,
    {
        Shell::Plain
    }
}

/// The opening delimiter a shell needs around non-printing escape codes.
pub open spec fn spec_shell_open(sh: Shell) -> Seq<char> {
    match sh {
        Shell::Zsh => "%{"@,
        Shell::Bash => "\u{1}"@,
        Shell::Plain => ""@,
    }
}

/// The closing delimiter a shell needs around non-printing escape codes.
pub open spec fn spec_shell_close(sh: Shell) -> Seq<char> {
    match sh {
        Shell::Zsh => "%}"@,
        Shell::Bash => "\u{2}"@,
        Shell::Plain => ""@,
    }
}

/// Lowercases one ASCII letter; leaves every other character alone.
pub open spec fn spec_ascii_lower(c: char) -> char {
    if 'A' <= c && c <= 'Z' {
        ((c as u32) + 32) as char
    } else {
        c
    }
}

/// Whether a character is ASCII whitespace, the class `trim` removes here.
pub open spec fn spec_is_space(c: char) -> bool {
    c == ' ' || c == '\t' || c == '\n' || c == '\r'
}

/// The sequence without its leading ASCII whitespace.
pub open spec fn spec_trim_start(s: Seq<char>) -> Seq<char>
    decreases s.len(),
{
    if s.len() > 0 && spec_is_space(s[0]) {
        spec_trim_start(s.drop_first())
    } else {
        s
    }
}

/// The sequence without its trailing ASCII whitespace.
pub open spec fn spec_trim_end(s: Seq<char>) -> Seq<char>
    decreases s.len(),
{
    if s.len() > 0 && spec_is_space(s[s.len() - 1]) {
        spec_trim_end(s.drop_last())
    } else {
        s
    }
}

/// The name a shell value is selected by: trimmed and ASCII-lowercased.
pub open spec fn spec_shell_key(v: Seq<char>) -> Seq<char> {
    spec_trim_end(spec_trim_start(v)).map_values(|c: char| spec_ascii_lower(c))
}

/// Which shell a name selects: `zsh`, `bash`, and `none` or the empty
/// string, after trimming and lowercasing; anything else is an error naming
/// the rejected value.
pub open spec fn spec_shell_from_name(v: Seq<char>) -> Result<Shell, Seq<char>> {
    let key = spec_shell_key(v);
    if key == "zsh"@ {
        Ok(Shell::Zsh)
    } else if key == "bash"@ {
        Ok(Shell::Bash)
    } else if key == "none"@ || key.len() == 0 {
        Ok(Shell::Plain)
    } else {
        Err("Unknown shell: "@ + key + " (supported values: bash, zsh, none)"@)
    }
}

fn is_space_char(c: char) -> (r: bool)
    ensures
        r == spec_is_space(c),
{
    c == ' ' || c == '\t' || c == '\n' || c == '\r'
}

fn ascii_lower_char(c: char) -> (r: char)
    ensures
        r == spec_ascii_lower(c),
{
    let u = c as u32;
    if 65 <= u && u <= 90 {
        let b: u8 = (u + 32) as u8;
        b as char
    } else {
        c
    }
}

fn shell_key_of(value: &str) -> (r: String)
    ensures
        r@ == spec_shell_key(value@),
{
    let n = value.unicode_len();
    proof {
        assert(value@.subrange(0, n as int) =~= value@);
    }
    let mut a: usize = 0;
    while a < n && is_space_char(value.get_char(a))
        invariant
            a <= n,
            n == value@.len(),
            spec_trim_start(value@) == spec_trim_start(value@.subrange(a as int, n as int)),
        decreases n - a,
    {
        proof {
            let ghost tail = value@.subrange(a as int, n as int);
            assert(tail.drop_first() =~= value@.subrange(a as int + 1, n as int));
        }
        a = a + 1;
    }
    let mut b: usize = n;
    proof {
        let ghost tail = value@.subrange(a as int, n as int);
        if a < n {
            assert(!spec_is_space(tail[0]));
        }
        assert(spec_trim_start(value@) == tail);
    }
    while b > a && is_space_char(value.get_char(b - 1))
        invariant
            a <= b <= n,
            n == value@.len(),
            spec_trim_start(value@) == value@.subrange(a as int, n as int),
            spec_trim_end(spec_trim_start(value@)) == spec_trim_end(
                value@.subrange(a as int, b as int),
            ),
        decreases b,
    {
        proof {
            let ghost mid = value@.subrange(a as int, b as int);
            assert(mid.drop_last() =~= value@.subrange(a as int, b as int - 1));
        }
        b = b - 1;
    }
    let ghost trimmed = spec_trim_end(spec_trim_start(value@));
    proof {
        let ghost mid = value@.subrange(a as int, b as int);
        if b > a {
            assert(!spec_is_space(mid[mid.len() - 1]));
            assert(spec_trim_end(mid) == mid);
        } else {
            assert(mid =~= Seq::<char>::empty());
            assert(spec_trim_end(mid) == mid);
        }
        assert(trimmed == value@.subrange(a as int, b as int));
    }
    let mut out = String::new();
    let mut i: usize = a;
    while i < b
        invariant
            a <= i <= b <= n,
            n == value@.len(),
            trimmed == value@.subrange(a as int, b as int),
            out@ =~= trimmed.subrange(0, i - a).map_values(|c: char| spec_ascii_lower(c)),
        decreases b - i,
    {
        let c = value.get_char(i);
        push_char(&mut out, ascii_lower_char(c));
        proof {
            assert(out@ =~= trimmed.subrange(0, i + 1 - a).map_values(
                |c: char| spec_ascii_lower(c),
            ));
        }
        i = i + 1;
    }
    proof {
        assert(trimmed.subrange(0, b - a) =~= trimmed);
        assert(out@ =~= spec_shell_key(value@));
    }
    out
}

impl Shell {
    /// Selects a shell by name, as `spec_shell_from_name` says.
    pub fn from_name(value: &str) -> (r: Result<Shell, String>)
        ensures
            match r {
                Ok(sh) => spec_shell_from_name(value@) == Ok::<Shell, Seq<char>>(sh),
                Err(m) => spec_shell_from_name(value@) == Err::<Shell, Seq<char>>(m@),
            },
    {
        let key = shell_key_of(value);
        if crate::chars::str_eq(key.as_str(), "zsh") {
            Ok(Shell::Zsh)
        } else if crate::chars::str_eq(key.as_str(), "bash") {
            Ok(Shell::Bash)
        } else if crate::chars::str_eq(key.as_str(), "none") || key.as_str().unicode_len() == 0 {
            Ok(Shell::Plain)
        } else {
            let mut m = String::new();
            m.append("Unknown shell: ");
            m.append(key.as_str());
            m.append(" (supported values: bash, zsh, none)");
            Err(m)
        }
    }

    /// The pair of delimiters this shell wraps around escape codes.
    pub fn delimiters(self) -> (r: (&'static str, &'static str))
        ensures
            r.0@ == spec_shell_open(self),
            r.1@ == spec_shell_close(self),
    {
        match self {
            Shell::Zsh => ("%{", "%}"),
            Shell::Bash => ("\u{1}", "\u{2}"),
            Shell::Plain => ("", ""),
        }
    }
}

impl core::str::FromStr for Shell {
    type Err = String;

    fn from_str(value: &str) -> Result<Self, String> {
        Shell::from_name(value)
    }
}

/// A foreground or background color: one of the eight named terminal colors
/// or a `#RRGGBB` value.
#[derive(Debug, Clone, PartialEq)]
pub enum Color {
    Black,
    Red,
    Green,
    Yellow,
    Blue,
    Purple,
    Cyan,
    White,
    Hex(String),
}

/// The mathematical value of a `Color`.
#[verifier::ext_equal]
pub enum ColorV {
    Black,
    Red,
    Green,
    Yellow,
    Blue,
    Purple,
    Cyan,
    White,
    Hex(Seq<char>),
}

impl View for Color {
    type V = ColorV;

    open spec fn view(&self) -> ColorV {
        match self {
            Color::Black => ColorV::Black,
            Color::Red => ColorV::Red,
            Color::Green => ColorV::Green,
            Color::Yellow => ColorV::Yellow,
            Color::Blue => ColorV::Blue,
            Color::Purple => ColorV::Purple,
            Color::Cyan => ColorV::Cyan,
            Color::White => ColorV::White,
            Color::Hex(h) => ColorV::Hex(h@),
        }
    }
}

impl DeepView for Color {
    type V = ColorV;

    open spec fn deep_view(&self) -> ColorV {
        self.view()
    }
}

/// The parsed form of a style descriptor: optional foreground and background
/// colors plus attribute flags.
#[derive(Debug, Clone, PartialEq)]
pub struct AnsiStyle {
    pub color: Option<Color>,
    pub background: Option<Color>,
    pub bold: bool,
    pub italic: bool,
    pub underline: bool,
    pub dim: bool,
    pub reverse: bool,
    pub strikethrough: bool,
}

/// The mathematical value of an `AnsiStyle`.
#[verifier::ext_equal]
pub struct StyleV {
    pub color: Option<ColorV>,
    pub background: Option<ColorV>,
    pub bold: bool,
    pub italic: bool,
    pub underline: bool,
    pub dim: bool,
    pub reverse: bool,
    pub strikethrough: bool,
}

impl View for AnsiStyle {
    type V = StyleV;

    open spec fn view(&self) -> StyleV {
        StyleV {
            color: self.color.deep_view(),
            background: self.background.deep_view(),
            bold: self.bold,
            italic: self.italic,
            underline: self.underline,
            dim: self.dim,
            reverse: self.reverse,
            strikethrough: self.strikethrough,
        }
    }
}

impl DeepView for AnsiStyle {
    type V = StyleV;

    open spec fn deep_view(&self) -> StyleV {
        self.view()
    }
}

/// A style with no colors and no attributes set.
pub open spec fn spec_empty_style() -> StyleV {
    StyleV {
        color: None,
        background: None,
        bold: false,
        italic: false,
        underline: false,
        dim: false,
        reverse: false,
        strikethrough: false,
    }
}

/// Whether a character is a decimal or hexadecimal digit usable in a hex
/// color, in either case.
pub open spec fn spec_is_hex_digit(c: char) -> bool {
    ('0' <= c && c <= '9') || ('a' <= c && c <= 'f') || ('A' <= c && c <= 'F')
}

/// The numeric value of a hexadecimal digit.
pub open spec fn spec_hex_val(c: char) -> int {
    if '0' <= c && c <= '9' {
        c as int - '0' as int
    } else if 'a' <= c && c <= 'f' {
        c as int - 'a' as int + 10
    } else {
        c as int - 'A' as int + 10
    }
}

/// The sequence without its leading `#` characters.
pub open spec fn spec_trim_hashes(s: Seq<char>) -> Seq<char>
    decreases s.len(),
{
    if s.len() > 0 && s[0] == '#' {
        spec_trim_hashes(s.drop_first())
    } else {
        s
    }
}

/// Parses a `RRGGBB` hex color (leading `#` stripped first): exactly six hex
/// digits give the three channel values, anything else is an error naming
/// the rejected value.
#[verifier::opaque]
pub open spec fn spec_parse_hex(h: Seq<char>) -> Result<(u8, u8, u8), Seq<char>> {
    let t = spec_trim_hashes(h);
    if t.len() == 6 && (forall|k: int| 0 <= k < 6 ==> spec_is_hex_digit(t[k])) {
        Ok(
            (
                (spec_hex_val(t[0]) * 16 + spec_hex_val(t[1])) as u8,
                (spec_hex_val(t[2]) * 16 + spec_hex_val(t[3])) as u8,
                (spec_hex_val(t[4]) * 16 + spec_hex_val(t[5])) as u8,
            ),
        )
    } else {
        Err("Invalid hex color: "@ + t)
    }
}

/// Which color a component names: the eight color words (with `magenta` as
/// another name for purple), or a `#`-led hex value, kept verbatim.
pub open spec fn spec_parse_color(v: Seq<char>) -> Result<ColorV, Seq<char>> {
    if v == "black"@ {
        Ok(ColorV::Black)
    } else if v == "red"@ {
        Ok(ColorV::Red)
    } else if v == "green"@ {
        Ok(ColorV::Green)
    } else if v == "yellow"@ {
        Ok(ColorV::Yellow)
    } else if v == "blue"@ {
        Ok(ColorV::Blue)
    } else if v == "purple"@ || v == "magenta"@ {
        Ok(ColorV::Purple)
    } else if v == "cyan"@ {
        Ok(ColorV::Cyan)
    } else if v == "white"@ {
        Ok(ColorV::White)
    } else if v.len() > 0 && v[0] == '#' {
        Ok(ColorV::Hex(v))
    } else {
        Err("Unknown style component: "@ + v)
    }
}

/// The position of the first `.` at or after `i`, or the length of `s`.
pub open spec fn dot_end(s: Seq<char>, i: int) -> int
    decreases s.len() - i,
    when 0 <= i <= s.len()
{
    if i >= s.len() {
        s.len() as int
    } else if s[i] == '.' {
        i
    } else {
        dot_end(s, i + 1)
    }
}

pub proof fn lemma_dot_end_bounds(s: Seq<char>, i: int)
    requires
        0 <= i <= s.len(),
    ensures
        i <= dot_end(s, i) <= s.len(),
        dot_end(s, i) < s.len() ==> s[dot_end(s, i)] == '.',
    decreases s.len() - i,
{
    if i < s.len() && s[i] != '.' {
        lemma_dot_end_bounds(s, i + 1);
    }
}

/// The position of the first `+` at or after `i`, or the length of `s`.
pub open spec fn plus_end(s: Seq<char>, i: int) -> int
    decreases s.len() - i,
    when 0 <= i <= s.len()
{
    if i >= s.len() {
        s.len() as int
    } else if s[i] == '+' {
        i
    } else {
        plus_end(s, i + 1)
    }
}

/// Folds one dot-separated component into a style under construction: an
/// attribute keyword sets its flag, a `fg+bg` pair sets both colors (an
/// empty background is an error), and anything else must name the
/// foreground color.
pub open spec fn spec_apply_part(st: StyleV, part: Seq<char>) -> Result<StyleV, Seq<char>> {
    if part == "bold"@ {
        Ok(StyleV { bold: true, ..st })
    } else if part == "italic"@ {
        Ok(StyleV { italic: true, ..st })
    } else if part == "underline"@ {
        Ok(StyleV { underline: true, ..st })
    } else if part == "dim"@ {
        Ok(StyleV { dim: true, ..st })
    } else if part == "reverse"@ {
        Ok(StyleV { reverse: true, ..st })
    } else if part == "strikethrough"@ {
        Ok(StyleV { strikethrough: true, ..st })
    } else {
        let p = plus_end(part, 0);
        if p < part.len() {
            let fg = part.subrange(0, p);
            let bg = part.subrange(p + 1, part.len() as int);
            if fg.len() > 0 {
                match spec_parse_color(fg) {
                    Err(m) => Err(m),
                    Ok(c) => if bg.len() == 0 {
                        Err("Unknown style component: "@ + part)
                    } else {
                        match spec_parse_color(bg) {
                            Err(m) => Err(m),
                            Ok(b) => Ok(StyleV { color: Some(c), background: Some(b), ..st }),
                        }
                    },
                }
            } else {
                if bg.len() == 0 {
                    Err("Unknown style component: "@ + part)
                } else {
                    match spec_parse_color(bg) {
                        Err(m) => Err(m),
                        Ok(b) => Ok(StyleV { background: Some(b), ..st }),
                    }
                }
            }
        } else {
            match spec_parse_color(part) {
                Err(m) => Err(m),
                Ok(c) => Ok(StyleV { color: Some(c), ..st }),
            }
        }
    }
}

/// Folds the remaining components of a descriptor, from position `i`, into
/// the style built so far.
pub open spec fn spec_style_from(s: Seq<char>, i: int, acc: StyleV) -> Result<StyleV, Seq<char>>
    decreases s.len() - i,
    when 0 <= i <= s.len()
    via spec_style_from_decreases
{
    let e = dot_end(s, i);
    let part = s.subrange(i, e);
    match spec_apply_part(acc, part) {
        Err(m) => Err(m),
        Ok(acc2) => if e == s.len() {
            Ok(acc2)
        } else {
            spec_style_from(s, e + 1, acc2)
        },
    }
}

#[via_fn]
proof fn spec_style_from_decreases(s: Seq<char>, i: int, acc: StyleV) {
    if 0 <= i <= s.len() {
        lemma_dot_end_bounds(s, i);
    }
}

/// The style a whole descriptor parses to: the empty descriptor is the
/// empty style, otherwise its dot-separated components are folded in order.
pub open spec fn spec_parse_style(s: Seq<char>) -> Result<StyleV, Seq<char>> {
    if s.len() == 0 {
        Ok(spec_empty_style())
    } else {
        spec_style_from(s, 0, spec_empty_style())
    }
}

/// The escape sequence selecting a foreground color; a hex color that does
/// not parse contributes nothing.
#[verifier::opaque]
pub open spec fn spec_fg_code(c: ColorV) -> Seq<char> {
    match c {
        ColorV::Black => "\u{1b}[30m"@,
        ColorV::Red => "\u{1b}[31m"@,
        ColorV::Green => "\u{1b}[32m"@,
        ColorV::Yellow => "\u{1b}[33m"@,
        ColorV::Blue => "\u{1b}[34m"@,
        ColorV::Purple => "\u{1b}[35m"@,
        ColorV::Cyan => "\u{1b}[36m"@,
        ColorV::White => "\u{1b}[37m"@,
        ColorV::Hex(h) => match spec_parse_hex(h) {
            Ok(rgb) => "\u{1b}[38;2;"@ + spec_nat_digits(rgb.0 as nat) + ";"@ + spec_nat_digits(
                rgb.1 as nat,
            ) + ";"@ + spec_nat_digits(rgb.2 as nat) + "m"@,
            Err(_) => Seq::empty(),
        },
    }
}

/// The escape sequence selecting a background color; a hex color that does
/// not parse contributes nothing.
#[verifier::opaque]
pub open spec fn spec_bg_code(c: ColorV) -> Seq<char> {
    match c {
        ColorV::Black => "\u{1b}[40m"@,
        ColorV::Red => "\u{1b}[41m"@,
        ColorV::Green => "\u{1b}[42m"@,
        ColorV::Yellow => "\u{1b}[43m"@,
        ColorV::Blue => "\u{1b}[44m"@,
        ColorV::Purple => "\u{1b}[45m"@,
        ColorV::Cyan => "\u{1b}[46m"@,
        ColorV::White => "\u{1b}[47m"@,
        ColorV::Hex(h) => match spec_parse_hex(h) {
            Ok(rgb) => "\u{1b}[48;2;"@ + spec_nat_digits(rgb.0 as nat) + ";"@ + spec_nat_digits(
                rgb.1 as nat,
            ) + ";"@ + spec_nat_digits(rgb.2 as nat) + "m"@,
            Err(_) => Seq::empty(),
        },
    }
}

/// Whether a style sets anything at all.
pub open spec fn spec_has_style(st: StyleV) -> bool {
    st.color is Some || st.background is Some || st.bold || st.italic || st.underline || st.dim
        || st.reverse || st.strikethrough
}

/// The undelimited escape codes a style starts with: colors first, in the
/// fixed attribute order bold, dim, italic, underline, reverse,
/// strikethrough.
pub open spec fn spec_raw_codes(st: StyleV) -> Seq<char> {
    (match st.color {
        Some(c) => spec_fg_code(c),
        None => Seq::empty(),
    }) + (match st.background {
        Some(c) => spec_bg_code(c),
        None => Seq::empty(),
    }) + (if st.bold {
        "\u{1b}[1m"@
    } else {
        Seq::empty()
    }) + (if st.dim {
        "\u{1b}[2m"@
    } else {
        Seq::empty()
    }) + (if st.italic {
        "\u{1b}[3m"@
    } else {
        Seq::empty()
    }) + (if st.underline {
        "\u{1b}[4m"@
    } else {
        Seq::empty()
    }) + (if st.reverse {
        "\u{1b}[7m"@
    } else {
        Seq::empty()
    }) + (if st.strikethrough {
        "\u{1b}[9m"@
    } else {
        Seq::empty()
    })
}

/// What a style writes before the text: nothing for the empty style, its
/// raw codes otherwise, shell-delimited when a shell asks for it.
pub open spec fn spec_start_codes(st: StyleV, sh: Shell) -> Seq<char> {
    if !spec_has_style(st) {
        Seq::empty()
    } else if sh == Shell::Plain {
        spec_raw_codes(st)
    } else {
        spec_shell_open(sh) + spec_raw_codes(st) + spec_shell_close(sh)
    }
}

/// What a style writes after the text: nothing for the empty style, the
/// reset code otherwise, shell-delimited when a shell asks for it.
pub open spec fn spec_reset_codes(st: StyleV, sh: Shell) -> Seq<char> {
    if !spec_has_style(st) {
        Seq::empty()
    } else if sh == Shell::Plain {
        "\u{1b}[0m"@
    } else {
        spec_shell_open(sh) + "\u{1b}[0m"@ + spec_shell_close(sh)
    }
}

/// A text wrapped in a style's codes; the empty style leaves it untouched.
pub open spec fn spec_apply_style(st: StyleV, text: Seq<char>, sh: Shell) -> Seq<char> {
    if !spec_has_style(st) {
        text
    } else {
        spec_start_codes(st, sh) + text + spec_reset_codes(st, sh)
    }
}

fn hex_digit_val(c: char) -> (r: Option<u8>)
    ensures
        match r {
            Some(v) => spec_is_hex_digit(c) && v as int == spec_hex_val(c) && v < 16,
            None => !spec_is_hex_digit(c),
        },
{
    let u = c as u32;
    if 48 <= u && u <= 57 {
        Some((u - 48) as u8)
    } else if 97 <= u && u <= 102 {
        Some((u - 97 + 10) as u8)
    } else if 65 <= u && u <= 70 {
        Some((u - 65 + 10) as u8)
    } else {
        None
    }
}

fn parse_hex_color(hex: &str) -> (r: Result<(u8, u8, u8), String>)
    ensures
        match r {
            Ok(rgb) => spec_parse_hex(hex@) == Ok::<(u8, u8, u8), Seq<char>>(rgb),
            Err(m) => spec_parse_hex(hex@) == Err::<(u8, u8, u8), Seq<char>>(m@),
        },
{
    proof {
        reveal(spec_parse_hex);
    }
    let n = hex.unicode_len();
    proof {
        assert(hex@.subrange(0, n as int) =~= hex@);
    }
    let mut a: usize = 0;
    while a < n && hex.get_char(a) == '#'
        invariant
            a <= n,
            n == hex@.len(),
            spec_trim_hashes(hex@) == spec_trim_hashes(hex@.subrange(a as int, n as int)),
        decreases n - a,
    {
        proof {
            let ghost tail = hex@.subrange(a as int, n as int);
            assert(tail.drop_first() =~= hex@.subrange(a as int + 1, n as int));
        }
        a = a + 1;
    }
    let ghost t = spec_trim_hashes(hex@);
    proof {
        let ghost tail = hex@.subrange(a as int, n as int);
        if a < n {
            assert(tail[0] != '#');
        }
        assert(t == tail);
    }
    if n - a != 6 {
        let mut m = String::new();
        m.append("Invalid hex color: ");
        m.append(hex.substring_char(a, n));
        return Err(m);
    }
    let d0 = hex_digit_val(hex.get_char(a));
    let d1 = hex_digit_val(hex.get_char(a + 1));
    let d2 = hex_digit_val(hex.get_char(a + 2));
    let d3 = hex_digit_val(hex.get_char(a + 3));
    let d4 = hex_digit_val(hex.get_char(a + 4));
    let d5 = hex_digit_val(hex.get_char(a + 5));
    proof {
        assert(forall|k: int| 0 <= k < 6 ==> t[k] == hex@[a + k]);
    }
    match (d0, d1, d2, d3, d4, d5) {
        (Some(v0), Some(v1), Some(v2), Some(v3), Some(v4), Some(v5)) => {
            let red = v0 * 16 + v1;
            let green = v2 * 16 + v3;
            let blue = v4 * 16 + v5;
            Ok((red, green, blue))
        },
        _ => {
            let mut m = String::new();
            m.append("Invalid hex color: ");
            m.append(hex.substring_char(a, n));
            Err(m)
        },
    }
}

fn parse_color(value: &str) -> (r: Result<Color, String>)
    ensures
        match r {
            Ok(c) => spec_parse_color(value@) == Ok::<ColorV, Seq<char>>(c@),
            Err(m) => spec_parse_color(value@) == Err::<ColorV, Seq<char>>(m@),
        },
{
    if crate::chars::str_eq(value, "black") {
        Ok(Color::Black)
    } else if crate::chars::str_eq(value, "red") {
        Ok(Color::Red)
    } else if crate::chars::str_eq(value, "green") {
        Ok(Color::Green)
    } else if crate::chars::str_eq(value, "yellow") {
        Ok(Color::Yellow)
    } else if crate::chars::str_eq(value, "blue") {
        Ok(Color::Blue)
    } else if crate::chars::str_eq(value, "purple") || crate::chars::str_eq(value, "magenta") {
        Ok(Color::Purple)
    } else if crate::chars::str_eq(value, "cyan") {
        Ok(Color::Cyan)
    } else if crate::chars::str_eq(value, "white") {
        Ok(Color::White)
    } else if value.unicode_len() > 0 && value.get_char(0) == '#' {
        Ok(Color::Hex(value.to_owned()))
    } else {
        let mut m = String::new();
        m.append("Unknown style component: ");
        m.append(value);
        Err(m)
    }
}

fn find_dot(s: &str, from: usize) -> (j: usize)
    requires
        from <= s@.len(),
    ensures
        j == dot_end(s@, from as int),
        from <= j <= s@.len(),
        j < s@.len() ==> s@[j as int] == '.',
{
    let n = s.unicode_len();
    let mut i: usize = from;
    while i < n
        invariant
            from <= i <= n,
            n == s@.len(),
            dot_end(s@, from as int) == dot_end(s@, i as int),
        decreases n - i,
    {
        if s.get_char(i) == '.' {
            return i;
        }
        i = i + 1;
    }
    n
}

fn find_plus(s: &str, from: usize) -> (j: usize)
    requires
        from <= s@.len(),
    ensures
        j == plus_end(s@, from as int),
        from <= j <= s@.len(),
        j < s@.len() ==> s@[j as int] == '+',
{
    let n = s.unicode_len();
    let mut i: usize = from;
    while i < n
        invariant
            from <= i <= n,
            n == s@.len(),
            plus_end(s@, from as int) == plus_end(s@, i as int),
        decreases n - i,
    {
        if s.get_char(i) == '+' {
            return i;
        }
        i = i + 1;
    }
    n
}

fn apply_part(style: &mut AnsiStyle, part: &str) -> (r: Result<(), String>)
    ensures
        match r {
            Ok(_) => spec_apply_part(old(style)@, part@) == Ok::<StyleV, Seq<char>>(final(style)@),
            Err(m) => spec_apply_part(old(style)@, part@) == Err::<StyleV, Seq<char>>(m@),
        },
{
    if crate::chars::str_eq(part, "bold") {
        style.bold = true;
        proof {
            assert(spec_apply_part(old(style)@, part@) == Ok::<StyleV, Seq<char>>(style@));
        }
        return Ok(());
    }
    if crate::chars::str_eq(part, "italic") {
        style.italic = true;
        proof {
            assert(spec_apply_part(old(style)@, part@) == Ok::<StyleV, Seq<char>>(style@));
        }
        return Ok(());
    }
    if crate::chars::str_eq(part, "underline") {
        style.underline = true;
        proof {
            assert(spec_apply_part(old(style)@, part@) == Ok::<StyleV, Seq<char>>(style@));
        }
        return Ok(());
    }
    if crate::chars::str_eq(part, "dim") {
        style.dim = true;
        proof {
            assert(spec_apply_part(old(style)@, part@) == Ok::<StyleV, Seq<char>>(style@));
        }
        return Ok(());
    }
    if crate::chars::str_eq(part, "reverse") {
        style.reverse = true;
        proof {
            assert(spec_apply_part(old(style)@, part@) == Ok::<StyleV, Seq<char>>(style@));
        }
        return Ok(());
    }
    if crate::chars::str_eq(part, "strikethrough") {
        style.strikethrough = true;
        proof {
            assert(spec_apply_part(old(style)@, part@) == Ok::<StyleV, Seq<char>>(style@));
        }
        return Ok(());
    }
    let n = part.unicode_len();
    let p = find_plus(part, 0);
    if p < n {
        let fg = part.substring_char(0, p);
        let bg = part.substring_char(p + 1, n);
        if fg.unicode_len() > 0 {
            match parse_color(fg) {
                Err(m) => {
                    return Err(m);
                },
                Ok(c) => {
                    if bg.unicode_len() == 0 {
                        let mut m = String::new();
                        m.append("Unknown style component: ");
                        m.append(part);
                        return Err(m);
                    }
                    match parse_color(bg) {
                        Err(m) => {
                            return Err(m);
                        },
                        Ok(b) => {
                            style.color = Some(c);
                            style.background = Some(b);
                            proof {
                                assert(spec_apply_part(old(style)@, part@) == Ok::<
                                    StyleV,
                                    Seq<char>,
                                >(style@));
                            }
                            return Ok(());
                        },
                    }
                },
            }
        } else {
            if bg.unicode_len() == 0 {
                let mut m = String::new();
                m.append("Unknown style component: ");
                m.append(part);
                return Err(m);
            }
            match parse_color(bg) {
                Err(m) => {
                    return Err(m);
                },
                Ok(b) => {
                    style.background = Some(b);
                    proof {
                        assert(spec_apply_part(old(style)@, part@) == Ok::<StyleV, Seq<char>>(
                            style@,
                        ));
                    }
                    return Ok(());
                },
            }
        }
    } else {
        match parse_color(part) {
            Err(m) => {
                return Err(m);
            },
            Ok(c) => {
                style.color = Some(c);
                proof {
                    assert(spec_apply_part(old(style)@, part@) == Ok::<StyleV, Seq<char>>(style@));
                }
                return Ok(());
            },
        }
    }
}

proof fn lemma_concat_eight(
    base: Seq<char>,
    t1: Seq<char>,
    t2: Seq<char>,
    t3: Seq<char>,
    t4: Seq<char>,
    t5: Seq<char>,
    t6: Seq<char>,
    t7: Seq<char>,
    t8: Seq<char>,
    b1: Seq<char>,
    b2: Seq<char>,
    b3: Seq<char>,
    b4: Seq<char>,
    b5: Seq<char>,
    b6: Seq<char>,
    b7: Seq<char>,
    b8: Seq<char>,
)
    requires
        b1 == base + t1,
        b2 == b1 + t2,
        b3 == b2 + t3,
        b4 == b3 + t4,
        b5 == b4 + t5,
        b6 == b5 + t6,
        b7 == b6 + t7,
        b8 == b7 + t8,
    ensures
        b8 == base + (t1 + t2 + t3 + t4 + t5 + t6 + t7 + t8),
{
    assert(b2 =~= base + (t1 + t2));
    assert(b3 =~= base + (t1 + t2 + t3));
    assert(b4 =~= base + (t1 + t2 + t3 + t4));
    assert(b5 =~= base + (t1 + t2 + t3 + t4 + t5));
    assert(b6 =~= base + (t1 + t2 + t3 + t4 + t5 + t6));
    assert(b7 =~= base + (t1 + t2 + t3 + t4 + t5 + t6 + t7));
    assert(b8 =~= base + (t1 + t2 + t3 + t4 + t5 + t6 + t7 + t8));
}

fn append_flag_code(buf: &mut String, flag: bool, code: &str)
    ensures
        final(buf)@ == old(buf)@ + (if flag {
            code@
        } else {
            Seq::<char>::empty()
        }),
{
    if flag {
        buf.append(code);
    } else {
        proof {
            assert(buf@ =~= buf@ + Seq::<char>::empty());
        }
    }
}

impl AnsiStyle {
    /// Parses a dot-separated style descriptor, as `spec_parse_style` says.
    pub fn parse(style_str: &str) -> (r: Result<AnsiStyle, String>)
        ensures
            match r {
                Ok(st) => spec_parse_style(style_str@) == Ok::<StyleV, Seq<char>>(st@),
                Err(m) => spec_parse_style(style_str@) == Err::<StyleV, Seq<char>>(m@),
            },
    {
        let mut style = AnsiStyle {
            color: None,
            background: None,
            bold: false,
            italic: false,
            underline: false,
            dim: false,
            reverse: false,
            strikethrough: false,
        };
        proof {
            assert(style@ =~= spec_empty_style());
        }
        let n = style_str.unicode_len();
        if n == 0 {
            return Ok(style);
        }
        let ghost s = style_str@;
        let mut i: usize = 0;
        loop
            invariant
                0 <= i <= n,
                n == s.len(),
                style_str@ == s,
                spec_style_from(s, i as int, style@) == spec_parse_style(s),
            decreases n - i,
        {
            let e = find_dot(style_str, i);
            let part = style_str.substring_char(i, e);
            match apply_part(&mut style, part) {
                Err(m) => {
                    return Err(m);
                },
                Ok(_) => {
                    if e == n {
                        return Ok(style);
                    }
                    i = e + 1;
                },
            }
        }
    }

    /// Whether this style sets anything at all.
    pub fn has_style(&self) -> (r: bool)
        ensures
            r == spec_has_style(self@),
    {
        self.color.is_some() || self.background.is_some() || self.bold || self.italic
            || self.underline || self.dim || self.reverse || self.strikethrough
    }

    fn write_raw_codes(&self, buf: &mut String)
        ensures
            final(buf)@ == old(buf)@ + spec_raw_codes(self@),
    {
        let ghost t1 = match self@.color {
            Some(c) => spec_fg_code(c),
            None => Seq::<char>::empty(),
        };
        let ghost t2 = match self@.background {
            Some(c) => spec_bg_code(c),
            None => Seq::<char>::empty(),
        };
        let ghost t3 = if self@.bold {
            "\u{1b}[1m"@
        } else {
            Seq::<char>::empty()
        };
        let ghost t4 = if self@.dim {
            "\u{1b}[2m"@
        } else {
            Seq::<char>::empty()
        };
        let ghost t5 = if self@.italic {
            "\u{1b}[3m"@
        } else {
            Seq::<char>::empty()
        };
        let ghost t6 = if self@.underline {
            "\u{1b}[4m"@
        } else {
            Seq::<char>::empty()
        };
        let ghost t7 = if self@.reverse {
            "\u{1b}[7m"@
        } else {
            Seq::<char>::empty()
        };
        let ghost t8 = if self@.strikethrough {
            "\u{1b}[9m"@
        } else {
            Seq::<char>::empty()
        };
        let ghost base = buf@;
        match &self.color {
            Some(color) => color.push_fg_code(buf),
            None => (),
        }
        let ghost b1 = buf@;
        match &self.background {
            Some(color) => color.push_bg_code(buf),
            None => (),
        }
        let ghost b2 = buf@;
        append_flag_code(buf, self.bold, "\u{1b}[1m");
        let ghost b3 = buf@;
        append_flag_code(buf, self.dim, "\u{1b}[2m");
        let ghost b4 = buf@;
        append_flag_code(buf, self.italic, "\u{1b}[3m");
        let ghost b5 = buf@;
        append_flag_code(buf, self.underline, "\u{1b}[4m");
        let ghost b6 = buf@;
        append_flag_code(buf, self.reverse, "\u{1b}[7m");
        let ghost b7 = buf@;
        append_flag_code(buf, self.strikethrough, "\u{1b}[9m");
        proof {
            lemma_concat_eight(base, t1, t2, t3, t4, t5, t6, t7, t8, b1, b2, b3, b4, b5, b6, b7,
                buf@);
        }
    }

    /// Appends what this style writes before the text.
    pub fn write_start_codes(&self, buf: &mut String, shell: Shell)
        ensures
            final(buf)@ == old(buf)@ + spec_start_codes(self@, shell),
    {
        if !self.has_style() {
            proof {
                assert(buf@ =~= old(buf)@ + spec_start_codes(self@, shell));
            }
            return;
        }
        if shell == Shell::Plain {
            self.write_raw_codes(buf);
        } else {
            let (open_delim, close_delim) = shell.delimiters();
            buf.append(open_delim);
            self.write_raw_codes(buf);
            buf.append(close_delim);
            proof {
                assert(buf@ =~= old(buf)@ + spec_start_codes(self@, shell));
            }
        }
    }

    /// Appends what this style writes after the text.
    pub fn write_reset(&self, buf: &mut String, shell: Shell)
        ensures
            final(buf)@ == old(buf)@ + spec_reset_codes(self@, shell),
    {
        if !self.has_style() {
            proof {
                assert(buf@ =~= old(buf)@ + spec_reset_codes(self@, shell));
            }
            return;
        }
        if shell == Shell::Plain {
            buf.append("\u{1b}[0m");
        } else {
            let (open_delim, close_delim) = shell.delimiters();
            buf.append(open_delim);
            buf.append("\u{1b}[0m");
            buf.append(close_delim);
            proof {
                assert(buf@ =~= old(buf)@ + spec_reset_codes(self@, shell));
            }
        }
    }

    /// Wraps a text in this style's codes, as `spec_apply_style` says.
    pub fn apply_with_shell(&self, text: &str, shell: Shell) -> (r: String)
        ensures
            r@ == spec_apply_style(self@, text@, shell),
    {
        if !self.has_style() {
            return text.to_owned();
        }
        let mut out = String::new();
        self.write_start_codes(&mut out, shell);
        out.append(text);
        self.write_reset(&mut out, shell);
        out
    }

    /// Wraps a text in this style's codes with no shell delimiters.
    pub fn apply(&self, text: &str) -> (r: String)
        ensures
            r@ == spec_apply_style(self@, text@, Shell::Plain),
    {
        self.apply_with_shell(text, Shell::Plain)
    }
}

impl Color {
    fn push_fg_code(&self, buf: &mut String)
        ensures
            final(buf)@ == old(buf)@ + spec_fg_code(self@),
    {
        proof {
            reveal(spec_fg_code);
        }
        match self {
            Color::Black => buf.append("\u{1b}[30m"),
            Color::Red => buf.append("\u{1b}[31m"),
            Color::Green => buf.append("\u{1b}[32m"),
            Color::Yellow => buf.append("\u{1b}[33m"),
            Color::Blue => buf.append("\u{1b}[34m"),
            Color::Purple => buf.append("\u{1b}[35m"),
            Color::Cyan => buf.append("\u{1b}[36m"),
            Color::White => buf.append("\u{1b}[37m"),
            Color::Hex(hex) => {
                match parse_hex_color(hex.as_str()) {
                    Ok((red, green, blue)) => {
                        buf.append("\u{1b}[38;2;");
                        let ds = u64_to_string(red as u64);
                        buf.append(ds.as_str());
                        buf.append(";");
                        let ds = u64_to_string(green as u64);
                        buf.append(ds.as_str());
                        buf.append(";");
                        let ds = u64_to_string(blue as u64);
                        buf.append(ds.as_str());
                        buf.append("m");
                        proof {
                            assert(buf@ =~= old(buf)@ + spec_fg_code(self@));
                        }
                    },
                    Err(_) => (),
                }
            },
        }
        proof {
            assert(buf@ =~= old(buf)@ + spec_fg_code(self@));
        }
    }

    fn push_bg_code(&self, buf: &mut String)
        ensures
            final(buf)@ == old(buf)@ + spec_bg_code(self@),
    {
        proof {
            reveal(spec_bg_code);
        }
        match self {
            Color::Black => buf.append("\u{1b}[40m"),
            Color::Red => buf.append("\u{1b}[41m"),
            Color::Green => buf.append("\u{1b}[42m"),
            Color::Yellow => buf.append("\u{1b}[43m"),
            Color::Blue => buf.append("\u{1b}[44m"),
            Color::Purple => buf.append("\u{1b}[45m"),
            Color::Cyan => buf.append("\u{1b}[46m"),
            Color::White => buf.append("\u{1b}[47m"),
            Color::Hex(hex) => {
                match parse_hex_color(hex.as_str()) {
                    Ok((red, green, blue)) => {
                        buf.append("\u{1b}[48;2;");
                        let ds = u64_to_string(red as u64);
                        buf.append(ds.as_str());
                        buf.append(";");
                        let ds = u64_to_string(green as u64);
                        buf.append(ds.as_str());
                        buf.append(";");
                        let ds = u64_to_string(blue as u64);
                        buf.append(ds.as_str());
                        buf.append("m");
                        proof {
                            assert(buf@ =~= old(buf)@ + spec_bg_code(self@));
                        }
                    },
                    Err(_) => (),
                }
            },
        }
        proof {
            assert(buf@ =~= old(buf)@ + spec_bg_code(self@));
        }
    }
}

/// What every style engine offers: parsing a descriptor and applying the
/// result to a text.
pub trait ModuleStyle: Sized {
    fn parse(style_str: &str) -> Result<Self, String>;

    fn apply(&self, text: &str) -> String;

    fn apply_with_shell(&self, text: &str, shell: Shell) -> String;
}

impl ModuleStyle for AnsiStyle {
    fn parse(style_str: &str) -> Result<Self, String> {
        AnsiStyle::parse(style_str)
    }

    fn apply(&self, text: &str) -> String {
        AnsiStyle::apply(self, text)
    }

    fn apply_with_shell(&self, text: &str, shell: Shell) -> String {
        AnsiStyle::apply_with_shell(self, text, shell)
    }
}

} // verus!
