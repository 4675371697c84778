use std::str::FromStr;

use prmt::style::Color;
use prmt::{AnsiStyle, ModuleStyle, Shell};

#[test]
fn test_parse_simple_color() {
    let style = AnsiStyle::parse("red").unwrap();
    assert_eq!(style.color, Some(Color::Red));
    assert!(!style.bold);
}

#[test]
fn test_parse_color_with_modifiers() {
    let style = AnsiStyle::parse("cyan.bold.italic").unwrap();
    assert_eq!(style.color, Some(Color::Cyan));
    assert!(style.bold);
    assert!(style.italic);
}

#[test]
fn test_parse_hex_color() {
    let style = AnsiStyle::parse("#00ff00").unwrap();
    assert!(matches!(style.color, Some(Color::Hex(_))));
}

#[test]
fn test_parse_fg_bg_colors() {
    let style = AnsiStyle::parse("red+#00ff00").unwrap();
    assert_eq!(style.color, Some(Color::Red));
    assert_eq!(style.background, Some(Color::Hex("#00ff00".to_string())));
}

#[test]
fn test_parse_bg_only() {
    let style = AnsiStyle::parse("+#112233").unwrap();
    assert_eq!(style.color, None);
    assert_eq!(style.background, Some(Color::Hex("#112233".to_string())));
}

#[test]
fn test_apply_style() {
    let style = AnsiStyle::parse("red.bold").unwrap();
    let result = style.apply("test");
    assert!(result.starts_with("\x1b[31m"));
    assert!(result.contains("\x1b[1m"));
    assert!(result.ends_with("test\x1b[0m"));
}

#[test]
fn test_empty_style() {
    let style = AnsiStyle::parse("").unwrap();
    let result = style.apply("test");
    assert_eq!(result, "test");
}

#[test]
fn test_apply_with_background() {
    let style = AnsiStyle::parse("red+#00ff00").unwrap();
    let result = style.apply("test");
    assert!(result.contains("\x1b[31m"));
    assert!(result.contains("\x1b[48;2;0;255;0m"));
    assert!(result.ends_with("test\x1b[0m"));
}

#[test]
fn test_apply_with_shell_wraps_bash_sequences() {
    let style = AnsiStyle::parse("red.bold").unwrap();
    let result = style.apply_with_shell("ok", Shell::Bash);
    assert!(result.starts_with("\x01\x1b[31m\x1b[1m\x02"));
    assert!(result.ends_with("ok\x01\x1b[0m\x02"));
}

#[test]
fn test_shell_from_str() {
    assert_eq!(Shell::from_str("bash").unwrap(), Shell::Bash);
    assert_eq!(Shell::from_str("ZSH").unwrap(), Shell::Zsh);
    assert_eq!(Shell::from_str("none").unwrap(), Shell::Plain);
    assert!(Shell::from_str("fish").is_err());
}

#[test]
fn test_shell_delimiters() {
    assert_eq!(Shell::Zsh.delimiters(), ("%{", "%}"));
    assert_eq!(Shell::Bash.delimiters(), ("\x01", "\x02"));
    assert_eq!(Shell::Plain.delimiters(), ("", ""));
}

#[test]
fn test_unknown_style_component_message() {
    let err = AnsiStyle::parse("notacolor").unwrap_err();
    assert_eq!(err, "Unknown style component: notacolor");
}

#[test]
fn test_invalid_hex_color_is_silent_in_codes() {
    // A hex color that does not parse contributes no escape codes, but the
    // style still counts as set, so the reset is emitted.
    let style = AnsiStyle::parse("#zzz").unwrap();
    let result = style.apply("x");
    assert_eq!(result, "x\x1b[0m");
}

#[test]
fn test_empty_background_is_error() {
    assert!(AnsiStyle::parse("red+").is_err());
}
