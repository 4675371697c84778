use prmt::cache::GitInfo;
use prmt::{execute, parse, SystemProbe, Token};

#[test]
fn test_ok_fail_modules() {
    let probe = SystemProbe::empty();
    // Test with exit code 0 (ok) - use : to disable default styles
    let result = execute("{ok:}{fail:}", true, Some(0), false, &probe).expect("Failed to execute");
    assert_eq!(result, "❯"); // Only ok should show

    // Test with exit code 1 (fail) - use : to disable default styles
    let result = execute("{ok:}{fail:}", true, Some(1), false, &probe).expect("Failed to execute");
    assert_eq!(result, "❯"); // Only fail should show
}

#[test]
fn integration_test_test_escape_sequences() {
    let probe = SystemProbe::empty();
    let result =
        execute("Line1\\nLine2\\tTab", true, None, false, &probe).expect("Failed to execute");
    assert_eq!(result, "Line1\nLine2\tTab");
}

#[test]
fn test_git_module() {
    let mut probe = SystemProbe::empty();
    probe.git = Some(GitInfo {
        branch: "main".to_string(),
        has_changes: false,
        has_staged: false,
        has_untracked: false,
    });
    let result = execute("{git}", true, None, false, &probe).expect("Failed to execute");
    // In a git repo, should show branch name (any non-empty string is valid)
    // The result might have a * suffix if there are uncommitted changes
    assert!(!result.is_empty(), "Git module should return a branch name");
}

#[test]
fn test_styles() {
    let probe = SystemProbe::empty();
    // Test with styles - this should work without errors, but we won't check ANSI codes
    let formats = vec![
        "{path:cyan}",
        "{git:purple}",
        "{path:blue.bold}",
        "{rust:red}",
    ];

    for format in formats {
        let result = execute(format, true, None, false, &probe);
        assert!(result.is_ok(), "Failed to parse: {}", format);
    }
}

#[test]
fn test_prefix_suffix() {
    let probe = SystemProbe::empty();
    // Test prefix and suffix
    let formats = vec!["{path:::before:after}", "{git:::>>>:<<<}", "{ok:::[:]}"];

    for format in formats {
        let result = execute(format, true, None, false, &probe);
        assert!(result.is_ok(), "Failed to parse: {}", format);
    }
}

#[test]
fn test_rust_module() {
    let probe = SystemProbe::empty();
    let result = execute("{rust}", false, None, false, &probe).expect("Failed to execute");
    // If in a Rust project, should contain version number
    if !result.is_empty() {
        assert!(result.contains(".") || result == "rust"); // Either version or "rust" if no-version
    }
}

#[test]
fn test_custom_symbols() {
    let probe = SystemProbe::empty();
    // Test ok with custom symbol - use : to disable default styles
    let result = execute("{ok::✓}", true, Some(0), false, &probe).expect("Failed to execute");
    assert_eq!(result, "✓");

    // Test fail with custom symbol - use : to disable default styles
    let result = execute("{fail::✗}", true, Some(1), false, &probe).expect("Failed to execute");
    assert_eq!(result, "✗");

    // Test fail with code format
    let result = execute("{fail::code}", true, Some(42), false, &probe).expect("Failed to execute");
    assert_eq!(result, "42");
}

#[test]
fn test_parser_tokens() {
    // Test that parser produces correct tokens
    let tokens = parse("{path:cyan:short:[:]}");

    match &tokens[0] {
        Token::Placeholder(params) => {
            assert_eq!(params.module, "path");
            assert_eq!(params.style, "cyan");
            assert_eq!(params.format, "short");
            assert_eq!(params.prefix, "[");
            assert_eq!(params.suffix, "]");
        }
        _ => panic!("Expected placeholder token"),
    }
}

#[test]
fn test_parser_escapes() {
    let tokens = parse("\\{not\\:placeholder\\}");
    // The parser may produce multiple text tokens due to escape processing
    let combined: String = tokens
        .iter()
        .map(|t| match t {
            Token::Text(text) => text.clone(),
            _ => panic!("Expected only text tokens"),
        })
        .collect();
    assert_eq!(combined, "{not:placeholder}");
}

#[test]
fn test_mixed_text_placeholders() {
    let tokens = parse("text {path} more {git} end");
    assert_eq!(tokens.len(), 5);

    match &tokens[0] {
        Token::Text(text) => assert_eq!(text, "text "),
        _ => panic!("Expected text token"),
    }

    match &tokens[1] {
        Token::Placeholder(params) => assert_eq!(params.module, "path"),
        _ => panic!("Expected placeholder token"),
    }

    match &tokens[2] {
        Token::Text(text) => assert_eq!(text, " more "),
        _ => panic!("Expected text token"),
    }

    match &tokens[3] {
        Token::Placeholder(params) => assert_eq!(params.module, "git"),
        _ => panic!("Expected placeholder token"),
    }

    match &tokens[4] {
        Token::Text(text) => assert_eq!(text, " end"),
        _ => panic!("Expected text token"),
    }
}
