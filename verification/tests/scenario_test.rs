//! End-to-end scenarios: concrete templates, probes and contexts with their
//! exact expected output.

use prmt::cache::GitInfo;
use prmt::{execute, parse, render_template, AnsiStyle, ModuleContext, ModuleStyle, ModuleRegistry,
    Provider, PromptError, SystemProbe, Template, Token};
use prmt::modules::ok::OkModule;

#[test]
fn scenario_path_inside_home_renders_tilde() {
    let mut probe = SystemProbe::empty();
    probe.current_dir = Some("/home/u/project".to_string());
    probe.home_dir = Some("/home/u".to_string());
    let result = execute("{path}", true, None, false, &probe).unwrap();
    assert_eq!(result, "~/project");
}

#[test]
fn scenario_path_with_shared_prefix_is_not_tilde() {
    let mut probe = SystemProbe::empty();
    probe.current_dir = Some("/base/alpine".to_string());
    probe.home_dir = Some("/base/al".to_string());
    let result = execute("{path}", true, None, false, &probe).unwrap();
    assert_eq!(result, "/base/alpine");
}

#[test]
fn scenario_path_short_is_basename() {
    let mut probe = SystemProbe::empty();
    probe.current_dir = Some("/home/u/project".to_string());
    let result = execute("{path::short}", true, None, false, &probe).unwrap();
    assert_eq!(result, "project");
}

#[test]
fn scenario_path_truncate_appends_ellipsis() {
    let mut probe = SystemProbe::empty();
    probe.current_dir = Some("/very/long/path/name/here".to_string());
    let result = execute("{path::truncate\\:10}", true, None, false, &probe).unwrap();
    assert_eq!(result, "/very/l...");
}

#[test]
fn scenario_path_invalid_format_is_error() {
    let mut probe = SystemProbe::empty();
    probe.current_dir = Some("/home/u".to_string());
    let err = execute("{path::sideways}", true, None, false, &probe).unwrap_err();
    match err {
        PromptError::InvalidFormat { module, format, .. } => {
            assert_eq!(module, "path");
            assert_eq!(format, "sideways");
        }
        other => panic!("expected invalid format error, got {other:?}"),
    }
}

#[test]
fn scenario_escaped_braces_and_placeholder_tokens() {
    let tokens = parse("\\{escaped\\} {real}");
    assert_eq!(tokens.len(), 5);
    assert_eq!(tokens[0], Token::Text(String::from("{")));
    assert_eq!(tokens[1], Token::Text(String::from("escaped")));
    assert_eq!(tokens[2], Token::Text(String::from("}")));
    assert_eq!(tokens[3], Token::Text(String::from(" ")));
    match &tokens[4] {
        Token::Placeholder(params) => assert_eq!(params.module, "real"),
        _ => panic!("Expected placeholder token"),
    }
}

#[test]
fn scenario_fail_code_renders_exit_code() {
    let probe = SystemProbe::empty();
    let result = execute("{fail::code}", true, Some(42), false, &probe).unwrap();
    assert_eq!(result, "42");
}

#[test]
fn scenario_style_red_bold_wraps_text() {
    let style = AnsiStyle::parse("red.bold").unwrap();
    assert_eq!(style.color, Some(prmt::style::Color::Red));
    assert!(style.bold);
    assert!(!style.italic);
    assert!(!style.underline);
    assert!(!style.dim);
    assert!(!style.reverse);
    assert!(!style.strikethrough);
    assert_eq!(style.background, None);
    assert_eq!(style.apply("x"), "\x1b[31m\x1b[1mx\x1b[0m");
}

#[test]
fn scenario_three_placeholders_keep_template_order() {
    // Three placeholders take the slot-based strategy; the output must be
    // in template order all the same.
    let probe = SystemProbe::empty();
    let result = execute("{fail::a}-{fail::b}-{fail::code}", true, Some(7), false, &probe).unwrap();
    assert_eq!(result, "a-b-7");
}

#[test]
fn scenario_sequential_and_slot_strategies_agree() {
    // The same placeholder rendered alone (one pass) and alongside others
    // (slot-based) contributes identical bytes.
    let probe = SystemProbe::empty();
    let single = execute("{fail::code}", true, Some(3), false, &probe).unwrap();
    let multiple = execute("{fail::code}{fail::code}{fail::code}", true, Some(3), false, &probe)
        .unwrap();
    assert_eq!(multiple, format!("{}{}{}", single, single, single));
}

#[test]
fn scenario_unknown_module_aborts() {
    let probe = SystemProbe::empty();
    let err = execute("{nosuch}", true, None, false, &probe).unwrap_err();
    match err {
        PromptError::UnknownModule(name) => assert_eq!(name, "nosuch"),
        other => panic!("expected unknown module error, got {other:?}"),
    }
}

#[test]
fn scenario_style_error_names_module() {
    let probe = SystemProbe::empty();
    let err = execute("{ok:notacolor}", true, Some(0), false, &probe).unwrap_err();
    match err {
        PromptError::StyleError { module, error } => {
            assert_eq!(module, "ok");
            assert_eq!(error, "Unknown style component: notacolor");
        }
        other => panic!("expected style error, got {other:?}"),
    }
}

#[test]
fn scenario_time_invalid_format_error_lists_formats() {
    let probe = SystemProbe::empty();
    let err = execute("{time::25h}", true, None, false, &probe).unwrap_err();
    match err {
        PromptError::InvalidFormat { module, format, valid_formats } => {
            assert_eq!(module, "time");
            assert_eq!(format, "25h");
            assert!(valid_formats.contains("24h"));
        }
        other => panic!("expected invalid format error, got {other:?}"),
    }
}

#[test]
fn scenario_env_value_through_execute() {
    let mut probe = SystemProbe::empty();
    probe.env_values = vec![("USER".to_string(), "alice".to_string())];
    let result = execute("{env::USER}", true, None, false, &probe).unwrap();
    assert_eq!(result, "alice");
}

#[test]
fn scenario_empty_value_contributes_nothing() {
    // A provider that yields nothing leaves no residue between its
    // neighbours.
    let probe = SystemProbe::empty();
    let result = execute("a{ok:}b", true, Some(1), false, &probe).unwrap();
    assert_eq!(result, "ab");
}

#[test]
fn scenario_prefix_suffix_emitted_without_value() {
    // The python provider yields an empty value when version lookups are
    // off: alone it contributes nothing, but a prefix and suffix still
    // wrap it.
    let mut probe = SystemProbe::empty();
    probe.markers = vec![(
        "requirements.txt".to_string(),
        "/p/requirements.txt".to_string(),
    )];
    let bare = execute("{python}", true, None, false, &probe).unwrap();
    assert_eq!(bare, "");
    let wrapped = execute("{python:::<:>}", true, None, false, &probe).unwrap();
    assert_eq!(wrapped, "<>");
}

#[test]
fn scenario_git_full_flags() {
    let mut probe = SystemProbe::empty();
    probe.git = Some(GitInfo {
        branch: "main".to_string(),
        has_changes: true,
        has_staged: true,
        has_untracked: true,
    });
    let result = execute("{git}", true, None, false, &probe).unwrap();
    assert_eq!(result, "main*+?");
    let result = execute("{git::short}", true, None, false, &probe).unwrap();
    assert_eq!(result, "main");
}

#[test]
fn scenario_node_version_formats() {
    let mut probe = SystemProbe::empty();
    probe.node_version = Some("20.11.1".to_string());
    probe.markers = vec![("package.json".to_string(), "/p/package.json".to_string())];
    assert_eq!(
        execute("{node}", false, None, false, &probe).unwrap(),
        "20.11.1"
    );
    assert_eq!(
        execute("{node::short}", false, None, false, &probe).unwrap(),
        "20.11"
    );
    assert_eq!(
        execute("{node::major}", false, None, false, &probe).unwrap(),
        "20"
    );
    assert_eq!(execute("{node}", true, None, false, &probe).unwrap(), "node");
}

#[test]
fn scenario_node_without_marker_is_silent() {
    let mut probe = SystemProbe::empty();
    probe.node_version = Some("20.11.1".to_string());
    assert_eq!(execute("{node}", false, None, false, &probe).unwrap(), "");
}

#[test]
fn scenario_render_template_with_registry() {
    let mut registry = ModuleRegistry::new();
    registry.register("ok".to_string(), Provider::Okay(OkModule::new()));
    let mut context = ModuleContext::default();
    context.exit_code = Some(0);
    let result = render_template("{ok:}", &registry, &context, false).unwrap();
    assert_eq!(result, "❯");
}

#[test]
fn scenario_compiled_template_renders_repeatedly() {
    let source = String::from("{ok:}");
    let template = Template::new(&source);
    assert_eq!(template.token_count(), 1);
    let mut registry = ModuleRegistry::new();
    registry.register("ok".to_string(), Provider::Okay(OkModule::new()));
    let mut context = ModuleContext::default();
    context.exit_code = Some(0);
    assert_eq!(template.render(&registry, &context, false).unwrap(), "❯");
    assert_eq!(template.render(&registry, &context, false).unwrap(), "❯");
}

#[test]
fn scenario_styled_segment_folds_prefix_and_suffix() {
    // Prefix and suffix are folded into the styled segment, not styled
    // separately.
    let probe = SystemProbe::empty();
    let result = execute("{ok:red::[:]}", true, Some(0), false, &probe).unwrap();
    assert_eq!(result, "\x1b[31m[❯]\x1b[0m");
}

#[test]
fn scenario_no_color_strips_styling() {
    let probe = SystemProbe::empty();
    let result = execute("{ok:red}", true, Some(0), true, &probe).unwrap();
    assert_eq!(result, "❯");
}

#[test]
fn scenario_bash_shell_delimits_escapes() {
    let probe = SystemProbe::empty();
    let result = prmt::execute_with_shell(
        "{ok:red}",
        true,
        Some(0),
        false,
        prmt::Shell::Bash,
        &probe,
    )
    .unwrap();
    assert_eq!(result, "\x01\x1b[31m\x02❯\x01\x1b[0m\x02");
}

#[test]
fn scenario_error_messages() {
    assert_eq!(
        PromptError::UnknownModule("x".to_string()).message(),
        "Unknown module: x"
    );
    assert_eq!(
        PromptError::StyleError {
            module: "ok".to_string(),
            error: "bad".to_string()
        }
        .message(),
        "Style error for module 'ok': bad"
    );
    assert_eq!(
        PromptError::InvalidFormat {
            module: "git".to_string(),
            format: "x".to_string(),
            valid_formats: "full, f, short, s".to_string()
        }
        .message(),
        "Invalid format 'x' for module 'git'. Valid formats: full, f, short, s"
    );
}
