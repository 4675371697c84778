use prmt::modules::env::EnvModule;
use prmt::modules::fail::FailModule;
use prmt::modules::host::HostModule;
use prmt::modules::ok::OkModule;
use prmt::modules::time::{TimeModule, TimeParts};
use prmt::modules::whoami::WhoamiModule;
use prmt::{ModuleContext, PromptError};
use regex::Regex;

#[test]
fn test_fail_on_non_zero_exit_code() {
    let module = FailModule::new();
    let mut context = ModuleContext::default();
    context.exit_code = Some(127);
    let result = module.render("", &context).unwrap();
    assert_eq!(result, Some("❯".to_string()));
}

#[test]
fn test_fail_hidden_on_success() {
    let module = FailModule::new();
    let mut context = ModuleContext::default();
    context.exit_code = Some(0);
    let result = module.render("", &context).unwrap();
    assert_eq!(result, None);
}

#[test]
fn test_fail_shows_exit_code() {
    let module = FailModule::new();
    let mut context = ModuleContext::default();
    context.exit_code = Some(42);
    let result = module.render("code", &context).unwrap();
    assert_eq!(result, Some("42".to_string()));
}

#[test]
fn test_fail_custom_symbol() {
    let module = FailModule::new();
    let mut context = ModuleContext::default();
    context.exit_code = Some(1);
    let result = module.render("✗", &context).unwrap();
    assert_eq!(result, Some("✗".to_string()));
}

#[test]
fn test_ok_on_zero_exit_code() {
    let module = OkModule::new();
    let mut context = ModuleContext::default();
    context.exit_code = Some(0);
    let result = module.render("", &context).unwrap();
    assert_eq!(result, Some("❯".to_string()));
}

#[test]
fn test_ok_hidden_on_error() {
    let module = OkModule::new();
    let mut context = ModuleContext::default();
    context.exit_code = Some(1);
    let result = module.render("", &context).unwrap();
    assert_eq!(result, None);
}

#[test]
fn test_ok_custom_symbol() {
    let module = OkModule::new();
    let mut context = ModuleContext::default();
    context.exit_code = Some(0);
    let result = module.render("✓", &context).unwrap();
    assert_eq!(result, Some("✓".to_string()));
}

#[test]
fn test_ok_code_format() {
    let module = OkModule::new();
    let mut context = ModuleContext::default();
    context.exit_code = Some(0);
    let result = module.render("code", &context).unwrap();
    assert_eq!(result, Some("0".to_string()));
}

#[test]
fn errors_when_format_missing() {
    let module = EnvModule::new();
    let err = module.render("", &ModuleContext::default()).unwrap_err();

    match err {
        PromptError::InvalidFormat { module, .. } => assert_eq!(module, "env"),
        other => panic!("expected invalid format error, got {other:?}"),
    }
}

#[test]
fn env_value_present() {
    let module = EnvModule::with_values(vec![(
        "PRMT_TEST_ENV_PRESENT".to_string(),
        "zenpie".to_string(),
    )]);
    let value = module
        .render("PRMT_TEST_ENV_PRESENT", &ModuleContext::default())
        .unwrap();
    assert_eq!(value, Some("zenpie".to_string()));
}

#[test]
fn env_value_missing() {
    let module = EnvModule::new();
    let value = module
        .render("PRMT_TEST_ENV_MISSING", &ModuleContext::default())
        .unwrap();
    assert_eq!(value, None);
}

#[test]
fn env_value_empty() {
    let module = EnvModule::with_values(vec![("PRMT_TEST_ENV_EMPTY".to_string(), String::new())]);
    let value = module
        .render("PRMT_TEST_ENV_EMPTY", &ModuleContext::default())
        .unwrap();
    assert_eq!(value, None);
}

fn clock() -> TimeModule {
    TimeModule::new(Some(TimeParts {
        hour24: 13,
        minute: 45,
        second: 7,
    }))
}

#[test]
fn test_time_module_default_format() {
    let module = clock();
    let context = ModuleContext::default();

    let result = module.render("", &context).unwrap();
    assert!(result.is_some());
    let time = result.unwrap();
    assert_eq!(time.len(), 5);
    assert!(time.contains(':'));

    let re = Regex::new(r"^\d{2}:\d{2}$").unwrap();
    assert!(re.is_match(&time), "Expected HH:MM format, got: {}", time);
}

#[test]
fn test_time_module_24h_format() {
    let module = clock();
    let context = ModuleContext::default();

    let result = module.render("24h", &context).unwrap();
    assert!(result.is_some());
    let time = result.unwrap();
    assert_eq!(time.len(), 5);

    let re = Regex::new(r"^\d{2}:\d{2}$").unwrap();
    assert!(re.is_match(&time), "Expected HH:MM format, got: {}", time);
}

#[test]
fn test_time_module_24hs_format() {
    let module = clock();
    let context = ModuleContext::default();

    let re = Regex::new(r"^\d{2}:\d{2}:\d{2}$").unwrap();
    for format in &["24hs", "24HS"] {
        let result = module.render(format, &context).unwrap();
        assert!(result.is_some());
        let time = result.unwrap();
        assert_eq!(time.len(), 8);

        assert!(
            re.is_match(&time),
            "Expected HH:MM:SS format for {}, got: {}",
            format,
            time
        );
    }
}

#[test]
fn test_time_module_12h_format() {
    let module = clock();
    let context = ModuleContext::default();

    let re = Regex::new(r"^\d{2}:\d{2}(AM|PM)$").unwrap();
    for format in &["12h", "12H"] {
        let result = module.render(format, &context).unwrap();
        assert!(result.is_some());
        let time = result.unwrap();

        assert!(
            re.is_match(&time),
            "Expected hh:MMAM/PM format for {}, got: {}",
            format,
            time
        );

        assert!(time.ends_with("AM") || time.ends_with("PM"));
    }
}

#[test]
fn test_time_module_12hs_format() {
    let module = clock();
    let context = ModuleContext::default();

    let re = Regex::new(r"^\d{2}:\d{2}:\d{2}(AM|PM)$").unwrap();
    for format in &["12hs", "12HS"] {
        let result = module.render(format, &context).unwrap();
        assert!(result.is_some());
        let time = result.unwrap();

        assert!(
            re.is_match(&time),
            "Expected hh:MM:SSAM/PM format for {}, got: {}",
            format,
            time
        );

        assert!(time.ends_with("AM") || time.ends_with("PM"));
    }
}

#[test]
fn test_time_module_unknown_format_returns_error() {
    let module = TimeModule::new(None);
    let context = ModuleContext::default();

    let unknown_formats = vec!["invalid", "xyz", "13h", "25h", "random"];

    for format in unknown_formats {
        let result = module.render(format, &context);
        assert!(
            result.is_err(),
            "Unknown format '{}' should return error",
            format
        );
    }
}

#[test]
fn test_time_module_valid_and_invalid_formats() {
    let module = clock();
    let context = ModuleContext::default();

    let valid_formats = vec!["", "24h", "24hs", "24HS", "12h", "12H", "12hs", "12HS"];
    let invalid_formats = vec!["invalid", "test", "13h", "random"];

    for format in valid_formats {
        let result = module.render(format, &context);
        assert!(result.is_ok(), "Valid format '{}' should succeed", format);
        let value = result.unwrap();
        assert!(
            value.is_some(),
            "Time module should return Some for valid format: {}",
            format
        );
    }

    for format in invalid_formats {
        let result = module.render(format, &context);
        assert!(
            result.is_err(),
            "Invalid format '{}' should return error",
            format
        );
    }
}

#[test]
fn test_time_module_hour_range() {
    let module = clock();
    let context = ModuleContext::default();

    let result_24h = module.render("24h", &context).unwrap();
    assert!(result_24h.is_some());
    let time_24h = result_24h.unwrap();
    let hour = &time_24h[0..2].parse::<u32>().unwrap();
    assert!(*hour <= 23, "24h format hour should be 0-23, got: {}", hour);

    let result_12h = module.render("12h", &context).unwrap();
    assert!(result_12h.is_some());
    let time_12h = result_12h.unwrap();
    let hour = &time_12h[0..2].parse::<u32>().unwrap();
    assert!(
        *hour >= 1 && *hour <= 12,
        "12h format hour should be 1-12, got: {}",
        hour
    );
}

#[test]
fn test_time_exact_formats() {
    let module = clock();
    let context = ModuleContext::default();
    assert_eq!(module.render("", &context).unwrap(), Some("13:45".to_string()));
    assert_eq!(
        module.render("24hs", &context).unwrap(),
        Some("13:45:07".to_string())
    );
    assert_eq!(
        module.render("12h", &context).unwrap(),
        Some("01:45PM".to_string())
    );
    assert_eq!(
        module.render("12hs", &context).unwrap(),
        Some("01:45:07PM".to_string())
    );
}

#[test]
fn test_time_midnight_reads_as_twelve() {
    let module = TimeModule::new(Some(TimeParts {
        hour24: 0,
        minute: 5,
        second: 0,
    }));
    let context = ModuleContext::default();
    assert_eq!(
        module.render("12h", &context).unwrap(),
        Some("12:05AM".to_string())
    );
}

#[test]
fn test_host_module_renders_hostname() {
    let module = HostModule::with_hostname(Some("workstation".to_string()));
    let result = module.render("", &ModuleContext::default()).unwrap();
    assert_eq!(result, Some("workstation".to_string()));
}

#[test]
fn test_whoami_module_renders_username() {
    let module = WhoamiModule::with_username(Some("alice".to_string()));
    let result = module.render("", &ModuleContext::default()).unwrap();
    assert_eq!(result, Some("alice".to_string()));
}
