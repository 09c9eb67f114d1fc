use envtrace::cli::{Args, ContextArg, OutputFormat, context_from_arg, is_valid_identifier,
    parse_context_name};
use envtrace::platform::Platform;
use envtrace::variable::Context;

fn base_args() -> Args {
    Args {
        variable: Some("PATH".to_string()),
        function: false,
        find: false,
        compare: None,
        context: None,
        check: false,
        verbose: false,
        format: OutputFormat::Text,
    }
}

#[test]
fn test_validate_accepts_plain_trace() {
    assert!(base_args().validate().is_ok());
}

#[test]
fn test_validate_requires_name() {
    let mut a = base_args();
    a.variable = None;
    assert_eq!(a.validate().unwrap_err(), "Must provide a variable name or use --check");
}

#[test]
fn test_validate_rejects_bad_identifier() {
    let mut a = base_args();
    a.variable = Some("not a name".to_string());
    assert_eq!(
        a.validate().unwrap_err(),
        "'not a name' is not a valid identifier (must match [A-Za-z_][A-Za-z0-9_]*)"
    );
}

#[test]
fn test_validate_check_without_name_ok() {
    let mut a = base_args();
    a.variable = None;
    a.check = true;
    assert!(a.validate().is_ok());
}

#[test]
fn test_validate_compare_requires_name() {
    let mut a = base_args();
    a.variable = None;
    a.check = true;
    a.compare = Some(vec!["login".to_string()]);
    assert_eq!(a.validate().unwrap_err(), "--compare requires a variable name");
}

#[test]
fn test_validate_function_check_conflict() {
    let mut a = base_args();
    a.function = true;
    a.check = true;
    assert_eq!(a.validate().unwrap_err(), "--function cannot be used with --check");
}

#[test]
fn test_is_valid_identifier() {
    assert!(is_valid_identifier("PATH"));
    assert!(is_valid_identifier("_x9"));
    assert!(!is_valid_identifier(""));
    assert!(!is_valid_identifier("9x"));
    assert!(!is_valid_identifier("a-b"));
}

#[test]
fn test_context_from_arg_by_platform() {
    assert_eq!(
        context_from_arg(ContextArg::Login, Platform::Linux),
        Context::InteractiveLogin
    );
    assert_eq!(
        context_from_arg(ContextArg::Login, Platform::MacOS),
        Context::MacInteractiveLogin
    );
    assert_eq!(
        context_from_arg(ContextArg::Cron, Platform::MacOS),
        Context::NonInteractiveNonLogin
    );
}

#[test]
fn test_parse_context_name_case_insensitive() {
    assert_eq!(parse_context_name("LOGIN", Platform::Linux), Some(Context::InteractiveLogin));
    assert_eq!(parse_context_name("systemd-user", Platform::Linux), Some(Context::SystemdUser));
    assert_eq!(parse_context_name("nonsense", Platform::Linux), None);
    assert_eq!(
        parse_context_name("noninteractive", Platform::MacOS),
        Some(Context::MacNonInteractive)
    );
}

#[test]
fn test_context_descriptions() {
    assert_eq!(Context::InteractiveLogin.description(), "interactive login shell");
    assert_eq!(Context::Uwsm.description(), "UWSM Wayland session");
    assert!(Context::LaunchdAgent.is_macos());
    assert!(Context::SystemdUser.is_linux());
    assert_eq!(Context::default_for_platform(Platform::Linux), Context::InteractiveLogin);
    assert_eq!(Platform::MacOS.name(), "macos");
}
