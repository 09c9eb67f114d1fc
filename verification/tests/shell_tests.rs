use envtrace::shell::{analyze_value, parse_shell_content};
use envtrace::variable::Operation;

#[test]
fn test_export_assignment() {
    let content = "export PATH=/usr/bin";
    let results = parse_shell_content(content, "test", "PATH", None, None);
    assert_eq!(results.len(), 1);
    assert_eq!(results[0].as_assignment().value_after, "/usr/bin");
    assert_eq!(results[0].as_assignment().operation, Operation::Export);
}

#[test]
fn shell_test_simple_assignment() {
    let content = "EDITOR=vim";
    let results = parse_shell_content(content, "test", "EDITOR", None, None);
    assert_eq!(results.len(), 1);
    assert_eq!(results[0].as_assignment().value_after, "vim");
    assert_eq!(results[0].as_assignment().operation, Operation::Assign);
}

#[test]
fn test_append() {
    let content = "export PATH=\"$PATH:/usr/local/bin\"";
    let results = parse_shell_content(content, "test", "PATH", Some("/usr/bin"), None);
    assert_eq!(results.len(), 1);
    assert_eq!(results[0].as_assignment().operation, Operation::Append);
    assert_eq!(results[0].as_assignment().value_after, "/usr/bin:/usr/local/bin");
}

#[test]
fn test_prepend() {
    let content = "export PATH=\"/usr/local/bin:$PATH\"";
    let results = parse_shell_content(content, "test", "PATH", Some("/usr/bin"), None);
    assert_eq!(results.len(), 1);
    assert_eq!(results[0].as_assignment().operation, Operation::Prepend);
    assert_eq!(results[0].as_assignment().value_after, "/usr/local/bin:/usr/bin");
}

#[test]
fn test_unset() {
    let content = "unset PATH";
    let results = parse_shell_content(content, "test", "PATH", Some("/usr/bin"), None);
    assert_eq!(results.len(), 1);
    assert_eq!(results[0].as_assignment().operation, Operation::Unset);
}

#[test]
fn shell_test_skip_comments() {
    let content = "# export PATH=/bad\nexport PATH=/good";
    let results = parse_shell_content(content, "test", "PATH", None, None);
    assert_eq!(results.len(), 1);
    assert_eq!(results[0].as_assignment().value_after, "/good");
}

#[test]
fn test_conditional() {
    let content = "[ -f /etc/profile ] && export PATH=/usr/bin";
    let results = parse_shell_content(content, "test", "PATH", None, None);
    assert_eq!(results.len(), 1);
    assert_eq!(results[0].as_assignment().operation, Operation::Conditional);
}

#[test]
fn test_braced_variable() {
    let content = "export PATH=\"${PATH}:/new\"";
    let results = parse_shell_content(content, "test", "PATH", Some("/old"), None);
    assert_eq!(results.len(), 1);
    assert_eq!(results[0].as_assignment().operation, Operation::Append);
    assert_eq!(results[0].as_assignment().value_after, "/old:/new");
}

#[test]
fn test_export_only_keeps_value() {
    let content = "export PATH";
    let results = parse_shell_content(content, "test", "PATH", Some("/usr/bin"), None);
    assert_eq!(results.len(), 1);
    assert_eq!(results[0].as_assignment().operation, Operation::Export);
    assert_eq!(results[0].as_assignment().value_after, "/usr/bin");
    assert_eq!(
        results[0].as_assignment().value_before,
        Some("/usr/bin".to_string())
    );
}

#[test]
fn test_home_token_expansion() {
    let (op, value) = analyze_value("CACHE", "$HOME/.cache", None, Operation::Assign, Some("/home/u"));
    assert_eq!(op, Operation::Assign);
    assert_eq!(value, "/home/u/.cache");
}

#[test]
fn test_self_reference_substitution() {
    let (op, value) = analyze_value(
        "FLAGS",
        "-O2 $FLAGS -g",
        Some("-Wall"),
        Operation::Assign,
        None,
    );
    assert_eq!(op, Operation::Assign);
    assert_eq!(value, "-O2 -Wall -g");
}

#[test]
fn test_append_without_current_value() {
    let (op, value) = analyze_value("PATH", "$PATH:/new", None, Operation::Export, None);
    assert_eq!(op, Operation::Append);
    assert_eq!(value, "/new");
}

#[test]
fn test_source_line_returns_directive() {
    let content = ". /etc/profile.d/golang.sh";
    let results = parse_shell_content(content, "test", "PATH", None, None);
    assert_eq!(results.len(), 1);
    assert!(results[0].is_source());
}

#[test]
fn test_source_with_variable_path_dropped() {
    let content = "source $XDG_CONFIG_HOME/shrc";
    let results = parse_shell_content(content, "test", "PATH", None, None);
    assert!(results.is_empty());
}

#[test]
fn test_strip_quotes_once() {
    assert_eq!(envtrace::common::strip_quotes("\"quoted value\""), "quoted value");
    assert_eq!(envtrace::common::strip_quotes("'quoted value'"), "quoted value");
    assert_eq!(envtrace::common::strip_quotes("  bare  "), "bare");
    assert_eq!(envtrace::common::strip_quotes("\"'nested'\""), "'nested'");
}

#[test]
fn test_expand_source_path_tilde() {
    let home = Some("/home/u".to_string());
    assert_eq!(
        envtrace::common::expand_source_path_in("~/.zshrc", &home),
        Some("/home/u/.zshrc".to_string())
    );
    assert_eq!(envtrace::common::expand_source_path_in("~", &home), Some("/home/u".to_string()));
    assert_eq!(envtrace::common::expand_source_path_in("~user/.zshrc", &home), None);
    assert_eq!(envtrace::common::expand_source_path_in("$DIR/rc", &home), None);
    assert_eq!(
        envtrace::common::expand_source_path_in("/etc/profile", &None),
        Some("/etc/profile".to_string())
    );
}
