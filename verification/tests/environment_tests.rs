use envtrace::environment::parse_environment_content;
use envtrace::variable::Operation;

#[test]
fn environment_test_simple_assignment() {
    let content = "PATH=/usr/bin:/bin";
    let changes = parse_environment_content(content, "/etc/environment", "PATH");
    assert_eq!(changes.len(), 1);
    assert_eq!(changes[0].value_after, "/usr/bin:/bin");
    assert_eq!(changes[0].operation, Operation::Assign);
}

#[test]
fn test_quoted_value() {
    let content = "PATH=\"/usr/local/bin:/usr/bin\"";
    let changes = parse_environment_content(content, "/etc/environment", "PATH");
    assert_eq!(changes.len(), 1);
    assert_eq!(changes[0].value_after, "/usr/local/bin:/usr/bin");
}

#[test]
fn test_single_quoted_value() {
    let content = "EDITOR='vim'";
    let changes = parse_environment_content(content, "/etc/environment", "EDITOR");
    assert_eq!(changes.len(), 1);
    assert_eq!(changes[0].value_after, "vim");
}

#[test]
fn environment_test_skip_comments() {
    let content = "# This is a comment\nPATH=/usr/bin";
    let changes = parse_environment_content(content, "/etc/environment", "PATH");
    assert_eq!(changes.len(), 1);
}

#[test]
fn test_skip_blank_lines() {
    let content = "\n\nPATH=/usr/bin\n\n";
    let changes = parse_environment_content(content, "/etc/environment", "PATH");
    assert_eq!(changes.len(), 1);
    assert_eq!(changes[0].line_number, 3);
}

#[test]
fn test_other_variable() {
    let content = "PATH=/usr/bin\nEDITOR=vim";
    let changes = parse_environment_content(content, "/etc/environment", "EDITOR");
    assert_eq!(changes.len(), 1);
    assert_eq!(changes[0].value_after, "vim");
}

#[test]
fn test_variable_not_found() {
    let content = "PATH=/usr/bin";
    let changes = parse_environment_content(content, "/etc/environment", "EDITOR");
    assert!(changes.is_empty());
}

#[test]
fn test_parse_assignment_key_must_be_identifier() {
    assert!(envtrace::environment::parse_assignment("9BAD=1").is_none());
    assert!(envtrace::environment::parse_assignment("no equals sign").is_none());
    let (k, v) = envtrace::environment::parse_assignment("GOOD_1=x=y").unwrap();
    assert_eq!(k, "GOOD_1");
    assert_eq!(v, "x=y");
}

#[test]
fn test_lone_quote_value_kept() {
    let (_, v) = envtrace::environment::parse_assignment("A=\"").unwrap();
    assert_eq!(v, "\"");
}
