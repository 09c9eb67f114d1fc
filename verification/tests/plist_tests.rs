use envtrace::plist::{parse_plist_file, PlistData};

#[test]
fn test_parse_environment_variables() {
    let data = PlistData {
        environment_variables: Some(vec![(
            "PATH".to_string(),
            "/usr/local/bin:/usr/bin:/bin".to_string(),
        )]),
        program_arguments: None,
    };
    let changes = parse_plist_file("/tmp/test.plist", "PATH", &data);
    assert_eq!(changes.len(), 1);
    assert_eq!(changes[0].value_after, "/usr/local/bin:/usr/bin:/bin");
}

#[test]
fn test_parse_launchctl_setenv() {
    let data = PlistData {
        environment_variables: None,
        program_arguments: Some(vec![
            "/bin/launchctl".to_string(),
            "setenv".to_string(),
            "JAVA_HOME".to_string(),
            "/Library/Java/Home".to_string(),
        ]),
    };
    let changes = parse_plist_file("/tmp/test.plist", "JAVA_HOME", &data);
    assert_eq!(changes.len(), 1);
    assert_eq!(changes[0].value_after, "/Library/Java/Home");
    assert_eq!(changes[0].line_number, 0);
    assert_eq!(changes[0].line_content, "launchctl setenv JAVA_HOME /Library/Java/Home");
}

#[test]
fn test_setenv_for_other_variable_skipped() {
    let data = PlistData {
        environment_variables: None,
        program_arguments: Some(vec![
            "launchctl".to_string(),
            "setenv".to_string(),
            "OTHER".to_string(),
            "x".to_string(),
        ]),
    };
    let changes = parse_plist_file("/tmp/test.plist", "JAVA_HOME", &data);
    assert!(changes.is_empty());
}
