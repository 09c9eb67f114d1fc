use envtrace::function::FunctionOperation;
use envtrace::shell_function::parse_shell_content_for_function;

#[test]
fn test_posix_function() {
    let content = "my_func() {\n    echo hello\n}\n";
    let results = parse_shell_content_for_function(content, "test", "my_func", None);
    assert_eq!(results.len(), 1);
    assert_eq!(results[0].as_definition().operation, FunctionOperation::Define);
    assert_eq!(results[0].as_definition().line_number, 1);
    assert!(results[0].as_definition().body.is_some());
    assert_eq!(results[0].as_definition().body_lines, 3);
}

#[test]
fn test_bash_function() {
    let content = "function my_func {\n    echo hello\n}\n";
    let results = parse_shell_content_for_function(content, "test", "my_func", None);
    assert_eq!(results.len(), 1);
    assert_eq!(results[0].as_definition().operation, FunctionOperation::Define);
}

#[test]
fn test_hybrid_function() {
    let content = "function my_func() {\n    echo hello\n}\n";
    let results = parse_shell_content_for_function(content, "test", "my_func", None);
    assert_eq!(results.len(), 1);
    assert_eq!(results[0].as_definition().operation, FunctionOperation::Define);
}

#[test]
fn test_multiline_body_with_truncation() {
    let content = "my_func() {\n    line1\n    line2\n    line3\n    line4\n    line5\n    line6\n    line7\n}\n";
    let results = parse_shell_content_for_function(content, "test", "my_func", None);
    assert_eq!(results.len(), 1);
    let body = results[0].as_definition().body.as_ref().unwrap();
    assert!(body.contains("..."));
    assert_eq!(results[0].as_definition().body_lines, 9);
}

#[test]
fn test_preview_holds_five_lines_and_marker() {
    let content = "my_func() {\n    line1\n    line2\n    line3\n    line4\n    line5\n    line6\n    line7\n}\n";
    let results = parse_shell_content_for_function(content, "test", "my_func", None);
    let body = results[0].as_definition().body.as_ref().unwrap();
    let shown: Vec<&str> = body.lines().collect();
    assert_eq!(shown.len(), 6);
    assert_eq!(shown[0], "    line1");
    assert_eq!(shown[4], "    line5");
    assert_eq!(shown[5], "...");
}

#[test]
fn test_one_liner_function() {
    let content = "my_func() { echo hello; }\n";
    let results = parse_shell_content_for_function(content, "test", "my_func", None);
    assert_eq!(results.len(), 1);
    assert_eq!(results[0].as_definition().body_lines, 1);
}

#[test]
fn test_nested_braces() {
    let content = "my_func() {\n    if true; then\n        echo yes\n    fi\n    for i in 1 2; do\n        echo $i\n    done\n}\n";
    let results = parse_shell_content_for_function(content, "test", "my_func", None);
    assert_eq!(results.len(), 1);
    assert_eq!(results[0].as_definition().body_lines, 8);
}

#[test]
fn test_nested_braces_in_body() {
    let content = "my_func() {\n    if [ -z \"$x\" ]; then\n        {\n            echo nested\n        }\n    fi\n}\n";
    let results = parse_shell_content_for_function(content, "test", "my_func", None);
    assert_eq!(results.len(), 1);
    assert_eq!(results[0].as_definition().body_lines, 7);
}

#[test]
fn test_autoload_basic() {
    let content = "autoload my_func\n";
    let results = parse_shell_content_for_function(content, "test", "my_func", None);
    assert_eq!(results.len(), 1);
    assert_eq!(results[0].as_definition().operation, FunctionOperation::Autoload);
    assert!(results[0].as_definition().body.is_none());
    assert_eq!(results[0].as_definition().body_lines, 0);
}

#[test]
fn test_autoload_with_flags() {
    let content = "autoload -Uz my_func\n";
    let results = parse_shell_content_for_function(content, "test", "my_func", None);
    assert_eq!(results.len(), 1);
    assert_eq!(results[0].as_definition().operation, FunctionOperation::Autoload);
}

#[test]
fn test_autoload_with_u_flag() {
    let content = "autoload -U my_func\n";
    let results = parse_shell_content_for_function(content, "test", "my_func", None);
    assert_eq!(results.len(), 1);
    assert_eq!(results[0].as_definition().operation, FunctionOperation::Autoload);
}

#[test]
fn test_unset_function() {
    let content = "unset -f my_func\n";
    let results = parse_shell_content_for_function(content, "test", "my_func", None);
    assert_eq!(results.len(), 1);
    assert_eq!(results[0].as_definition().operation, FunctionOperation::Unset);
    assert!(results[0].as_definition().body.is_none());
}

#[test]
fn test_comments_skipped() {
    let content = "# my_func() {\n# echo hello\n# }\nother_func() {\n    echo world\n}\n";
    let results = parse_shell_content_for_function(content, "test", "my_func", None);
    assert_eq!(results.len(), 0);
}

#[test]
fn test_other_function_skipped() {
    let content = "other_func() {\n    echo hello\n}\n";
    let results = parse_shell_content_for_function(content, "test", "my_func", None);
    assert_eq!(results.len(), 0);
}

#[test]
fn test_source_commands_returned() {
    let content = "source ~/.zshrc\n. /etc/profile\n";
    let results = parse_shell_content_for_function(content, "test", "my_func", Some("/home/u"));
    assert_eq!(results.len(), 2);
    assert!(results[0].is_source());
    assert!(results[1].is_source());
}

#[test]
fn test_multiple_definitions_same_file() {
    let content = "my_func() {\n    echo first\n}\nmy_func() {\n    echo second\n}\n";
    let results = parse_shell_content_for_function(content, "test", "my_func", None);
    assert_eq!(results.len(), 2);
    assert_eq!(results[0].as_definition().operation, FunctionOperation::Define);
    assert_eq!(results[1].as_definition().operation, FunctionOperation::Define);
}

#[test]
fn test_body_content() {
    let content = "my_func() {\n    echo hello\n    echo world\n}\n";
    let results = parse_shell_content_for_function(content, "test", "my_func", None);
    assert_eq!(results.len(), 1);
    let body = results[0].as_definition().body.as_ref().unwrap();
    assert!(body.contains("echo hello"));
    assert!(body.contains("echo world"));
}

#[test]
fn test_unbalanced_body_runs_to_end() {
    let content = "my_func() {\n    echo a\n    echo b\n";
    let results = parse_shell_content_for_function(content, "test", "my_func", None);
    assert_eq!(results.len(), 1);
    assert_eq!(results[0].as_definition().body_lines, 3);
}
