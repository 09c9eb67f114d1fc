use envtrace::engine::{TraceEngine, VarSession, FnSession};
use envtrace::files::{ConfigFile, DirEntryInfo, DirListing, FsProbe, FileType};
use envtrace::plist::PlistData;
use envtrace::function::FunctionOperation;
use envtrace::platform::Platform;
use envtrace::variable::{Context, Operation};

fn pump_var(s: &mut VarSession, files: &[(&str, &str)]) {
    while let Some(p) = s.next_path() {
        let content = files
            .iter()
            .find(|(k, _)| *k == p.as_str())
            .map(|(_, v)| v.to_string());
        s.feed(None, content);
    }
}

fn pump_fn(s: &mut FnSession, files: &[(&str, &str)]) {
    while let Some(p) = s.next_path() {
        let content = files
            .iter()
            .find(|(k, _)| *k == p.as_str())
            .map(|(_, v)| v.to_string());
        s.feed(None, content);
    }
}

fn shell_session(target: &str, path: &str, current: Option<&str>) -> VarSession {
    VarSession {
        target: target.to_string(),
        context: Context::InteractiveNonLogin,
        home: None,
        follow_sources: true,
        queue: vec![ConfigFile::shell(path.to_string(), "test file")],
        stack: vec![],
        pending: None,
        visited: vec![],
        current: current.map(|s| s.to_string()),
        changes: vec![],
    }
}

#[test]
fn test_trace_simple_export() {
    let mut s = shell_session("TEST_VAR", "/tmp/bashrc", None);
    pump_var(&mut s, &[("/tmp/bashrc", "export TEST_VAR=hello\n")]);
    assert_eq!(s.changes.len(), 1);
    assert_eq!(s.changes[0].value_after, "hello");
    assert_eq!(s.current, Some("hello".to_string()));
}

#[test]
fn test_trace_append() {
    let mut s = shell_session("PATH", "/tmp/bashrc", Some("/usr/bin"));
    pump_var(&mut s, &[("/tmp/bashrc", "export PATH=\"$PATH:/new/path\"")]);
    assert_eq!(s.changes.len(), 1);
    assert_eq!(s.changes[0].operation, Operation::Append);
    assert_eq!(s.changes[0].value_after, "/usr/bin:/new/path");
}

#[test]
fn test_trace_function_simple() {
    let engine = TraceEngine::new(Platform::Linux);
    let mut s = engine.trace_function("my_func", Context::InteractiveNonLogin, &FsProbe::empty());
    s.queue = vec![ConfigFile::shell("/tmp/zshrc".to_string(), "test zshrc")];
    pump_fn(&mut s, &[("/tmp/zshrc", "my_func() {\n    echo hello\n}\n")]);
    assert_eq!(s.changes.len(), 1);
    assert_eq!(s.changes[0].operation, FunctionOperation::Define);
    assert!(s.changes[0].body.is_some());
}

#[test]
fn test_trace_function_override() {
    let engine = TraceEngine::new(Platform::Linux);
    let mut s = engine.trace_function("my_func", Context::InteractiveNonLogin, &FsProbe::empty());
    s.queue = vec![
        ConfigFile::shell("/tmp/file1.sh".to_string(), "file1"),
        ConfigFile::shell("/tmp/file2.sh".to_string(), "file2"),
    ];
    pump_fn(
        &mut s,
        &[
            ("/tmp/file1.sh", "my_func() {\n    echo first\n}\n"),
            ("/tmp/file2.sh", "my_func() {\n    echo second\n}\n"),
        ],
    );
    assert_eq!(s.changes.len(), 2);
    assert_eq!(s.changes[0].operation, FunctionOperation::Define);
    assert_eq!(s.changes[1].operation, FunctionOperation::Define);
}

#[test]
fn test_trace_function_define_then_unset() {
    let engine = TraceEngine::new(Platform::Linux);
    let mut s = engine.trace_function("my_func", Context::InteractiveNonLogin, &FsProbe::empty());
    s.queue = vec![ConfigFile::shell("/tmp/test.sh".to_string(), "test")];
    pump_fn(&mut s, &[("/tmp/test.sh", "my_func() {\n    echo hello\n}\nunset -f my_func\n")]);
    assert_eq!(s.changes.len(), 2);
    assert_eq!(s.changes[0].operation, FunctionOperation::Define);
    assert_eq!(s.changes[1].operation, FunctionOperation::Unset);
    let trace = s.into_trace(true);
    assert!(!trace.is_defined);
}

#[test]
fn test_unset_then_reassign_chain() {
    let mut s = shell_session("PATH", "/tmp/rc", Some("/usr/bin"));
    pump_var(&mut s, &[("/tmp/rc", "unset PATH\nexport PATH=/x\n")]);
    assert_eq!(s.changes.len(), 2);
    assert_eq!(s.changes[0].operation, Operation::Unset);
    assert_eq!(s.changes[1].value_before, None);
    assert_eq!(s.changes[1].value_after, "/x");
    let trace = s.into_trace(None);
    assert_eq!(trace.final_value, Some("/x".to_string()));
}

#[test]
fn test_cycle_of_sources_terminates() {
    let mut s = shell_session("X", "/tmp/a", None);
    pump_var(
        &mut s,
        &[
            ("/tmp/a", "source /tmp/b\nexport X=1\n"),
            ("/tmp/b", "source /tmp/a\nexport X=2\n"),
        ],
    );
    // Each file processed exactly once, the sourced file's effect first.
    assert_eq!(s.visited.len(), 2);
    assert_eq!(s.changes.len(), 2);
    assert_eq!(s.changes[0].value_after, "2");
    assert_eq!(s.changes[0].file, "/tmp/b");
    assert_eq!(s.changes[1].value_after, "1");
    assert_eq!(s.changes[1].file, "/tmp/a");
    assert_eq!(s.changes[1].value_before, Some("2".to_string()));
}

#[test]
fn test_sourced_file_interleaves_at_directive() {
    let mut s = shell_session("V", "/tmp/outer", None);
    pump_var(
        &mut s,
        &[
            ("/tmp/outer", "V=before\nsource /tmp/inner\nV=$V-after\n"),
            ("/tmp/inner", "V=$V-inner\n"),
        ],
    );
    assert_eq!(s.changes.len(), 3);
    assert_eq!(s.changes[0].value_after, "before");
    assert_eq!(s.changes[1].value_after, "before-inner");
    assert_eq!(s.changes[2].value_after, "before-inner-after");
}

#[test]
fn test_follow_sources_disabled() {
    let mut s = shell_session("X", "/tmp/a", None);
    s.follow_sources = false;
    pump_var(
        &mut s,
        &[("/tmp/a", "source /tmp/b\nexport X=1\n"), ("/tmp/b", "export X=2\n")],
    );
    assert_eq!(s.changes.len(), 1);
    assert_eq!(s.changes[0].value_after, "1");
    assert_eq!(s.visited.len(), 1);
}

#[test]
fn test_end_to_end_nonlogin_interactive() {
    let probe = FsProbe {
        home: Some("/home/u".to_string()),
        existing: vec!["/etc/bash.bashrc".to_string()],
        listings: vec![],
        desktop: None,
    };
    let engine = TraceEngine::new(Platform::Linux);
    let mut s = engine.trace("EDITOR", Context::InteractiveNonLogin, &probe);
    pump_var(
        &mut s,
        &[
            ("/etc/bash.bashrc", "export EDITOR=vim\n"),
            ("/home/u/.bashrc", "export EDITOR=nano\n"),
        ],
    );
    assert_eq!(s.changes.len(), 2);
    assert_eq!(s.changes[0].file, "/etc/bash.bashrc");
    assert_eq!(s.changes[0].value_after, "vim");
    assert_eq!(s.changes[1].file, "/home/u/.bashrc");
    assert_eq!(s.changes[1].value_before, Some("vim".to_string()));
    let trace = s.into_trace(None);
    assert_eq!(trace.final_value, Some("nano".to_string()));
}

#[test]
fn test_env_fallback_only_without_changes() {
    let probe = FsProbe::empty();
    let engine = TraceEngine::new(Platform::Linux);
    let mut s = engine.trace("EDITOR", Context::NonInteractiveNonLogin, &probe);
    pump_var(&mut s, &[]);
    assert_eq!(s.changes.len(), 0);
    let trace = s.into_trace(Some("emacs".to_string()));
    assert_eq!(trace.final_value, Some("emacs".to_string()));
}

#[test]
fn test_canonical_path_deduplicates() {
    // The same file reached under two names is processed once: the second
    // request resolves to the same canonical path and is skipped.
    let mut s = shell_session("X", "/tmp/a", None);
    s.queue.push(ConfigFile::shell("/tmp/alias-of-a".to_string(), "same file"));
    while let Some(p) = s.next_path() {
        let content = if p == "/tmp/a" || p == "/tmp/alias-of-a" {
            Some("export X=1\n".to_string())
        } else {
            None
        };
        s.feed(Some("/tmp/a-canonical".to_string()), content);
    }
    assert_eq!(s.visited.len(), 1);
    assert_eq!(s.changes.len(), 1);
}

#[test]
fn test_function_trace_fallback_queries_shell() {
    let engine = TraceEngine::new(Platform::Linux);
    let mut s = engine.trace_function("zf", Context::NonInteractiveNonLogin, &FsProbe::empty());
    pump_fn(&mut s, &[]);
    assert_eq!(s.changes.len(), 0);
    let trace = s.into_trace(true);
    assert!(trace.is_defined);
}

#[test]
fn test_plist_files_contribute_nothing_to_line_traversal() {
    let mut s = shell_session("PATH", "/tmp/x", None);
    s.queue = vec![ConfigFile::plist("/tmp/agent.plist".to_string(), "agent")];
    pump_var(&mut s, &[("/tmp/agent.plist", "PATH=/bad\n")]);
    assert_eq!(s.changes.len(), 0);
}

#[test]
fn test_find_all_uses_platform_catalog() {
    let probe = FsProbe {
        home: Some("/home/u".to_string()),
        existing: vec![],
        listings: vec![],
        desktop: None,
    };
    let engine = TraceEngine::new(Platform::Linux);
    let mut s = engine.find_all("EDITOR", &probe);
    pump_var(&mut s, &[("/home/u/.bashrc", "EDITOR=vi\n")]);
    let changes = s.into_changes();
    assert_eq!(changes.len(), 1);
    assert_eq!(changes[0].file, "/home/u/.bashrc");
}

#[test]
fn test_with_config() {
    let engine = TraceEngine::new(Platform::Linux).with_config(envtrace::engine::TraceConfig {
        follow_sources: false,
        verbose: true,
    });
    let s = engine.trace("X", Context::NonInteractiveNonLogin, &FsProbe::empty());
    assert!(!s.follow_sources);
}

#[test]
fn test_launchd_trace_reads_plists() {
    let probe = FsProbe {
        home: Some("/Users/u".to_string()),
        existing: vec![],
        listings: vec![DirListing {
            dir: "/Users/u/Library/LaunchAgents".to_string(),
            entries: vec![DirEntryInfo {
                path: "/Users/u/Library/LaunchAgents/env.plist".to_string(),
                is_dir: false,
            }],
        }],
        desktop: None,
    };
    let engine = TraceEngine::new(Platform::MacOS);
    let mut s = engine.trace("JAVA_HOME", Context::LaunchdAgent, &probe);
    while let Some(p) = s.next_path() {
        match s.pending_kind() {
            Some(FileType::Plist) => {
                assert_eq!(p, "/Users/u/Library/LaunchAgents/env.plist");
                s.feed_plist(
                    None,
                    Some(PlistData {
                        environment_variables: Some(vec![(
                            "JAVA_HOME".to_string(),
                            "/Library/Java/Home".to_string(),
                        )]),
                        program_arguments: Some(vec![
                            "/bin/launchctl".to_string(),
                            "setenv".to_string(),
                            "JAVA_HOME".to_string(),
                            "/opt/java".to_string(),
                        ]),
                    }),
                );
            }
            _ => s.feed(None, None),
        }
    }
    assert_eq!(s.changes.len(), 2);
    assert_eq!(s.changes[0].value_after, "/Library/Java/Home");
    assert_eq!(s.changes[0].value_before, None);
    assert_eq!(s.changes[1].value_after, "/opt/java");
    assert_eq!(s.changes[1].value_before, Some("/Library/Java/Home".to_string()));
    let trace = s.into_trace(None);
    assert_eq!(trace.final_value, Some("/opt/java".to_string()));
}

#[test]
fn test_feed_plist_undecodable_contributes_nothing() {
    let mut s = shell_session("PATH", "/tmp/x", None);
    s.queue = vec![ConfigFile::plist("/tmp/agent.plist".to_string(), "agent")];
    while let Some(_p) = s.next_path() {
        s.feed_plist(None, None);
    }
    assert_eq!(s.changes.len(), 0);
    assert_eq!(s.visited.len(), 1);
}
