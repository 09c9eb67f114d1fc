use envtrace::files::{DirEntryInfo, DirListing, FileType, FsProbe};
use envtrace::linux::{collect_env_d_confs, parse_uwsm_unit_output, uwsm_env_files};
use envtrace::platform::Platform;
use envtrace::variable::Context;

#[test]
fn test_parse_uwsm_unit_output_with_sway() {
    let output = "wayland-wm@sway.desktop.service loaded active running UWSM session: sway.desktop\n";
    assert_eq!(parse_uwsm_unit_output(output), Some("sway".to_string()));
}

#[test]
fn test_parse_uwsm_unit_output_with_hyprland() {
    let output = "wayland-wm@hyprland.desktop.service loaded active running UWSM session: hyprland.desktop\n";
    assert_eq!(parse_uwsm_unit_output(output), Some("hyprland".to_string()));
}

#[test]
fn test_parse_uwsm_unit_output_empty() {
    assert_eq!(parse_uwsm_unit_output(""), None);
}

#[test]
fn test_parse_uwsm_unit_output_no_match() {
    let output = "some-other-service.service loaded active running Something else\n";
    assert_eq!(parse_uwsm_unit_output(output), None);
}

#[test]
fn test_uwsm_env_files_no_panic() {
    let probe = FsProbe::empty();
    let files = uwsm_env_files("nonexistent-desktop", &probe);
    assert!(files.iter().all(|f| f.file_type == FileType::Shell));
}

#[test]
fn test_collect_env_d_confs_sorted() {
    let entry = |p: &str| DirEntryInfo { path: p.to_string(), is_dir: false };
    let probe = FsProbe {
        home: None,
        existing: vec![],
        listings: vec![DirListing {
            dir: "/tmp/environment.d".to_string(),
            entries: vec![
                entry("/tmp/environment.d/99-last.conf"),
                entry("/tmp/environment.d/10-first.conf"),
                entry("/tmp/environment.d/50-middle.conf"),
                entry("/tmp/environment.d/not-a-conf.txt"),
            ],
        }],
        desktop: None,
    };
    let files = collect_env_d_confs("/tmp/environment.d", "test", &probe);
    assert_eq!(files.len(), 3);
    assert!(files[0].path.ends_with("10-first.conf"));
    assert!(files[1].path.ends_with("50-middle.conf"));
    assert!(files[2].path.ends_with("99-last.conf"));
}

#[test]
fn test_collect_env_d_confs_nonexistent_dir() {
    let probe = FsProbe::empty();
    let files = collect_env_d_confs("/nonexistent/path", "test", &probe);
    assert!(files.is_empty());
}

#[test]
fn test_interactive_nonlogin_file_order() {
    let probe = FsProbe {
        home: Some("/home/u".to_string()),
        existing: vec!["/etc/bash.bashrc".to_string()],
        listings: vec![],
        desktop: None,
    };
    let files = Platform::Linux.config_files(Context::InteractiveNonLogin, &probe);
    assert_eq!(files.len(), 3);
    assert_eq!(files[0].path, "/etc/environment");
    assert_eq!(files[0].file_type, FileType::Environment);
    assert_eq!(files[1].path, "/etc/bash.bashrc");
    assert_eq!(files[2].path, "/home/u/.bashrc");
}

#[test]
fn test_interactive_nonlogin_bashrc_fallback() {
    let probe = FsProbe {
        home: None,
        existing: vec![],
        listings: vec![],
        desktop: None,
    };
    let files = Platform::Linux.config_files(Context::InteractiveNonLogin, &probe);
    assert_eq!(files.len(), 2);
    assert_eq!(files[1].path, "/etc/bashrc");
}

#[test]
fn test_cron_reads_pam_only() {
    let probe = FsProbe::empty();
    let files = Platform::Linux.config_files(Context::NonInteractiveNonLogin, &probe);
    assert_eq!(files.len(), 1);
    assert_eq!(files[0].path, "/etc/environment");
}

#[test]
fn test_login_first_existing_user_profile() {
    let probe = FsProbe {
        home: Some("/home/u".to_string()),
        existing: vec!["/home/u/.profile".to_string()],
        listings: vec![],
        desktop: None,
    };
    let files = Platform::Linux.config_files(Context::InteractiveLogin, &probe);
    let paths: Vec<&str> = files.iter().map(|f| f.path.as_str()).collect();
    assert_eq!(
        paths,
        vec!["/etc/environment", "/etc/profile", "/home/u/.profile", "/home/u/.bashrc"]
    );
}

#[test]
fn test_macos_login_order() {
    let probe = FsProbe {
        home: Some("/Users/u".to_string()),
        existing: vec![],
        listings: vec![],
        desktop: None,
    };
    let files = Platform::MacOS.config_files(Context::MacInteractiveLogin, &probe);
    let paths: Vec<&str> = files.iter().map(|f| f.path.as_str()).collect();
    assert_eq!(
        paths,
        vec![
            "/etc/zshenv",
            "/etc/zprofile",
            "/Users/u/.zshenv",
            "/Users/u/.zprofile",
            "/etc/zshrc",
            "/Users/u/.zshrc",
            "/Users/u/.zlogin",
        ]
    );
}

#[test]
fn test_uwsm_context_appends_desktop_files() {
    let probe = FsProbe {
        home: None,
        existing: vec!["/etc/xdg/uwsm/env-sway".to_string()],
        listings: vec![],
        desktop: Some("sway".to_string()),
    };
    let files = Platform::Linux.config_files(Context::Uwsm, &probe);
    let paths: Vec<&str> = files.iter().map(|f| f.path.as_str()).collect();
    assert_eq!(paths, vec!["/etc/environment", "/etc/xdg/uwsm/env-sway"]);
}

#[test]
fn test_systemd_user_env_d_precedence() {
    let entry = |p: &str| DirEntryInfo { path: p.to_string(), is_dir: false };
    let probe = FsProbe {
        home: Some("/home/u".to_string()),
        existing: vec![],
        listings: vec![
            DirListing {
                dir: "/etc/environment.d".to_string(),
                entries: vec![entry("/etc/environment.d/50-sys.conf")],
            },
            DirListing {
                dir: "/home/u/.config/environment.d".to_string(),
                entries: vec![entry("/home/u/.config/environment.d/10-user.conf")],
            },
        ],
        desktop: None,
    };
    let files = Platform::Linux.config_files(Context::SystemdUser, &probe);
    let paths: Vec<&str> = files.iter().map(|f| f.path.as_str()).collect();
    assert_eq!(
        paths,
        vec![
            "/etc/environment",
            "/etc/environment.d/50-sys.conf",
            "/home/u/.config/environment.d/10-user.conf",
        ]
    );
    assert_eq!(files[1].file_type, FileType::SystemdEnvironmentD);
}

#[test]
fn test_all_config_files_uwsm_scan() {
    let file = |p: &str| DirEntryInfo { path: p.to_string(), is_dir: false };
    let dir = |p: &str| DirEntryInfo { path: p.to_string(), is_dir: true };
    let probe = FsProbe {
        home: Some("/home/u".to_string()),
        existing: vec![],
        listings: vec![
            DirListing {
                dir: "/etc/xdg/uwsm".to_string(),
                entries: vec![
                    dir("/etc/xdg/uwsm/env.d"),
                    file("/etc/xdg/uwsm/env"),
                    file("/etc/xdg/uwsm/other"),
                ],
            },
            DirListing {
                dir: "/etc/xdg/uwsm/env.d".to_string(),
                entries: vec![
                    file("/etc/xdg/uwsm/env.d/20-b.sh"),
                    file("/etc/xdg/uwsm/env.d/10-a.sh"),
                ],
            },
        ],
        desktop: None,
    };
    let files = Platform::Linux.all_config_files(&probe);
    let uwsm: Vec<&str> = files
        .iter()
        .filter(|f| f.path.starts_with("/etc/xdg/uwsm"))
        .map(|f| f.path.as_str())
        .collect();
    // `env` sorts before `env.d`; the drop-in directory expands to its
    // entries, sorted; `other` is not scanned.
    assert_eq!(
        uwsm,
        vec![
            "/etc/xdg/uwsm/env",
            "/etc/xdg/uwsm/env.d/10-a.sh",
            "/etc/xdg/uwsm/env.d/20-b.sh",
        ]
    );
}

#[test]
fn test_macos_launchd_plists_sorted() {
    let entry = |p: &str| DirEntryInfo { path: p.to_string(), is_dir: false };
    let probe = FsProbe {
        home: Some("/Users/u".to_string()),
        existing: vec![],
        listings: vec![DirListing {
            dir: "/Users/u/Library/LaunchAgents".to_string(),
            entries: vec![
                entry("/Users/u/Library/LaunchAgents/b.plist"),
                entry("/Users/u/Library/LaunchAgents/a.plist"),
                entry("/Users/u/Library/LaunchAgents/readme.txt"),
            ],
        }],
        desktop: None,
    };
    let files = Platform::MacOS.config_files(Context::LaunchdAgent, &probe);
    let paths: Vec<&str> = files.iter().map(|f| f.path.as_str()).collect();
    assert_eq!(
        paths,
        vec![
            "/Users/u/Library/LaunchAgents/a.plist",
            "/Users/u/Library/LaunchAgents/b.plist",
        ]
    );
    assert_eq!(files[0].file_type, FileType::Plist);
}
