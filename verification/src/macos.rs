//! The macOS file catalog: the zsh startup files per context, and the
//! launchd property lists of the agent directories.

use vstd::prelude::*;
use vstd::string::StringExecFns;

use crate::files::{ConfigFile, EntryModelFs, FileModel, FileType, FsProbe, ProbeModel,
    probe_entries};
use crate::linux::{filter_ext_paths, typed_files};
use crate::text::{concat_str, sort_strings, spec_sort, to_chars};
use crate::variable::Context;

verus! {

/// A shell-script file model.
pub open spec fn zsh_file(path: Seq<char>, desc: Seq<char>) -> FileModel {
    FileModel { path, file_type: FileType::Shell, description: desc }
}

/// The sorted `*.plist` files of one probed agent directory.
pub open spec fn spec_agent_plists(probe: ProbeModel, dir: Seq<char>, desc: Seq<char>) -> Seq<
    FileModel,
> {
    typed_files(
        spec_sort(filter_ext_paths(probe_entries(probe, dir), 0, "plist"@)),
        0,
        FileType::Plist,
        desc,
    )
}

fn agent_plists(probe: &FsProbe, dir: &str, desc: &str) -> (r: Vec<ConfigFile>)
    ensures
        r.deep_view() == spec_agent_plists(probe@, dir@, desc@),
{
    let ext = to_chars("plist");
    match probe.listing_index(dir) {
        Some(ix) => {
            proof {
                assert(probe.listings@[ix as int].deep_view() == probe@.listings[ix as int]);
            }
            let paths = crate::linux::paths_with_ext(&probe.listings[ix].entries, &ext);
            let sorted = sort_strings(&paths);
            crate::linux::typed_files_exec(&sorted, FileType::Plist, desc)
        },
        None => {
            let r: Vec<ConfigFile> = Vec::new();
            proof {
                assert(filter_ext_paths(Seq::<EntryModelFs>::empty(), 0, "plist"@)
                    =~= Seq::<Seq<char>>::empty());
                assert(r.deep_view() =~= spec_agent_plists(probe@, dir@, desc@));
            }
            r
        },
    }
}

/// The ordered files a macOS context consults. Linux contexts yield nothing
/// here.
pub open spec fn spec_macos_context_files(context: Context, probe: ProbeModel) -> Seq<FileModel> {
    match context {
        Context::MacInteractiveLogin => seq![
            zsh_file("/etc/zshenv"@, "system zshenv (all zsh)"@),
            zsh_file("/etc/zprofile"@, "system zprofile (login)"@),
        ] + (match probe.home {
            Some(h) => seq![
                zsh_file(h + "/.zshenv"@, "user zshenv (all zsh)"@),
                zsh_file(h + "/.zprofile"@, "user zprofile (login)"@),
            ],
            None => Seq::empty(),
        }) + seq![zsh_file("/etc/zshrc"@, "system zshrc (interactive)"@)] + (match probe.home {
            Some(h) => seq![
                zsh_file(h + "/.zshrc"@, "user zshrc (interactive)"@),
                zsh_file(h + "/.zlogin"@, "user zlogin (login)"@),
            ],
            None => Seq::empty(),
        }),
        Context::MacInteractiveNonLogin => seq![zsh_file("/etc/zshenv"@, "system zshenv (all zsh)"@)]
            + (match probe.home {
            Some(h) => seq![zsh_file(h + "/.zshenv"@, "user zshenv (all zsh)"@)],
            None => Seq::empty(),
        }) + seq![zsh_file("/etc/zshrc"@, "system zshrc (interactive)"@)] + (match probe.home {
            Some(h) => seq![zsh_file(h + "/.zshrc"@, "user zshrc (interactive)"@)],
            None => Seq::empty(),
        }),
        Context::MacNonInteractive => seq![zsh_file("/etc/zshenv"@, "system zshenv (all zsh)"@)] + (
        match probe.home {
            Some(h) => seq![zsh_file(h + "/.zshenv"@, "user zshenv (all zsh)"@)],
            None => Seq::empty(),
        }),
        Context::LaunchdAgent | Context::LaunchdDaemon => (match probe.home {
            Some(h) => spec_agent_plists(probe, h + "/Library/LaunchAgents"@, "user LaunchAgent"@),
            None => Seq::empty(),
        }) + spec_agent_plists(probe, "/Library/LaunchAgents"@, "system LaunchAgent"@),
        _ => Seq::empty(),
    }
}

/// Get config files for a specific context on macOS.
pub fn config_files_for_context(context: Context, probe: &FsProbe) -> (r: Vec<ConfigFile>)
    ensures
        r.deep_view() == spec_macos_context_files(context, probe@),
{
    match context {
        Context::MacInteractiveLogin => {
            let mut files: Vec<ConfigFile> = Vec::new();
            files.push(
                ConfigFile::shell(String::from_str("/etc/zshenv"), "system zshenv (all zsh)"),
            );
            files.push(
                ConfigFile::shell(String::from_str("/etc/zprofile"), "system zprofile (login)"),
            );
            match &probe.home {
                Some(h) => {
                    files.push(
                        ConfigFile::shell(
                            concat_str(h.as_str(), "/.zshenv"),
                            "user zshenv (all zsh)",
                        ),
                    );
                    files.push(
                        ConfigFile::shell(
                            concat_str(h.as_str(), "/.zprofile"),
                            "user zprofile (login)",
                        ),
                    );
                },
                None => {},
            }
            files.push(
                ConfigFile::shell(String::from_str("/etc/zshrc"), "system zshrc (interactive)"),
            );
            match &probe.home {
                Some(h) => {
                    files.push(
                        ConfigFile::shell(
                            concat_str(h.as_str(), "/.zshrc"),
                            "user zshrc (interactive)",
                        ),
                    );
                    files.push(
                        ConfigFile::shell(concat_str(h.as_str(), "/.zlogin"), "user zlogin (login)"),
                    );
                },
                None => {},
            }
            proof {
                assert(files.deep_view() =~= spec_macos_context_files(context, probe@));
            }
            files
        },
        Context::MacInteractiveNonLogin => {
            let mut files: Vec<ConfigFile> = Vec::new();
            files.push(
                ConfigFile::shell(String::from_str("/etc/zshenv"), "system zshenv (all zsh)"),
            );
            match &probe.home {
                Some(h) => {
                    files.push(
                        ConfigFile::shell(
                            concat_str(h.as_str(), "/.zshenv"),
                            "user zshenv (all zsh)",
                        ),
                    );
                },
                None => {},
            }
            files.push(
                ConfigFile::shell(String::from_str("/etc/zshrc"), "system zshrc (interactive)"),
            );
            match &probe.home {
                Some(h) => {
                    files.push(
                        ConfigFile::shell(
                            concat_str(h.as_str(), "/.zshrc"),
                            "user zshrc (interactive)",
                        ),
                    );
                },
                None => {},
            }
            proof {
                assert(files.deep_view() =~= spec_macos_context_files(context, probe@));
            }
            files
        },
        Context::MacNonInteractive => {
            let mut files: Vec<ConfigFile> = Vec::new();
            files.push(
                ConfigFile::shell(String::from_str("/etc/zshenv"), "system zshenv (all zsh)"),
            );
            match &probe.home {
                Some(h) => {
                    files.push(
                        ConfigFile::shell(
                            concat_str(h.as_str(), "/.zshenv"),
                            "user zshenv (all zsh)",
                        ),
                    );
                },
                None => {},
            }
            proof {
                assert(files.deep_view() =~= spec_macos_context_files(context, probe@));
            }
            files
        },
        Context::LaunchdAgent | Context::LaunchdDaemon => {
            let mut files: Vec<ConfigFile> = Vec::new();
            match &probe.home {
                Some(h) => {
                    let dir = concat_str(h.as_str(), "/Library/LaunchAgents");
                    let part = agent_plists(probe, dir.as_str(), "user LaunchAgent");
                    let ghost pdv = part.deep_view();
                    let mut part = part;
                    files.append(&mut part);
                    proof {
                        assert(files.deep_view() =~= pdv);
                    }
                },
                None => {},
            }
            let ghost before = files.deep_view();
            let sys = agent_plists(probe, "/Library/LaunchAgents", "system LaunchAgent");
            let ghost sdv = sys.deep_view();
            let mut sys = sys;
            files.append(&mut sys);
            proof {
                assert(files.deep_view() =~= before + sdv);
                assert(files.deep_view() =~= spec_macos_context_files(context, probe@));
            }
            files
        },
        _ => {
            let files: Vec<ConfigFile> = Vec::new();
            proof {
                assert(files.deep_view() =~= spec_macos_context_files(context, probe@));
            }
            files
        },
    }
}

/// Every file on macOS that might define environment variables.
pub open spec fn spec_macos_all_files(probe: ProbeModel) -> Seq<FileModel> {
    seq![
        zsh_file("/etc/zshenv"@, "system zshenv"@),
        zsh_file("/etc/zprofile"@, "system zprofile"@),
        zsh_file("/etc/zshrc"@, "system zshrc"@),
        zsh_file("/etc/profile"@, "system profile"@),
        zsh_file("/etc/bashrc"@, "system bashrc"@),
    ] + (match probe.home {
        Some(h) => seq![
            zsh_file(h + "/.zshenv"@, "user zshenv"@),
            zsh_file(h + "/.zprofile"@, "user zprofile"@),
            zsh_file(h + "/.zshrc"@, "user zshrc"@),
            zsh_file(h + "/.zlogin"@, "user zlogin"@),
            zsh_file(h + "/.bash_profile"@, "user bash_profile"@),
            zsh_file(h + "/.bashrc"@, "user bashrc"@),
            zsh_file(h + "/.profile"@, "user profile"@),
        ] + spec_agent_plists(probe, h + "/Library/LaunchAgents"@, "user LaunchAgent"@),
        None => Seq::empty(),
    })
}

/// Get all config files that might define environment variables on macOS.
pub fn all_config_files(probe: &FsProbe) -> (r: Vec<ConfigFile>)
    ensures
        r.deep_view() == spec_macos_all_files(probe@),
{
    let mut files: Vec<ConfigFile> = Vec::new();
    files.push(ConfigFile::shell(String::from_str("/etc/zshenv"), "system zshenv"));
    files.push(ConfigFile::shell(String::from_str("/etc/zprofile"), "system zprofile"));
    files.push(ConfigFile::shell(String::from_str("/etc/zshrc"), "system zshrc"));
    files.push(ConfigFile::shell(String::from_str("/etc/profile"), "system profile"));
    files.push(ConfigFile::shell(String::from_str("/etc/bashrc"), "system bashrc"));
    match &probe.home {
        Some(h) => {
            files.push(ConfigFile::shell(concat_str(h.as_str(), "/.zshenv"), "user zshenv"));
            files.push(ConfigFile::shell(concat_str(h.as_str(), "/.zprofile"), "user zprofile"));
            files.push(ConfigFile::shell(concat_str(h.as_str(), "/.zshrc"), "user zshrc"));
            files.push(ConfigFile::shell(concat_str(h.as_str(), "/.zlogin"), "user zlogin"));
            files.push(
                ConfigFile::shell(concat_str(h.as_str(), "/.bash_profile"), "user bash_profile"),
            );
            files.push(ConfigFile::shell(concat_str(h.as_str(), "/.bashrc"), "user bashrc"));
            files.push(ConfigFile::shell(concat_str(h.as_str(), "/.profile"), "user profile"));
            let dir = concat_str(h.as_str(), "/Library/LaunchAgents");
            let part = agent_plists(probe, dir.as_str(), "user LaunchAgent");
            let ghost before = files.deep_view();
            let ghost pdv = part.deep_view();
            let mut part = part;
            files.append(&mut part);
            proof {
                assert(files.deep_view() =~= before + pdv);
            }
        },
        None => {},
    }
    proof {
        assert(files.deep_view() =~= spec_macos_all_files(probe@));
    }
    files
}

} // verus!
