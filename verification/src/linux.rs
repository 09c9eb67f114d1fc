//! The Linux file catalog: which startup files each context consults, in
//! which order. Pure functions of a filesystem snapshot; drop-in fragments
//! are emitted in lexicographic filename order.

use vstd::prelude::*;

use crate::files::{
    ConfigFile, DirEntryInfo, EntryModelFs, FileModel, FileType, FsProbe, ProbeModel, probe_entries,
    probe_has,
};
use crate::variable::Context;
use crate::text::{
    concat_str, chars_to_string, has_extension, has_prefix, has_suffix, non_ws_run, non_ws_run_at,
    path_has_extension, sort_strings, spec_lines, spec_sort, split_lines, str_eq, subvec, to_chars,
    ws_run, ws_run_at, ends_with, starts_with,
};

verus! {

// ---------------------------------------------------------------------------
// Generic helpers: filter entries, turn paths into files
// ---------------------------------------------------------------------------

/// The paths of the entries from `i` on whose file name has extension `ext`.
pub open spec fn filter_ext_paths(entries: Seq<EntryModelFs>, i: int, ext: Seq<char>) -> Seq<
    Seq<char>,
>
    decreases entries.len() - i,
{
    if 0 <= i < entries.len() {
        let rest = filter_ext_paths(entries, i + 1, ext);
        if has_extension(entries[i].path, ext) {
            seq![entries[i].path] + rest
        } else {
            rest
        }
    } else {
        Seq::empty()
    }
}

/// The paths of all entries from `i` on.
pub open spec fn all_entry_paths_from(entries: Seq<EntryModelFs>, i: int) -> Seq<Seq<char>>
    decreases entries.len() - i,
{
    if 0 <= i < entries.len() {
        seq![entries[i].path] + all_entry_paths_from(entries, i + 1)
    } else {
        Seq::empty()
    }
}

/// The paths from `i` on whose file name begins with `prefix`.
pub open spec fn filter_base_prefix_paths(
    entries: Seq<EntryModelFs>,
    i: int,
    prefix: Seq<char>,
) -> Seq<Seq<char>>
    decreases entries.len() - i,
{
    if 0 <= i < entries.len() {
        let rest = filter_base_prefix_paths(entries, i + 1, prefix);
        if has_prefix(crate::text::base_name(entries[i].path), prefix) {
            seq![entries[i].path] + rest
        } else {
            rest
        }
    } else {
        Seq::empty()
    }
}

/// One file of the given type per path, in order.
pub open spec fn typed_files(paths: Seq<Seq<char>>, i: int, ft: FileType, desc: Seq<char>) -> Seq<
    FileModel,
>
    decreases paths.len() - i,
{
    if 0 <= i < paths.len() {
        seq![FileModel { path: paths[i], file_type: ft, description: desc }] + typed_files(
            paths,
            i + 1,
            ft,
            desc,
        )
    } else {
        Seq::empty()
    }
}

pub(crate) fn paths_with_ext(entries: &Vec<DirEntryInfo>, ext: &Vec<char>) -> (r: Vec<String>)
    ensures
        r.deep_view() == filter_ext_paths(entries.deep_view(), 0, ext@),
{
    let ghost dv = entries.deep_view();
    let mut r: Vec<String> = Vec::new();
    let mut i: usize = 0;
    while i < entries.len()
        invariant
            dv == entries.deep_view(),
            i <= entries@.len(),
            filter_ext_paths(dv, 0, ext@) == r.deep_view() + filter_ext_paths(dv, i as int, ext@),
        decreases entries@.len() - i,
    {
        proof {
            assert(dv[i as int] == entries@[i as int].deep_view());
        }
        if path_has_extension(entries[i].path.as_str(), ext) {
            let ghost rdv = r.deep_view();
            r.push(entries[i].path.clone());
            proof {
                assert(r.deep_view() =~= rdv + seq![dv[i as int].path]);
                assert(rdv + (seq![dv[i as int].path] + filter_ext_paths(dv, i + 1, ext@)) =~= (rdv
                    + seq![dv[i as int].path]) + filter_ext_paths(dv, i + 1, ext@));
            }
        }
        i = i + 1;
    }
    proof {
        assert(r.deep_view() =~= filter_ext_paths(dv, 0, ext@));
    }
    r
}

fn all_entry_paths(entries: &Vec<DirEntryInfo>) -> (r: Vec<String>)
    ensures
        r.deep_view() == all_entry_paths_from(entries.deep_view(), 0),
{
    let ghost dv = entries.deep_view();
    let mut r: Vec<String> = Vec::new();
    let mut i: usize = 0;
    while i < entries.len()
        invariant
            dv == entries.deep_view(),
            i <= entries@.len(),
            all_entry_paths_from(dv, 0) == r.deep_view() + all_entry_paths_from(dv, i as int),
        decreases entries@.len() - i,
    {
        proof {
            assert(dv[i as int] == entries@[i as int].deep_view());
        }
        let ghost rdv = r.deep_view();
        r.push(entries[i].path.clone());
        proof {
            assert(r.deep_view() =~= rdv + seq![dv[i as int].path]);
            assert(rdv + (seq![dv[i as int].path] + all_entry_paths_from(dv, i + 1)) =~= (rdv
                + seq![dv[i as int].path]) + all_entry_paths_from(dv, i + 1));
        }
        i = i + 1;
    }
    proof {
        assert(r.deep_view() =~= all_entry_paths_from(dv, 0));
    }
    r
}

fn paths_with_base_prefix(entries: &Vec<DirEntryInfo>, prefix: &Vec<char>) -> (r: Vec<String>)
    ensures
        r.deep_view() == filter_base_prefix_paths(entries.deep_view(), 0, prefix@),
{
    let ghost dv = entries.deep_view();
    let mut r: Vec<String> = Vec::new();
    let mut i: usize = 0;
    while i < entries.len()
        invariant
            dv == entries.deep_view(),
            i <= entries@.len(),
            filter_base_prefix_paths(dv, 0, prefix@) == r.deep_view() + filter_base_prefix_paths(
                dv,
                i as int,
                prefix@,
            ),
        decreases entries@.len() - i,
    {
        proof {
            assert(dv[i as int] == entries@[i as int].deep_view());
        }
        let pv = to_chars(entries[i].path.as_str());
        let base = crate::text::base_of(&pv);
        if starts_with(&base, prefix) {
            let ghost rdv = r.deep_view();
            r.push(entries[i].path.clone());
            proof {
                assert(r.deep_view() =~= rdv + seq![dv[i as int].path]);
                assert(rdv + (seq![dv[i as int].path] + filter_base_prefix_paths(dv, i + 1,
                    prefix@)) =~= (rdv + seq![dv[i as int].path]) + filter_base_prefix_paths(dv, i
                    + 1, prefix@));
            }
        }
        i = i + 1;
    }
    proof {
        assert(r.deep_view() =~= filter_base_prefix_paths(dv, 0, prefix@));
    }
    r
}

pub(crate) fn typed_files_exec(paths: &Vec<String>, ft: FileType, desc: &str) -> (r: Vec<ConfigFile>)
    ensures
        r.deep_view() == typed_files(paths.deep_view(), 0, ft, desc@),
{
    let ghost dv = paths.deep_view();
    let mut r: Vec<ConfigFile> = Vec::new();
    let mut i: usize = 0;
    while i < paths.len()
        invariant
            dv == paths.deep_view(),
            i <= paths@.len(),
            typed_files(dv, 0, ft, desc@) == r.deep_view() + typed_files(dv, i as int, ft, desc@),
        decreases paths@.len() - i,
    {
        proof {
            assert(dv[i as int] == paths@[i as int].deep_view());
        }
        let ghost rdv = r.deep_view();
        let f = ConfigFile::new(paths[i].clone(), ft, desc);
        let ghost fm = f@;
        r.push(f);
        proof {
            assert(r.deep_view() =~= rdv + seq![fm]);
            assert(rdv + (seq![fm] + typed_files(dv, i + 1, ft, desc@)) =~= (rdv + seq![fm])
                + typed_files(dv, i + 1, ft, desc@));
        }
        i = i + 1;
    }
    proof {
        assert(r.deep_view() =~= typed_files(dv, 0, ft, desc@));
    }
    r
}

// ---------------------------------------------------------------------------
// environment.d fragments
// ---------------------------------------------------------------------------

/// The `*.conf` fragments of one environment.d directory, sorted by name.
pub open spec fn spec_collect_env_d(probe: ProbeModel, dir: Seq<char>, desc: Seq<char>) -> Seq<
    FileModel,
> {
    typed_files(
        spec_sort(filter_ext_paths(probe_entries(probe, dir), 0, "conf"@)),
        0,
        FileType::SystemdEnvironmentD,
        desc,
    )
}

/// Collect `environment.d/*.conf` fragments from a directory, sorted
/// lexicographically. A directory that was not probed, or is missing,
/// contributes nothing.
pub fn collect_env_d_confs(dir: &str, description: &str, probe: &FsProbe) -> (r: Vec<ConfigFile>)
    ensures
        r.deep_view() == spec_collect_env_d(probe@, dir@, description@),
{
    let ext = to_chars("conf");
    match probe.listing_index(dir) {
        Some(ix) => {
            let paths = paths_with_ext(&probe.listings[ix].entries, &ext);
            proof {
                assert(probe.listings@[ix as int].deep_view() == probe@.listings[ix as int]);
            }
            let sorted = sort_strings(&paths);
            typed_files_exec(&sorted, FileType::SystemdEnvironmentD, description)
        },
        None => {
            let r: Vec<ConfigFile> = Vec::new();
            proof {
                assert(filter_ext_paths(Seq::<EntryModelFs>::empty(), 0, "conf"@)
                    =~= Seq::<Seq<char>>::empty());
                assert(r.deep_view() =~= spec_collect_env_d(probe@, dir@, description@));
            }
            r
        },
    }
}

// ---------------------------------------------------------------------------
// UWSM session detection and env files
// ---------------------------------------------------------------------------

/// The desktop name recovered from the output of a systemd user-unit query:
/// the first line whose first token is `wayland-wm@<desktop>.desktop.service`
/// with a non-empty desktop. A line without any token ends the scan with no
/// answer.
pub open spec fn spec_parse_uwsm(lines: Seq<Seq<char>>, i: int) -> Option<Seq<char>>
    decreases lines.len() - i,
{
    if 0 <= i < lines.len() {
        let line = lines[i];
        let a = ws_run(line, 0);
        if a == line.len() {
            None
        } else {
            let tok = line.subrange(a, a + non_ws_run(line, a));
            let pre = "wayland-wm@"@;
            let suf = ".desktop.service"@;
            if has_prefix(tok, pre) && has_suffix(tok, suf) && tok.len() > pre.len() + suf.len() {
                Some(tok.subrange(pre.len() as int, tok.len() - suf.len()))
            } else {
                spec_parse_uwsm(lines, i + 1)
            }
        }
    } else {
        None
    }
}

/// Parse the output of a systemd user-unit query for the active UWSM
/// desktop name (e.g. `sway` from `wayland-wm@sway.desktop.service`).
pub fn parse_uwsm_unit_output(output: &str) -> (r: Option<String>)
    ensures
        (match r {
            Some(s) => Some(s@),
            None => None,
        }) == spec_parse_uwsm(spec_lines(output@), 0),
{
    proof {
        reveal_strlit("wayland-wm@");
        reveal_strlit(".desktop.service");
    }
    let lines = split_lines(output);
    let ghost dv = lines.deep_view();
    let pre = to_chars("wayland-wm@");
    let suf = to_chars(".desktop.service");
    let mut i: usize = 0;
    while i < lines.len()
        invariant
            dv == lines.deep_view(),
            dv == spec_lines(output@),
            pre@ == "wayland-wm@"@,
            suf@ == ".desktop.service"@,
            i <= lines@.len(),
            spec_parse_uwsm(dv, 0) == spec_parse_uwsm(dv, i as int),
        decreases lines@.len() - i,
    {
        proof {
            reveal_strlit("wayland-wm@");
            reveal_strlit(".desktop.service");
            assert(dv[i as int] == lines@[i as int].deep_view());
            assert(lines@[i as int].deep_view() =~= lines@[i as int]@);
        }
        let line = &lines[i];
        let ghost sline = dv[i as int];
        let a = ws_run_at(line, 0);
        if a == line.len() {
            proof {
                assert(spec_parse_uwsm(dv, i as int) is None);
            }
            return None;
        }
        let t = non_ws_run_at(line, a);
        let tok = subvec(line, a, a + t);
        let ghost stok = sline.subrange(ws_run(sline, 0), ws_run(sline, 0) + non_ws_run(
            sline,
            ws_run(sline, 0),
        ));
        proof {
            assert(tok@ == stok);
        }
        if starts_with(&tok, &pre) && ends_with(&tok, &suf) && tok.len() > pre.len() + suf.len() {
            let mid = subvec(&tok, pre.len(), tok.len() - suf.len());
            proof {
                assert(mid@ =~= stok.subrange("wayland-wm@"@.len() as int, stok.len()
                    - ".desktop.service"@.len()));
                assert(spec_parse_uwsm(dv, i as int) == Some(stok.subrange(
                    "wayland-wm@"@.len() as int,
                    stok.len() - ".desktop.service"@.len(),
                )));
            }
            return Some(chars_to_string(&mid));
        }
        proof {
            assert(spec_parse_uwsm(dv, i as int) == spec_parse_uwsm(dv, i + 1));
        }
        i = i + 1;
    }
    None
}

// ---------------------------------------------------------------------------
// Building blocks
// ---------------------------------------------------------------------------

/// Move the files of `src` to the end of `dst`.
fn append_files(dst: &mut Vec<ConfigFile>, src: Vec<ConfigFile>)
    ensures
        final(dst).deep_view() == old(dst).deep_view() + src.deep_view(),
{
    let ghost d0 = dst.deep_view();
    let ghost s0 = src.deep_view();
    let mut src = src;
    dst.append(&mut src);
    proof {
        assert(dst.deep_view() =~= d0 + s0);
    }
}

/// The PAM key-value file every Linux context reads first.
pub open spec fn pam_file() -> FileModel {
    FileModel {
        path: "/etc/environment"@,
        file_type: FileType::Environment,
        description: "PAM environment"@,
    }
}

/// A shell-script file model.
pub open spec fn sh_file(path: Seq<char>, desc: Seq<char>) -> FileModel {
    FileModel { path, file_type: FileType::Shell, description: desc }
}

/// The entries of the probed directory `dir`, every path sorted.
pub open spec fn spec_sorted_dir_paths(probe: ProbeModel, dir: Seq<char>) -> Seq<Seq<char>> {
    spec_sort(all_entry_paths_from(probe_entries(probe, dir), 0))
}

fn sorted_listing_paths(probe: &FsProbe, dir: &str) -> (r: Vec<String>)
    ensures
        r.deep_view() == spec_sorted_dir_paths(probe@, dir@),
{
    match probe.listing_index(dir) {
        Some(ix) => {
            proof {
                assert(probe.listings@[ix as int].deep_view() == probe@.listings[ix as int]);
            }
            let paths = all_entry_paths(&probe.listings[ix].entries);
            sort_strings(&paths)
        },
        None => {
            let r: Vec<String> = Vec::new();
            proof {
                assert(all_entry_paths_from(Seq::<EntryModelFs>::empty(), 0)
                    =~= Seq::<Seq<char>>::empty());
                assert(r.deep_view() =~= spec_sorted_dir_paths(probe@, dir@));
            }
            r
        },
    }
}

// ---------------------------------------------------------------------------
// UWSM env files
// ---------------------------------------------------------------------------

/// The UWSM env files one XDG directory contributes for a desktop: the base
/// `env` file, the `env.d` fragments sorted, the desktop-specific file, and
/// its drop-in directory sorted.
pub open spec fn spec_uwsm_dir_files(probe: ProbeModel, dir: Seq<char>, desktop: Seq<char>) -> Seq<
    FileModel,
> {
    let envp = dir + "/env"@;
    let envd = dir + "/env.d"@;
    let deskp = dir + "/env-"@ + desktop;
    let deskd = dir + "/env-"@ + desktop + ".d"@;
    (if probe_has(probe, envp) {
        seq![sh_file(envp, "uwsm env"@)]
    } else {
        Seq::empty()
    }) + typed_files(spec_sorted_dir_paths(probe, envd), 0, FileType::Shell, "uwsm env.d"@) + (
    if probe_has(probe, deskp) {
        seq![sh_file(deskp, "uwsm env (desktop)"@)]
    } else {
        Seq::empty()
    }) + typed_files(
        spec_sorted_dir_paths(probe, deskd),
        0,
        FileType::Shell,
        "uwsm env.d (desktop)"@,
    )
}

fn uwsm_dir_files(dir: &str, desktop: &str, probe: &FsProbe) -> (r: Vec<ConfigFile>)
    ensures
        r.deep_view() == spec_uwsm_dir_files(probe@, dir@, desktop@),
{
    let mut files: Vec<ConfigFile> = Vec::new();

    let envp = concat_str(dir, "/env");
    if probe.has(envp.as_str()) {
        let f = ConfigFile::shell(envp, "uwsm env");
        let ghost fm = f@;
        files.push(f);
        proof {
            assert(files.deep_view() =~= seq![fm]);
        }
    }
    let ghost part1 = files.deep_view();
    proof {
        assert(part1 =~= (if probe_has(probe@, dir@ + "/env"@) {
            seq![sh_file(dir@ + "/env"@, "uwsm env"@)]
        } else {
            Seq::<FileModel>::empty()
        }));
    }

    let envd = concat_str(dir, "/env.d");
    let envd_paths = sorted_listing_paths(probe, envd.as_str());
    append_files(&mut files, typed_files_exec(&envd_paths, FileType::Shell, "uwsm env.d"));

    let deskp_prefix = concat_str(dir, "/env-");
    let deskp = concat_str(deskp_prefix.as_str(), desktop);
    proof {
        assert(deskp@ == dir@ + "/env-"@ + desktop@);
    }
    let ghost part2 = files.deep_view();
    if probe.has(deskp.as_str()) {
        let f = ConfigFile::shell(deskp, "uwsm env (desktop)");
        let ghost fm = f@;
        files.push(f);
        proof {
            assert(files.deep_view() =~= part2 + seq![fm]);
        }
    }
    let ghost part3 = files.deep_view();
    proof {
        assert(part3 =~= part2 + (if probe_has(probe@, dir@ + "/env-"@ + desktop@) {
            seq![sh_file(dir@ + "/env-"@ + desktop@, "uwsm env (desktop)"@)]
        } else {
            Seq::<FileModel>::empty()
        }));
    }

    let deskd = concat_str(concat_str(deskp_prefix.as_str(), desktop).as_str(), ".d");
    proof {
        assert(deskd@ == dir@ + "/env-"@ + desktop@ + ".d"@);
    }
    let deskd_paths = sorted_listing_paths(probe, deskd.as_str());
    append_files(
        &mut files,
        typed_files_exec(&deskd_paths, FileType::Shell, "uwsm env.d (desktop)"),
    );

    proof {
        assert(files.deep_view() =~= spec_uwsm_dir_files(probe@, dir@, desktop@));
    }
    files
}

/// All UWSM env files for a desktop, over the XDG directories in priority
/// order: `/usr/share/uwsm`, `/etc/xdg/uwsm`, then the user's
/// `~/.config/uwsm`.
pub open spec fn spec_uwsm_env_files(probe: ProbeModel, desktop: Seq<char>) -> Seq<FileModel> {
    spec_uwsm_dir_files(probe, "/usr/share/uwsm"@, desktop) + spec_uwsm_dir_files(
        probe,
        "/etc/xdg/uwsm"@,
        desktop,
    ) + (match probe.home {
        Some(h) => spec_uwsm_dir_files(probe, h + "/.config/uwsm"@, desktop),
        None => Seq::empty(),
    })
}

/// Build the list of UWSM env files for a given desktop name.
pub fn uwsm_env_files(desktop: &str, probe: &FsProbe) -> (r: Vec<ConfigFile>)
    ensures
        r.deep_view() == spec_uwsm_env_files(probe@, desktop@),
{
    let mut files = uwsm_dir_files("/usr/share/uwsm", desktop, probe);
    append_files(&mut files, uwsm_dir_files("/etc/xdg/uwsm", desktop, probe));
    match &probe.home {
        Some(h) => {
            let userdir = concat_str(h.as_str(), "/.config/uwsm");
            append_files(&mut files, uwsm_dir_files(userdir.as_str(), desktop, probe));
        },
        None => {},
    }
    proof {
        assert(files.deep_view() =~= spec_uwsm_env_files(probe@, desktop@));
    }
    files
}
// ---------------------------------------------------------------------------
// Context catalogs
// ---------------------------------------------------------------------------

/// The first existing of the user's login files, then the interactive rc.
pub open spec fn spec_user_login_files(probe: ProbeModel, h: Seq<char>) -> Seq<FileModel> {
    (if probe_has(probe, h + "/.bash_profile"@) {
        seq![sh_file(h + "/.bash_profile"@, "user bash_profile"@)]
    } else if probe_has(probe, h + "/.bash_login"@) {
        seq![sh_file(h + "/.bash_login"@, "user bash_login"@)]
    } else if probe_has(probe, h + "/.profile"@) {
        seq![sh_file(h + "/.profile"@, "user profile"@)]
    } else {
        Seq::empty()
    }) + seq![sh_file(h + "/.bashrc"@, "user bashrc"@)]
}

/// The files a systemd user service reads: the PAM file, then the
/// environment.d fragments of the four directories in ascending precedence.
pub open spec fn spec_systemd_user_files(probe: ProbeModel) -> Seq<FileModel> {
    seq![pam_file()] + spec_collect_env_d(
        probe,
        "/usr/lib/environment.d"@,
        "systemd environment.d (vendor)"@,
    ) + spec_collect_env_d(probe, "/run/environment.d"@, "systemd environment.d (runtime)"@)
        + spec_collect_env_d(probe, "/etc/environment.d"@, "systemd environment.d (system)"@) + (
    match probe.home {
        Some(h) => spec_collect_env_d(
            probe,
            h + "/.config/environment.d"@,
            "systemd environment.d (user)"@,
        ),
        None => Seq::empty(),
    })
}

/// The ordered files a Linux context consults. macOS contexts yield nothing
/// here.
pub open spec fn spec_linux_context_files(context: Context, probe: ProbeModel) -> Seq<FileModel> {
    match context {
        Context::InteractiveLogin => seq![
            pam_file(),
            sh_file("/etc/profile"@, "system profile"@),
        ] + typed_files(
            spec_sort(filter_ext_paths(probe_entries(probe, "/etc/profile.d"@), 0, "sh"@)),
            0,
            FileType::Shell,
            "profile.d script"@,
        ) + (match probe.home {
            Some(h) => spec_user_login_files(probe, h),
            None => Seq::empty(),
        }),
        Context::InteractiveNonLogin => seq![pam_file()] + seq![
            sh_file(
                if probe_has(probe, "/etc/bash.bashrc"@) {
                    "/etc/bash.bashrc"@
                } else {
                    "/etc/bashrc"@
                },
                "system bashrc"@,
            ),
        ] + (match probe.home {
            Some(h) => seq![sh_file(h + "/.bashrc"@, "user bashrc"@)],
            None => Seq::empty(),
        }),
        Context::NonInteractiveLogin | Context::NonInteractiveNonLogin => seq![pam_file()],
        Context::SystemdService => seq![pam_file()],
        Context::SystemdUser => spec_systemd_user_files(probe),
        Context::Uwsm => spec_systemd_user_files(probe) + (match probe.desktop {
            Some(d) => spec_uwsm_env_files(probe, d),
            None => Seq::empty(),
        }),
        _ => Seq::empty(),
    }
}

fn systemd_user_files(probe: &FsProbe) -> (r: Vec<ConfigFile>)
    ensures
        r.deep_view() == spec_systemd_user_files(probe@),
{
    let mut files: Vec<ConfigFile> = Vec::new();
    files.push(ConfigFile::environment(String::from_str("/etc/environment"), "PAM environment"));
    proof {
        assert(files.deep_view() =~= seq![pam_file()]);
    }
    append_files(
        &mut files,
        collect_env_d_confs("/usr/lib/environment.d", "systemd environment.d (vendor)", probe),
    );
    append_files(
        &mut files,
        collect_env_d_confs("/run/environment.d", "systemd environment.d (runtime)", probe),
    );
    append_files(
        &mut files,
        collect_env_d_confs("/etc/environment.d", "systemd environment.d (system)", probe),
    );
    match &probe.home {
        Some(h) => {
            let userdir = concat_str(h.as_str(), "/.config/environment.d");
            append_files(
                &mut files,
                collect_env_d_confs(userdir.as_str(), "systemd environment.d (user)", probe),
            );
        },
        None => {},
    }
    proof {
        assert(files.deep_view() =~= spec_systemd_user_files(probe@));
    }
    files
}

/// Get config files for a specific context on Linux.
pub fn config_files_for_context(context: Context, probe: &FsProbe) -> (r: Vec<ConfigFile>)
    ensures
        r.deep_view() == spec_linux_context_files(context, probe@),
{
    match context {
        Context::InteractiveLogin => {
            let mut files: Vec<ConfigFile> = Vec::new();
            files.push(
                ConfigFile::environment(String::from_str("/etc/environment"), "PAM environment"),
            );
            files.push(ConfigFile::shell(String::from_str("/etc/profile"), "system profile"));
            proof {
                assert(files.deep_view() =~= seq![
                    pam_file(),
                    sh_file("/etc/profile"@, "system profile"@),
                ]);
            }
            let ext = to_chars("sh");
            let dropins = match probe.listing_index("/etc/profile.d") {
                Some(ix) => {
                    proof {
                        assert(probe.listings@[ix as int].deep_view()
                            == probe@.listings[ix as int]);
                    }
                    let paths = paths_with_ext(&probe.listings[ix].entries, &ext);
                    let sorted = sort_strings(&paths);
                    typed_files_exec(&sorted, FileType::Shell, "profile.d script")
                },
                None => {
                    let e: Vec<ConfigFile> = Vec::new();
                    proof {
                        assert(filter_ext_paths(Seq::<EntryModelFs>::empty(), 0, "sh"@)
                            =~= Seq::<Seq<char>>::empty());
                        assert(e.deep_view() =~= typed_files(
                            spec_sort(
                                filter_ext_paths(
                                    probe_entries(probe@, "/etc/profile.d"@),
                                    0,
                                    "sh"@,
                                ),
                            ),
                            0,
                            FileType::Shell,
                            "profile.d script"@,
                        ));
                    }
                    e
                },
            };
            append_files(&mut files, dropins);
            match &probe.home {
                Some(h) => {
                    let ghost before = files.deep_view();
                    let bp = concat_str(h.as_str(), "/.bash_profile");
                    let bl = concat_str(h.as_str(), "/.bash_login");
                    let pf = concat_str(h.as_str(), "/.profile");
                    if probe.has(bp.as_str()) {
                        let f = ConfigFile::shell(bp, "user bash_profile");
                        let ghost fm = f@;
                        files.push(f);
                        proof {
                            assert(files.deep_view() =~= before + seq![fm]);
                        }
                    } else if probe.has(bl.as_str()) {
                        let f = ConfigFile::shell(bl, "user bash_login");
                        let ghost fm = f@;
                        files.push(f);
                        proof {
                            assert(files.deep_view() =~= before + seq![fm]);
                        }
                    } else if probe.has(pf.as_str()) {
                        let f = ConfigFile::shell(pf, "user profile");
                        let ghost fm = f@;
                        files.push(f);
                        proof {
                            assert(files.deep_view() =~= before + seq![fm]);
                        }
                    }
                    let ghost mid = files.deep_view();
                    let rc = concat_str(h.as_str(), "/.bashrc");
                    let f = ConfigFile::shell(rc, "user bashrc");
                    let ghost fm = f@;
                    files.push(f);
                    proof {
                        assert(files.deep_view() =~= mid + seq![fm]);
                    }
                },
                None => {},
            }
            proof {
                assert(files.deep_view() =~= spec_linux_context_files(context, probe@));
            }
            files
        },
        Context::InteractiveNonLogin => {
            let mut files: Vec<ConfigFile> = Vec::new();
            files.push(
                ConfigFile::environment(String::from_str("/etc/environment"), "PAM environment"),
            );
            if probe.has("/etc/bash.bashrc") {
                files.push(
                    ConfigFile::shell(String::from_str("/etc/bash.bashrc"), "system bashrc"),
                );
            } else {
                files.push(ConfigFile::shell(String::from_str("/etc/bashrc"), "system bashrc"));
            }
            match &probe.home {
                Some(h) => {
                    let rc = concat_str(h.as_str(), "/.bashrc");
                    files.push(ConfigFile::shell(rc, "user bashrc"));
                },
                None => {},
            }
            proof {
                assert(files.deep_view() =~= spec_linux_context_files(context, probe@));
            }
            files
        },
        Context::NonInteractiveLogin | Context::NonInteractiveNonLogin
        | Context::SystemdService => {
            let mut files: Vec<ConfigFile> = Vec::new();
            files.push(
                ConfigFile::environment(String::from_str("/etc/environment"), "PAM environment"),
            );
            proof {
                assert(files.deep_view() =~= seq![pam_file()]);
            }
            files
        },
        Context::SystemdUser => systemd_user_files(probe),
        Context::Uwsm => {
            let mut files = systemd_user_files(probe);
            match &probe.desktop {
                Some(d) => {
                    let desktop = d.clone();
                    append_files(&mut files, uwsm_env_files(desktop.as_str(), probe));
                },
                None => {},
            }
            proof {
                assert(files.deep_view() =~= spec_linux_context_files(context, probe@));
            }
            files
        },
        _ => {
            let files: Vec<ConfigFile> = Vec::new();
            proof {
                assert(files.deep_view() =~= spec_linux_context_files(context, probe@));
            }
            files
        },
    }
}
// ---------------------------------------------------------------------------
// Platform-wide catalog
// ---------------------------------------------------------------------------

/// Whether the first entry with path `p` is a directory; `false` when no
/// entry has that path.
pub open spec fn entry_is_dir(entries: Seq<EntryModelFs>, i: int, p: Seq<char>) -> bool
    decreases entries.len() - i,
{
    if 0 <= i < entries.len() {
        if entries[i].path == p {
            entries[i].is_dir
        } else {
            entry_is_dir(entries, i + 1, p)
        }
    } else {
        false
    }
}

fn entry_is_dir_exec(entries: &Vec<DirEntryInfo>, p: &str) -> (r: bool)
    ensures
        r == entry_is_dir(entries.deep_view(), 0, p@),
{
    let ghost dv = entries.deep_view();
    let mut i: usize = 0;
    while i < entries.len()
        invariant
            dv == entries.deep_view(),
            i <= entries@.len(),
            entry_is_dir(dv, 0, p@) == entry_is_dir(dv, i as int, p@),
        decreases entries@.len() - i,
    {
        proof {
            assert(dv[i as int] == entries@[i as int].deep_view());
        }
        if str_eq(entries[i].path.as_str(), p) {
            return entries[i].is_dir;
        }
        i = i + 1;
    }
    false
}

/// The files the scan of one UWSM directory contributes to the platform-wide
/// catalog: for each entry whose name begins with `env`, in sorted order,
/// either the entry itself or — for a drop-in directory — its entries,
/// sorted.
pub open spec fn spec_uwsm_scan_paths(
    probe: ProbeModel,
    entries: Seq<EntryModelFs>,
    paths: Seq<Seq<char>>,
    i: int,
) -> Seq<FileModel>
    decreases paths.len() - i,
{
    if 0 <= i < paths.len() {
        (if entry_is_dir(entries, 0, paths[i]) {
            typed_files(spec_sorted_dir_paths(probe, paths[i]), 0, FileType::Shell, "uwsm env"@)
        } else {
            seq![sh_file(paths[i], "uwsm env"@)]
        }) + spec_uwsm_scan_paths(probe, entries, paths, i + 1)
    } else {
        Seq::empty()
    }
}

/// The platform-wide scan of one UWSM directory.
pub open spec fn spec_uwsm_scan_dir(probe: ProbeModel, dir: Seq<char>) -> Seq<FileModel> {
    let entries = probe_entries(probe, dir);
    spec_uwsm_scan_paths(probe, entries, spec_sort(filter_base_prefix_paths(entries, 0, "env"@)), 0)
}

fn uwsm_scan_dir(probe: &FsProbe, dir: &str) -> (r: Vec<ConfigFile>)
    ensures
        r.deep_view() == spec_uwsm_scan_dir(probe@, dir@),
{
    match probe.listing_index(dir) {
        Some(ix) => {
            proof {
                assert(probe.listings@[ix as int].deep_view() == probe@.listings[ix as int]);
            }
            let prefix = to_chars("env");
            let named = paths_with_base_prefix(&probe.listings[ix].entries, &prefix);
            let sorted = sort_strings(&named);
            let ghost entries = probe_entries(probe@, dir@);
            let ghost sdv = sorted.deep_view();
            let mut files: Vec<ConfigFile> = Vec::new();
            let mut i: usize = 0;
            while i < sorted.len()
                invariant
                    sdv == sorted.deep_view(),
                    entries == probe.listings@[ix as int].deep_view().entries,
                    ix < probe.listings@.len(),
                    i <= sorted@.len(),
                    spec_uwsm_scan_paths(probe@, entries, sdv, 0) == files.deep_view()
                        + spec_uwsm_scan_paths(probe@, entries, sdv, i as int),
                decreases sorted@.len() - i,
            {
                proof {
                    assert(sdv[i as int] == sorted@[i as int].deep_view());
                }
                let part = if entry_is_dir_exec(&probe.listings[ix].entries, sorted[i].as_str()) {
                    let sub = sorted_listing_paths(probe, sorted[i].as_str());
                    typed_files_exec(&sub, FileType::Shell, "uwsm env")
                } else {
                    let mut one: Vec<ConfigFile> = Vec::new();
                    let f = ConfigFile::shell(sorted[i].clone(), "uwsm env");
                    let ghost fm = f@;
                    one.push(f);
                    proof {
                        assert(one.deep_view() =~= seq![fm]);
                    }
                    one
                };
                let ghost fdv = files.deep_view();
                let ghost pdv = part.deep_view();
                append_files(&mut files, part);
                proof {
                    assert(fdv + (pdv + spec_uwsm_scan_paths(probe@, entries, sdv, i + 1)) =~= (fdv
                        + pdv) + spec_uwsm_scan_paths(probe@, entries, sdv, i + 1));
                }
                i = i + 1;
            }
            proof {
                assert(files.deep_view() =~= spec_uwsm_scan_dir(probe@, dir@));
            }
            files
        },
        None => {
            let files: Vec<ConfigFile> = Vec::new();
            proof {
                assert(filter_base_prefix_paths(Seq::<EntryModelFs>::empty(), 0, "env"@)
                    =~= Seq::<Seq<char>>::empty());
                assert(files.deep_view() =~= spec_uwsm_scan_dir(probe@, dir@));
            }
            files
        },
    }
}

/// Every file on Linux that might define environment variables, over all
/// contexts: the PAM file, the system and user shell files, the profile and
/// environment.d drop-ins sorted, and the UWSM env files of every desktop.
pub open spec fn spec_linux_all_files(probe: ProbeModel) -> Seq<FileModel> {
    seq![pam_file(), sh_file("/etc/profile"@, "system profile"@)] + (if probe_has(
        probe,
        "/etc/bash.bashrc"@,
    ) {
        seq![sh_file("/etc/bash.bashrc"@, "system bashrc"@)]
    } else if probe_has(probe, "/etc/bashrc"@) {
        seq![sh_file("/etc/bashrc"@, "system bashrc"@)]
    } else {
        Seq::empty()
    }) + typed_files(
        spec_sort(filter_ext_paths(probe_entries(probe, "/etc/profile.d"@), 0, "sh"@)),
        0,
        FileType::Shell,
        "profile.d script"@,
    ) + spec_collect_env_d(probe, "/usr/lib/environment.d"@, "systemd environment.d (vendor)"@)
        + spec_collect_env_d(probe, "/run/environment.d"@, "systemd environment.d (runtime)"@)
        + spec_collect_env_d(probe, "/etc/environment.d"@, "systemd environment.d (system)"@) + (
    match probe.home {
        Some(h) => seq![
            sh_file(h + "/.bash_profile"@, "user bash_profile"@),
            sh_file(h + "/.bash_login"@, "user bash_login"@),
            sh_file(h + "/.profile"@, "user profile"@),
            sh_file(h + "/.bashrc"@, "user bashrc"@),
            sh_file(h + "/.bash_aliases"@, "user bash_aliases"@),
        ] + spec_collect_env_d(
            probe,
            h + "/.config/environment.d"@,
            "systemd environment.d (user)"@,
        ) + spec_uwsm_scan_dir(probe, "/usr/share/uwsm"@) + spec_uwsm_scan_dir(
            probe,
            "/etc/xdg/uwsm"@,
        ) + spec_uwsm_scan_dir(probe, h + "/.config/uwsm"@),
        None => Seq::empty(),
    })
}

/// Get all config files that might define environment variables on Linux.
pub fn all_config_files(probe: &FsProbe) -> (r: Vec<ConfigFile>)
    ensures
        r.deep_view() == spec_linux_all_files(probe@),
{
    let mut files: Vec<ConfigFile> = Vec::new();
    files.push(ConfigFile::environment(String::from_str("/etc/environment"), "PAM environment"));
    files.push(ConfigFile::shell(String::from_str("/etc/profile"), "system profile"));
    proof {
        assert(files.deep_view() =~= seq![
            pam_file(),
            sh_file("/etc/profile"@, "system profile"@),
        ]);
    }
    let ghost p0 = files.deep_view();
    if probe.has("/etc/bash.bashrc") {
        let f = ConfigFile::shell(String::from_str("/etc/bash.bashrc"), "system bashrc");
        let ghost fm = f@;
        files.push(f);
        proof {
            assert(files.deep_view() =~= p0 + seq![fm]);
        }
    } else if probe.has("/etc/bashrc") {
        let f = ConfigFile::shell(String::from_str("/etc/bashrc"), "system bashrc");
        let ghost fm = f@;
        files.push(f);
        proof {
            assert(files.deep_view() =~= p0 + seq![fm]);
        }
    }

    let ext = to_chars("sh");
    let dropins = match probe.listing_index("/etc/profile.d") {
        Some(ix) => {
            proof {
                assert(probe.listings@[ix as int].deep_view() == probe@.listings[ix as int]);
            }
            let paths = paths_with_ext(&probe.listings[ix].entries, &ext);
            let sorted = sort_strings(&paths);
            typed_files_exec(&sorted, FileType::Shell, "profile.d script")
        },
        None => {
            let e: Vec<ConfigFile> = Vec::new();
            proof {
                assert(filter_ext_paths(Seq::<EntryModelFs>::empty(), 0, "sh"@)
                    =~= Seq::<Seq<char>>::empty());
                assert(e.deep_view() =~= typed_files(
                    spec_sort(
                        filter_ext_paths(probe_entries(probe@, "/etc/profile.d"@), 0, "sh"@),
                    ),
                    0,
                    FileType::Shell,
                    "profile.d script"@,
                ));
            }
            e
        },
    };
    append_files(&mut files, dropins);
    append_files(
        &mut files,
        collect_env_d_confs("/usr/lib/environment.d", "systemd environment.d (vendor)", probe),
    );
    append_files(
        &mut files,
        collect_env_d_confs("/run/environment.d", "systemd environment.d (runtime)", probe),
    );
    append_files(
        &mut files,
        collect_env_d_confs("/etc/environment.d", "systemd environment.d (system)", probe),
    );

    match &probe.home {
        Some(h) => {
            let ghost mid = files.deep_view();
            let f1 = ConfigFile::shell(concat_str(h.as_str(), "/.bash_profile"), "user bash_profile");
            let f2 = ConfigFile::shell(concat_str(h.as_str(), "/.bash_login"), "user bash_login");
            let f3 = ConfigFile::shell(concat_str(h.as_str(), "/.profile"), "user profile");
            let f4 = ConfigFile::shell(concat_str(h.as_str(), "/.bashrc"), "user bashrc");
            let f5 = ConfigFile::shell(
                concat_str(h.as_str(), "/.bash_aliases"),
                "user bash_aliases",
            );
            let ghost m1 = f1@;
            let ghost m2 = f2@;
            let ghost m3 = f3@;
            let ghost m4 = f4@;
            let ghost m5 = f5@;
            files.push(f1);
            files.push(f2);
            files.push(f3);
            files.push(f4);
            files.push(f5);
            proof {
                assert(files.deep_view() =~= mid + seq![m1, m2, m3, m4, m5]);
            }
            let userdir = concat_str(h.as_str(), "/.config/environment.d");
            append_files(
                &mut files,
                collect_env_d_confs(userdir.as_str(), "systemd environment.d (user)", probe),
            );
            append_files(&mut files, uwsm_scan_dir(probe, "/usr/share/uwsm"));
            append_files(&mut files, uwsm_scan_dir(probe, "/etc/xdg/uwsm"));
            let useruwsm = concat_str(h.as_str(), "/.config/uwsm");
            append_files(&mut files, uwsm_scan_dir(probe, useruwsm.as_str()));
        },
        None => {},
    }
    proof {
        assert(files.deep_view() =~= spec_linux_all_files(probe@));
    }
    files
}
} // verus!
