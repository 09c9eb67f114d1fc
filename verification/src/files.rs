//! Configuration files and the filesystem snapshot the catalog reads.
//!
//! The catalog itself never touches the filesystem: the caller probes the
//! directories and paths of interest once and hands the answers in as an
//! [`FsProbe`]; the catalog is a pure function of that snapshot.

use vstd::prelude::*;

use crate::text::str_eq;

verus! {

/// Type of configuration file.
#[derive(Clone, Copy, Debug, PartialEq, Eq, Structural)]
pub enum FileType {
    /// `/etc/environment` style (KEY=value, no shell syntax)
    Environment,
    /// Shell script (bash/zsh)
    Shell,
    /// Systemd unit file
    SystemdUnit,
    /// Systemd environment.d config
    SystemdEnvironmentD,
    /// macOS launchd property list
    Plist,
}

/// Mathematical model of a [`ConfigFile`].
#[verifier::ext_equal]
pub ghost struct FileModel {
    pub path: Seq<char>,
    pub file_type: FileType,
    pub description: Seq<char>,
}

/// A configuration file that may contain variable definitions.
#[derive(Debug)]
pub struct ConfigFile {
    pub path: String,
    pub file_type: FileType,
    pub description: String,
}

impl View for ConfigFile {
    type V = FileModel;

    open spec fn view(&self) -> FileModel {
        FileModel { path: self.path@, file_type: self.file_type, description: self.description@ }
    }
}

impl DeepView for ConfigFile {
    type V = FileModel;

    open spec fn deep_view(&self) -> FileModel {
        self.view()
    }
}

impl ConfigFile {
    /// A file of the given type.
    pub fn new(path: String, file_type: FileType, description: &str) -> (r: ConfigFile)
        ensures
            r@ == (FileModel { path: path@, file_type, description: description@ }),
    {
        ConfigFile { path, file_type, description: description.to_owned() }
    }

    /// A shell script.
    pub fn shell(path: String, description: &str) -> (r: ConfigFile)
        ensures
            r@ == (FileModel { path: path@, file_type: FileType::Shell, description: description@ }),
    {
        ConfigFile::new(path, FileType::Shell, description)
    }

    /// A plain key-value file.
    pub fn environment(path: String, description: &str) -> (r: ConfigFile)
        ensures
            r@ == (FileModel {
                path: path@,
                file_type: FileType::Environment,
                description: description@,
            }),
    {
        ConfigFile::new(path, FileType::Environment, description)
    }

    /// A launchd property list.
    pub fn plist(path: String, description: &str) -> (r: ConfigFile)
        ensures
            r@ == (FileModel { path: path@, file_type: FileType::Plist, description: description@ }),
    {
        ConfigFile::new(path, FileType::Plist, description)
    }

    /// A systemd unit file.
    pub fn systemd_unit(path: String, description: &str) -> (r: ConfigFile)
        ensures
            r@ == (FileModel {
                path: path@,
                file_type: FileType::SystemdUnit,
                description: description@,
            }),
    {
        ConfigFile::new(path, FileType::SystemdUnit, description)
    }

    /// A systemd environment.d fragment.
    pub fn systemd_env_d(path: String, description: &str) -> (r: ConfigFile)
        ensures
            r@ == (FileModel {
                path: path@,
                file_type: FileType::SystemdEnvironmentD,
                description: description@,
            }),
    {
        ConfigFile::new(path, FileType::SystemdEnvironmentD, description)
    }
}

/// Model of a directory entry.
pub ghost struct EntryModelFs {
    pub path: Seq<char>,
    pub is_dir: bool,
}

/// One entry of a probed directory: its full path, and whether it is itself
/// a directory.
#[derive(Debug)]
pub struct DirEntryInfo {
    pub path: String,
    pub is_dir: bool,
}

impl View for DirEntryInfo {
    type V = EntryModelFs;

    open spec fn view(&self) -> EntryModelFs {
        EntryModelFs { path: self.path@, is_dir: self.is_dir }
    }
}

impl DeepView for DirEntryInfo {
    type V = EntryModelFs;

    open spec fn deep_view(&self) -> EntryModelFs {
        self.view()
    }
}

/// Model of a probed directory.
pub ghost struct ListingModel {
    pub dir: Seq<char>,
    pub entries: Seq<EntryModelFs>,
}

/// The entries of one probed directory. A directory that does not exist is
/// simply absent (or listed with no entries): it contributes nothing.
#[derive(Debug)]
pub struct DirListing {
    pub dir: String,
    pub entries: Vec<DirEntryInfo>,
}

impl View for DirListing {
    type V = ListingModel;

    open spec fn view(&self) -> ListingModel {
        ListingModel { dir: self.dir@, entries: self.entries.deep_view() }
    }
}

impl DeepView for DirListing {
    type V = ListingModel;

    open spec fn deep_view(&self) -> ListingModel {
        self.view()
    }
}

/// Model of a filesystem snapshot.
pub ghost struct ProbeModel {
    pub home: Option<Seq<char>>,
    pub existing: Seq<Seq<char>>,
    pub listings: Seq<ListingModel>,
    pub desktop: Option<Seq<char>>,
}

/// A snapshot of the filesystem facts the catalog consults: the home
/// directory, which probed paths exist, the entries of the probed
/// directories (including, one level down, the subdirectories of those
/// directories), and — on Linux — the compositor desktop name an external
/// session-manager query reported, if any.
#[derive(Debug)]
pub struct FsProbe {
    pub home: Option<String>,
    pub existing: Vec<String>,
    pub listings: Vec<DirListing>,
    pub desktop: Option<String>,
}

impl View for FsProbe {
    type V = ProbeModel;

    open spec fn view(&self) -> ProbeModel {
        ProbeModel {
            home: match self.home {
                Some(ref h) => Some(h@),
                None => None,
            },
            existing: self.existing.deep_view(),
            listings: self.listings.deep_view(),
            desktop: match self.desktop {
                Some(ref d) => Some(d@),
                None => None,
            },
        }
    }
}

/// Whether the snapshot says `path` exists.
pub open spec fn probe_has(p: ProbeModel, path: Seq<char>) -> bool {
    exists|i: int| 0 <= i < p.existing.len() && p.existing[i] == path
}

/// The entries of `dir` in the snapshot, from listing index `i` on: those of
/// the first listing for `dir`, or empty when none was probed.
pub open spec fn probe_entries_from(ls: Seq<ListingModel>, i: int, dir: Seq<char>) -> Seq<
    EntryModelFs,
>
    decreases ls.len() - i,
{
    if 0 <= i < ls.len() {
        if ls[i].dir == dir {
            ls[i].entries
        } else {
            probe_entries_from(ls, i + 1, dir)
        }
    } else {
        Seq::empty()
    }
}

/// The entries of `dir` in the snapshot.
pub open spec fn probe_entries(p: ProbeModel, dir: Seq<char>) -> Seq<EntryModelFs> {
    probe_entries_from(p.listings, 0, dir)
}

impl FsProbe {
    /// An empty snapshot: no home, nothing exists, nothing listed.
    pub fn empty() -> (r: FsProbe)
        ensures
            r@.home is None,
            r@.existing.len() == 0,
            r@.listings.len() == 0,
            r@.desktop is None,
    {
        FsProbe { home: None, existing: Vec::new(), listings: Vec::new(), desktop: None }
    }

    /// Whether the snapshot says `path` exists.
    pub fn has(&self, path: &str) -> (r: bool)
        ensures
            r == probe_has(self@, path@),
    {
        let mut i: usize = 0;
        while i < self.existing.len()
            invariant
                i <= self.existing@.len(),
                forall|k: int| 0 <= k < i ==> self@.existing[k] != path@,
            decreases self.existing@.len() - i,
        {
            proof {
                assert(self@.existing[i as int] == self.existing@[i as int]@);
            }
            if str_eq(self.existing[i].as_str(), path) {
                return true;
            }
            i = i + 1;
        }
        false
    }

    /// The index of the listing for `dir`, if one was probed.
    pub fn listing_index(&self, dir: &str) -> (r: Option<usize>)
        ensures
            (match r {
                Some(i) => i < self.listings@.len() && self@.listings[i as int].dir == dir@
                    && probe_entries(self@, dir@) == self@.listings[i as int].entries,
                None => probe_entries(self@, dir@) == Seq::<EntryModelFs>::empty(),
            }),
    {
        let mut i: usize = 0;
        while i < self.listings.len()
            invariant
                i <= self.listings@.len(),
                forall|k: int| 0 <= k < i ==> self@.listings[k].dir != dir@,
                probe_entries_from(self@.listings, 0, dir@) == probe_entries_from(
                    self@.listings,
                    i as int,
                    dir@,
                ),
            decreases self.listings@.len() - i,
        {
            proof {
                assert(self@.listings[i as int] == self.listings@[i as int].deep_view());
            }
            if str_eq(self.listings[i].dir.as_str(), dir) {
                return Some(i);
            }
            i = i + 1;
        }
        None
    }
}

} // verus!
