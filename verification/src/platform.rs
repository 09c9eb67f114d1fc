//! The two supported platforms. Which one is running is an external query
//! answered by the caller; everything here is keyed on the answer.

use vstd::prelude::*;

use crate::files::{ConfigFile, FileModel, FsProbe, ProbeModel};
use crate::variable::Context;

verus! {

/// A supported platform.
#[derive(Clone, Copy, Debug, PartialEq, Eq, Structural)]
pub enum Platform {
    Linux,
    MacOS,
}

impl Platform {
    /// The platform's lower-case name.
    pub open spec fn spec_name(&self) -> Seq<char> {
        match *self {
            Platform::Linux => "linux"@,
            Platform::MacOS => "macos"@,
        }
    }

    /// The platform's lower-case name.
    pub fn name(&self) -> (r: &'static str)
        ensures
            r@ == self.spec_name(),
    {
        match *self {
            Platform::Linux => "linux",
            Platform::MacOS => "macos",
        }
    }
}

/// The ordered files a context consults on a platform.
pub open spec fn spec_platform_context_files(
    platform: Platform,
    context: Context,
    probe: ProbeModel,
) -> Seq<FileModel> {
    match platform {
        Platform::Linux => crate::linux::spec_linux_context_files(context, probe),
        Platform::MacOS => crate::macos::spec_macos_context_files(context, probe),
    }
}

/// Every file a platform knows about, over all contexts.
pub open spec fn spec_platform_all_files(platform: Platform, probe: ProbeModel) -> Seq<FileModel> {
    match platform {
        Platform::Linux => crate::linux::spec_linux_all_files(probe),
        Platform::MacOS => crate::macos::spec_macos_all_files(probe),
    }
}

impl Platform {
    /// Get the platform-specific config files for a given context.
    pub fn config_files(&self, context: Context, probe: &FsProbe) -> (r: Vec<ConfigFile>)
        ensures
            r.deep_view() == spec_platform_context_files(*self, context, probe@),
    {
        match *self {
            Platform::Linux => crate::linux::config_files_for_context(context, probe),
            Platform::MacOS => crate::macos::config_files_for_context(context, probe),
        }
    }

    /// Get all config files that might define environment variables.
    pub fn all_config_files(&self, probe: &FsProbe) -> (r: Vec<ConfigFile>)
        ensures
            r.deep_view() == spec_platform_all_files(*self, probe@),
    {
        match *self {
            Platform::Linux => crate::linux::all_config_files(probe),
            Platform::MacOS => crate::macos::all_config_files(probe),
        }
    }
}

} // verus!
