//! File discovery for one trace: the catalog's ordered list for a context.
//! A listed file that turns out not to exist, or not to be readable, simply
//! contributes no changes when the traversal reaches it.

use vstd::prelude::*;

use crate::files::{ConfigFile, FsProbe};
use crate::platform::{Platform, spec_platform_context_files};
use crate::variable::Context;

verus! {

/// Discover the config files for the given context, in the order they are
/// to be processed (which matters for tracking modifications correctly).
pub fn discover_files(platform: Platform, context: Context, probe: &FsProbe) -> (r: Vec<
    ConfigFile,
>)
    ensures
        r.deep_view() == spec_platform_context_files(platform, context, probe@),
{
    platform.config_files(context, probe)
}

} // verus!
