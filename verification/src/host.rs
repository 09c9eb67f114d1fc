//! The one query the library makes of the machine it runs on: where the
//! user's home directory is. Everything else the library needs from the
//! host (file contents, directory listings, process queries) is handed in
//! by the caller as plain values.

use vstd::prelude::*;

verus! {

/// Relies on `dirs::home_dir`: returns the user's home directory, or `None`
/// when the platform gives no answer. The answer depends on the process
/// environment, so nothing is promised about the value.
#[verifier::external_body]
pub fn home_dir() -> (r: Option<String>)
{
    dirs::home_dir().map(|p| p.to_string_lossy().into_owned())
}

} // verus!
