//! Validation of the request a caller hands to the engine: which name to
//! trace, in which mode, and for which context. Reading the command line
//! itself is the caller's business; the rules about which combinations of
//! options make sense are decided and verified here.

use vstd::prelude::*;

use crate::platform::Platform;
use crate::text::{ident_char, ident_start_char, is_ident_char, is_ident_start_char, to_chars};
use crate::variable::Context;
use vstd::string::StringExecFns;

verus! {

/// A name fit for a shell variable or function: `[A-Za-z_][A-Za-z0-9_]*`.
pub open spec fn spec_is_valid_identifier(s: Seq<char>) -> bool {
    &&& s.len() > 0
    &&& is_ident_start_char(s[0])
    &&& forall|i: int| 0 <= i < s.len() ==> is_ident_char(#[trigger] s[i])
}

/// Whether `s` matches the identifier grammar `[A-Za-z_][A-Za-z0-9_]*`.
pub fn is_valid_identifier(s: &str) -> (r: bool)
    ensures
        r == spec_is_valid_identifier(s@),
{
    let v = to_chars(s);
    if v.len() == 0 {
        return false;
    }
    if !ident_start_char(v[0]) {
        return false;
    }
    let mut i: usize = 0;
    while i < v.len()
        invariant
            v@ == s@,
            i <= v@.len(),
            v@.len() > 0 && is_ident_start_char(v@[0]),
            forall|k: int| 0 <= k < i ==> is_ident_char(#[trigger] v@[k]),
        decreases v@.len() - i,
    {
        if !ident_char(v[i]) {
            return false;
        }
        i = i + 1;
    }
    true
}

/// The output format the caller asked for.
#[derive(Clone, Copy, Debug, PartialEq, Eq, Structural)]
pub enum OutputFormat {
    Text,
    Json,
}

/// The context named on the command line, before it is resolved against the
/// running platform.
#[derive(Clone, Copy, Debug, PartialEq, Eq, Structural)]
pub enum ContextArg {
    /// Interactive login shell
    Login,
    /// Interactive non-login shell
    Interactive,
    /// Non-interactive shell (cron, scripts)
    Cron,
    /// Systemd service (Linux only)
    Systemd,
    /// Launchd agent - GUI apps (macOS only)
    Launchd,
}

/// A trace request: the name to trace and the mode flags.
#[derive(Debug)]
pub struct Args {
    /// The environment variable (or function name in function mode) to trace
    pub variable: Option<String>,
    /// Trace a shell function instead of a variable
    pub function: bool,
    /// Find all files that define the name, ignoring context
    pub find: bool,
    /// Compare the name across the named contexts
    pub compare: Option<Vec<String>>,
    /// Simulate a specific startup context
    pub context: Option<ContextArg>,
    /// Run environment sanity checks instead of tracing
    pub check: bool,
    /// Report skipped files as well
    pub verbose: bool,
    /// Output format
    pub format: OutputFormat,
}

impl Args {
    /// The error a request is rejected with, or `None` when it is accepted.
    /// The checks run in a fixed order; the first failure wins.
    pub open spec fn spec_validate(&self) -> Option<Seq<char>> {
        if self.variable is None && !self.check {
            Some("Must provide a variable name or use --check"@)
        } else if self.variable is Some && !spec_is_valid_identifier(self.variable->0@) {
            Some(
                "'"@ + self.variable->0@
                    + "' is not a valid identifier (must match [A-Za-z_][A-Za-z0-9_]*)"@,
            )
        } else if self.compare is Some && self.variable is None {
            Some("--compare requires a variable name"@)
        } else if self.find && self.variable is None {
            Some("--find requires a variable name"@)
        } else if self.function && self.check {
            Some("--function cannot be used with --check"@)
        } else {
            None
        }
    }

    /// Accept or reject the request, with the first failing rule's message.
    pub fn validate(&self) -> (r: Result<(), String>)
        ensures
            r is Ok <==> self.spec_validate() is None,
            r is Err ==> Some(r->Err_0@) == self.spec_validate(),
    {
        if self.variable.is_none() && !self.check {
            return Err("Must provide a variable name or use --check".to_owned());
        }

        if let Some(name) = &self.variable {
            if !is_valid_identifier(name.as_str()) {
                let mut msg = "'".to_owned();
                msg.append(name.as_str());
                msg.append("' is not a valid identifier (must match [A-Za-z_][A-Za-z0-9_]*)");
                return Err(msg);
            }
        }

        if self.compare.is_some() && self.variable.is_none() {
            return Err("--compare requires a variable name".to_owned());
        }

        if self.find && self.variable.is_none() {
            return Err("--find requires a variable name".to_owned());
        }

        if self.function && self.check {
            return Err("--function cannot be used with --check".to_owned());
        }

        Ok(())
    }
}

/// Resolve a context named on the command line against the running platform.
pub open spec fn spec_context_from_arg(arg: ContextArg, platform: Platform) -> Context {
    match (arg, platform) {
        (ContextArg::Login, Platform::MacOS) => Context::MacInteractiveLogin,
        (ContextArg::Login, Platform::Linux) => Context::InteractiveLogin,
        (ContextArg::Interactive, Platform::MacOS) => Context::MacInteractiveNonLogin,
        (ContextArg::Interactive, Platform::Linux) => Context::InteractiveNonLogin,
        (ContextArg::Cron, _) => Context::NonInteractiveNonLogin,
        (ContextArg::Systemd, _) => Context::SystemdService,
        (ContextArg::Launchd, _) => Context::LaunchdAgent,
    }
}

/// Convert a command-line context argument to the engine's context.
pub fn context_from_arg(arg: ContextArg, platform: Platform) -> (r: Context)
    ensures
        r == spec_context_from_arg(arg, platform),
{
    match (arg, platform) {
        (ContextArg::Login, Platform::MacOS) => Context::MacInteractiveLogin,
        (ContextArg::Login, Platform::Linux) => Context::InteractiveLogin,
        (ContextArg::Interactive, Platform::MacOS) => Context::MacInteractiveNonLogin,
        (ContextArg::Interactive, Platform::Linux) => Context::InteractiveNonLogin,
        (ContextArg::Cron, _) => Context::NonInteractiveNonLogin,
        (ContextArg::Systemd, _) => Context::SystemdService,
        (ContextArg::Launchd, _) => Context::LaunchdAgent,
    }
}

/// Case-insensitive equality of `a` against a lower-case ASCII key `b`.
pub open spec fn ci_eq(a: Seq<char>, b: Seq<char>) -> bool {
    &&& a.len() == b.len()
    &&& forall|i: int|
        0 <= i < a.len() ==> (#[trigger] a[i] == b[i] || ('A' <= a[i] && a[i] <= 'Z' && (a[i]
            as u32) + 32 == (b[i] as u32)))
}

fn ci_eq_key(a: &Vec<char>, b: &str) -> (r: bool)
    ensures
        r == ci_eq(a@, b@),
{
    let bc = to_chars(b);
    if a.len() != bc.len() {
        return false;
    }
    let mut i: usize = 0;
    while i < a.len()
        invariant
            bc@ == b@,
            a@.len() == b@.len(),
            i <= a@.len(),
            forall|k: int|
                0 <= k < i ==> (#[trigger] a@[k] == b@[k] || ('A' <= a@[k] && a@[k] <= 'Z' && (
                a@[k] as u32) + 32 == (b@[k] as u32))),
        decreases a@.len() - i,
    {
        let ac = a[i];
        let bcc = bc[i];
        let same = ac == bcc || ('A' <= ac && ac <= 'Z' && (ac as u32) + 32 == (bcc as u32));
        if !same {
            return false;
        }
        i = i + 1;
    }
    true
}

/// The context a (case-insensitively compared) name denotes on a platform,
/// or `None` when the name is not recognised.
pub open spec fn spec_parse_context_name(name: Seq<char>, platform: Platform) -> Option<Context> {
    if ci_eq(name, "login"@) {
        Some(
            match platform {
                Platform::MacOS => Context::MacInteractiveLogin,
                Platform::Linux => Context::InteractiveLogin,
            },
        )
    } else if ci_eq(name, "interactive"@) {
        Some(
            match platform {
                Platform::MacOS => Context::MacInteractiveNonLogin,
                Platform::Linux => Context::InteractiveNonLogin,
            },
        )
    } else if ci_eq(name, "cron"@) {
        Some(Context::NonInteractiveNonLogin)
    } else if ci_eq(name, "systemd"@) {
        Some(Context::SystemdService)
    } else if ci_eq(name, "systemd-user"@) {
        Some(Context::SystemdUser)
    } else if ci_eq(name, "uwsm"@) {
        Some(Context::Uwsm)
    } else if ci_eq(name, "launchd"@) {
        Some(Context::LaunchdAgent)
    } else if ci_eq(name, "noninteractive"@) {
        Some(
            match platform {
                Platform::MacOS => Context::MacNonInteractive,
                Platform::Linux => Context::NonInteractiveNonLogin,
            },
        )
    } else {
        None
    }
}

/// Parse a context name string into a context.
pub fn parse_context_name(name: &str, platform: Platform) -> (r: Option<Context>)
    ensures
        r == spec_parse_context_name(name@, platform),
{
    let v = to_chars(name);
    if ci_eq_key(&v, "login") {
        Some(
            match platform {
                Platform::MacOS => Context::MacInteractiveLogin,
                Platform::Linux => Context::InteractiveLogin,
            },
        )
    } else if ci_eq_key(&v, "interactive") {
        Some(
            match platform {
                Platform::MacOS => Context::MacInteractiveNonLogin,
                Platform::Linux => Context::InteractiveNonLogin,
            },
        )
    } else if ci_eq_key(&v, "cron") {
        Some(Context::NonInteractiveNonLogin)
    } else if ci_eq_key(&v, "systemd") {
        Some(Context::SystemdService)
    } else if ci_eq_key(&v, "systemd-user") {
        Some(Context::SystemdUser)
    } else if ci_eq_key(&v, "uwsm") {
        Some(Context::Uwsm)
    } else if ci_eq_key(&v, "launchd") {
        Some(Context::LaunchdAgent)
    } else if ci_eq_key(&v, "noninteractive") {
        Some(
            match platform {
                Platform::MacOS => Context::MacNonInteractive,
                Platform::Linux => Context::NonInteractiveNonLogin,
            },
        )
    } else {
        None
    }
}

} // verus!
