//! Data model for variable traces: the operations a startup file can perform
//! on a variable, one recorded change, the whole trace, and the startup
//! context that selects which files are consulted.

use vstd::prelude::*;

use crate::platform::Platform;

verus! {

/// The kind of operation one line performs on a variable.
#[derive(Clone, Copy, Debug, PartialEq, Eq, Structural)]
pub enum Operation {
    /// `VAR=value` (not exported)
    Assign,
    /// `export VAR=value`, or `export VAR` alone
    Export,
    /// `VAR="$VAR:new"`
    Append,
    /// `VAR="new:$VAR"`
    Prepend,
    /// `unset VAR`
    Unset,
    /// `[ test ] && export VAR=value`
    Conditional,
}

/// Mathematical model of a [`VariableChange`].
#[verifier::ext_equal]
pub ghost struct ChangeModel {
    pub file: Seq<char>,
    pub line_number: int,
    pub line_content: Seq<char>,
    pub operation: Operation,
    pub value_before: Option<Seq<char>>,
    pub value_after: Seq<char>,
}

/// One recorded modification of a variable.
#[derive(Debug)]
pub struct VariableChange {
    pub file: String,
    /// 1-based line index; 0 where the source format has no line concept.
    pub line_number: usize,
    pub line_content: String,
    pub operation: Operation,
    pub value_before: Option<String>,
    pub value_after: String,
}

impl View for VariableChange {
    type V = ChangeModel;

    open spec fn view(&self) -> ChangeModel {
        ChangeModel {
            file: self.file@,
            line_number: self.line_number as int,
            line_content: self.line_content@,
            operation: self.operation,
            value_before: match self.value_before {
                Some(s) => Some(s@),
                None => None,
            },
            value_after: self.value_after@,
        }
    }
}

impl DeepView for VariableChange {
    type V = ChangeModel;

    open spec fn deep_view(&self) -> ChangeModel {
        self.view()
    }
}

/// The value the running state holds after a change has been applied:
/// an unset clears it, every other operation leaves the recorded value.
pub open spec fn value_after_change(c: ChangeModel) -> Option<Seq<char>> {
    if c.operation == Operation::Unset {
        None
    } else {
        Some(c.value_after)
    }
}

/// The changes form an unbroken chain: the first starts from `None`, and
/// each later change starts from the value the previous one left behind.
pub open spec fn chained(changes: Seq<ChangeModel>) -> bool {
    &&& (changes.len() > 0 ==> changes[0].value_before is None)
    &&& (forall|i: int|
        1 <= i < changes.len() ==> changes[i].value_before == value_after_change(
            #[trigger] changes[i - 1],
        ))
}

/// The full trace of a variable through one startup context.
#[derive(Debug)]
pub struct VariableTrace {
    pub name: String,
    pub final_value: Option<String>,
    pub changes: Vec<VariableChange>,
    pub context: Context,
}

/// A named startup scenario; it decides which files are consulted, in which
/// order.
#[derive(Clone, Copy, Debug, PartialEq, Eq, Structural)]
pub enum Context {
    /// Linux interactive login shell (SSH, console login)
    InteractiveLogin,
    /// Linux interactive non-login shell (new terminal window)
    InteractiveNonLogin,
    /// Linux non-interactive login shell (rare)
    NonInteractiveLogin,
    /// Linux non-interactive non-login shell (cron, scripts)
    NonInteractiveNonLogin,
    /// Systemd system service
    SystemdService,
    /// Systemd user service
    SystemdUser,
    /// UWSM Wayland compositor session
    Uwsm,
    /// macOS interactive login shell (zsh default)
    MacInteractiveLogin,
    /// macOS interactive non-login shell (new terminal tab)
    MacInteractiveNonLogin,
    /// macOS non-interactive shell (scripts)
    MacNonInteractive,
    /// macOS launchd agent (GUI apps, user services)
    LaunchdAgent,
    /// macOS launchd daemon (system services)
    LaunchdDaemon,
}

impl Context {
    /// Whether this is a macOS-specific context.
    pub open spec fn spec_is_macos(&self) -> bool {
        match *self {
            Context::MacInteractiveLogin
            | Context::MacInteractiveNonLogin
            | Context::MacNonInteractive
            | Context::LaunchdAgent
            | Context::LaunchdDaemon => true,
            _ => false,
        }
    }

    /// Returns true if this is a macOS-specific context.
    pub fn is_macos(&self) -> (r: bool)
        ensures
            r == self.spec_is_macos(),
    {
        match *self {
            Context::MacInteractiveLogin
            | Context::MacInteractiveNonLogin
            | Context::MacNonInteractive
            | Context::LaunchdAgent
            | Context::LaunchdDaemon => true,
            _ => false,
        }
    }

    /// Returns true if this is a Linux-specific context.
    pub fn is_linux(&self) -> (r: bool)
        ensures
            r == !self.spec_is_macos(),
    {
        !self.is_macos()
    }

    /// The human-readable label of the context.
    pub open spec fn spec_description(&self) -> Seq<char> {
        match *self {
            Context::InteractiveLogin => "interactive login shell"@,
            Context::InteractiveNonLogin => "interactive non-login shell"@,
            Context::NonInteractiveLogin => "non-interactive login shell"@,
            Context::NonInteractiveNonLogin => "non-interactive shell (cron, scripts)"@,
            Context::SystemdService => "systemd system service"@,
            Context::SystemdUser => "systemd user service"@,
            Context::Uwsm => "UWSM Wayland session"@,
            Context::MacInteractiveLogin => "zsh interactive login shell"@,
            Context::MacInteractiveNonLogin => "zsh interactive non-login shell"@,
            Context::MacNonInteractive => "zsh non-interactive shell"@,
            Context::LaunchdAgent => "launchd agent (GUI apps)"@,
            Context::LaunchdDaemon => "launchd daemon (system service)"@,
        }
    }

    /// Returns a human-readable description of the context.
    pub fn description(&self) -> (r: &'static str)
        ensures
            r@ == self.spec_description(),
    {
        match *self {
            Context::InteractiveLogin => "interactive login shell",
            Context::InteractiveNonLogin => "interactive non-login shell",
            Context::NonInteractiveLogin => "non-interactive login shell",
            Context::NonInteractiveNonLogin => "non-interactive shell (cron, scripts)",
            Context::SystemdService => "systemd system service",
            Context::SystemdUser => "systemd user service",
            Context::Uwsm => "UWSM Wayland session",
            Context::MacInteractiveLogin => "zsh interactive login shell",
            Context::MacInteractiveNonLogin => "zsh interactive non-login shell",
            Context::MacNonInteractive => "zsh non-interactive shell",
            Context::LaunchdAgent => "launchd agent (GUI apps)",
            Context::LaunchdDaemon => "launchd daemon (system service)",
        }
    }

    /// The default context of a platform: its interactive login shell.
    pub fn default_for_platform(platform: Platform) -> (r: Context)
        ensures
            r == (match platform {
                Platform::MacOS => Context::MacInteractiveLogin,
                Platform::Linux => Context::InteractiveLogin,
            }),
    {
        match platform {
            Platform::MacOS => Context::MacInteractiveLogin,
            Platform::Linux => Context::InteractiveLogin,
        }
    }
}

} // verus!
