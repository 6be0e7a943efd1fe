//! What the idle manager asks the daemon to do.

use vstd::prelude::*;

verus! {

#[derive(Debug, Clone, PartialEq, Eq)]
pub enum Action {
    /// Run a command (shell string). Whether detached or blocking is runtime
    /// policy.
    RunCommand { command: String },
    /// Run a resume command (e.g. dpms on) when activity returns.
    RunResumeCommand { command: String },
    /// Notify the user. The runtime decides how.
    Notify { message: String, icon: Option<String> },
    /// Run the locker command, blocking. The lock has ended once the process
    /// exits.
    RunLockScreen { command: String },
    /// Request system suspend. The runtime decides how.
    Suspend,
    /// Apply conservative hardware power-saving after a snapshot of the current
    /// settings.
    EnterLowPower,
    /// Restore the settings of the snapshot that the prior `EnterLowPower` took.
    ExitLowPower,
}

} // verus!
