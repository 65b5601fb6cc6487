//! Per-signal configured actions and their resolution against the default
//! table: given a process's configured `SignalAction` for a signal number,
//! decide what the delivery machine must do.

use vstd::prelude::*;
use crate::catalog::SigDisposition;
use crate::catalog::default_action;
use crate::catalog::spec_default_action;
use crate::catalog::valid_signal;
use crate::mask::SigMask;

verus! {

/// The per-(process, signal-number) configuration. Today only a disposition;
/// handler address, flags and an entry mask are future fields.
#[derive(Clone, Copy, Debug, PartialEq, Eq, Structural)]
pub struct SignalAction {
    pub disposition: SigDisposition,
}

impl Default for SignalAction {
    /// Process creation initializes every table entry to the default
    /// disposition.
    fn default() -> (r: Self)
        ensures
            r == (SignalAction { disposition: SigDisposition::Default }),
    {
        SignalAction { disposition: SigDisposition::Default }
    }
}

/// What the delivery machine does for one resolved signal: dump core,
/// terminate the process group, stop or continue the process, or invoke a
/// user handler with `add_blocked` unioned into the blocked mask while the
/// handler runs.
#[derive(Clone, Copy, Debug, PartialEq, Eq, Structural)]
pub enum SignalOSAction {
    CoreDump,
    Terminate,
    Stop,
    Continue,
    Handler { add_blocked: SigMask },
}

/// Map a non-`Default` disposition to the action it causes; `Ignore` causes
/// none.
pub open spec fn spec_os_action(d: SigDisposition) -> Option<SignalOSAction> {
    match d {
        SigDisposition::Default => None,
        SigDisposition::Ignore => None,
        SigDisposition::CoreDump => Some(SignalOSAction::CoreDump),
        SigDisposition::Terminate => Some(SignalOSAction::Terminate),
        SigDisposition::Stop => Some(SignalOSAction::Stop),
        SigDisposition::Continue => Some(SignalOSAction::Continue),
    }
}

/// Resolve a configured disposition for signal number `signo`: `Default`
/// defers to the immutable default table, anything else stands on its own.
pub open spec fn spec_resolve(d: SigDisposition, signo: int) -> Option<SignalOSAction> {
    if d is Default {
        spec_os_action(spec_default_action(signo))
    } else {
        spec_os_action(d)
    }
}

/// Resolve the action configured for signal number `signo`. `None` means the
/// signal is consumed silently. The default table never holds `Default`
/// (checked at `default_action`), so resolution always terminates.
pub fn handle_signal(on_action: &SignalAction, signo: u32) -> (r: Option<SignalOSAction>)
    requires
        valid_signal(signo),
    ensures
        r == spec_resolve(on_action.disposition, signo as int),
{
    match on_action.disposition {
        SigDisposition::Default => match default_action(signo) {
            SigDisposition::Ignore => None,
            SigDisposition::Default => {
                // An internal consistency violation, proved impossible.
                proof {
                    assert(false);
                }
                None
            },
            SigDisposition::Stop => Some(SignalOSAction::Stop),
            SigDisposition::Continue => Some(SignalOSAction::Continue),
            SigDisposition::Terminate => Some(SignalOSAction::Terminate),
            SigDisposition::CoreDump => Some(SignalOSAction::CoreDump),
        },
        SigDisposition::CoreDump => Some(SignalOSAction::CoreDump),
        SigDisposition::Terminate => Some(SignalOSAction::Terminate),
        SigDisposition::Stop => Some(SignalOSAction::Stop),
        SigDisposition::Continue => Some(SignalOSAction::Continue),
        SigDisposition::Ignore => None,
    }
}

} // verus!
