//! Signal catalog: the standard signal identifiers, their numbers, and the
//! immutable table of default dispositions (see `man 7 signal`).

use vstd::prelude::*;

verus! {

/// The standard signals, numbered 1 through 31.
#[derive(Clone, Copy, Debug, PartialEq, Eq, Structural)]
pub enum Signal {
    /// Term    Hangup detected on controlling terminal
    SIGHUP,
    /// Term    Interrupt from keyboard
    SIGINT,
    /// Core    Quit from keyboard
    SIGQUIT,
    /// Core    Illegal instruction
    SIGILL,
    /// Core    Trace/breakpoint trap
    SIGTRAP,
    /// Core    Abort signal from abort(3)
    SIGABRT,
    /// Core    Bus error (bad memory access)
    SIGBUS,
    /// Core    Erroneous arithmetic operation
    SIGFPE,
    /// Term    Kill signal
    SIGKILL,
    /// Term    User-defined signal 1
    SIGUSR1,
    /// Core    Invalid memory reference
    SIGSEGV,
    /// Term    User-defined signal 2
    SIGUSR2,
    /// Term    Broken pipe
    SIGPIPE,
    /// Term    Timer signal from alarm(2)
    SIGALRM,
    /// Term    Termination signal
    SIGTERM,
    /// Term    Stack fault on coprocessor
    SIGSTKFLT,
    /// Ign     Child stopped or terminated
    SIGCHLD,
    /// Cont    Continue if stopped
    SIGCONT,
    /// Stop    Stop process
    SIGSTOP,
    /// Stop    Stop typed at terminal
    SIGTSTP,
    /// Stop    Terminal input for background process
    SIGTTIN,
    /// Stop    Terminal output for background process
    SIGTTOU,
    /// Ign     Urgent condition on socket
    SIGURG,
    /// Core    CPU time limit exceeded
    SIGXCPU,
    /// Core    File size limit exceeded
    SIGXFSZ,
    /// Term    Virtual alarm clock
    SIGVTALRM,
    /// Term    Profiling timer expired
    SIGPROF,
    /// Ign     Window resize signal
    SIGWINCH,
    /// Term    I/O now possible
    SIGIO,
    /// Term    Power failure
    SIGPWR,
    /// Core    Bad system call
    SIGSYS,
}

/// The number of a standard signal, in 1..=31.
pub open spec fn sig_num(s: Signal) -> u32 {
    match s {
        Signal::SIGHUP => 1,
        Signal::SIGINT => 2,
        Signal::SIGQUIT => 3,
        Signal::SIGILL => 4,
        Signal::SIGTRAP => 5,
        Signal::SIGABRT => 6,
        Signal::SIGBUS => 7,
        Signal::SIGFPE => 8,
        Signal::SIGKILL => 9,
        Signal::SIGUSR1 => 10,
        Signal::SIGSEGV => 11,
        Signal::SIGUSR2 => 12,
        Signal::SIGPIPE => 13,
        Signal::SIGALRM => 14,
        Signal::SIGTERM => 15,
        Signal::SIGSTKFLT => 16,
        Signal::SIGCHLD => 17,
        Signal::SIGCONT => 18,
        Signal::SIGSTOP => 19,
        Signal::SIGTSTP => 20,
        Signal::SIGTTIN => 21,
        Signal::SIGTTOU => 22,
        Signal::SIGURG => 23,
        Signal::SIGXCPU => 24,
        Signal::SIGXFSZ => 25,
        Signal::SIGVTALRM => 26,
        Signal::SIGPROF => 27,
        Signal::SIGWINCH => 28,
        Signal::SIGIO => 29,
        Signal::SIGPWR => 30,
        Signal::SIGSYS => 31,
    }
}

/// First real-time signal number. Real-time signals are declared only as a
/// numeric range; they are not modelled further here.
pub const SIGRTMIN: u32 = 32;

/// Last real-time signal number.
pub const SIGRTMAX: u32 = 63;

/// A raw signal number names a standard signal exactly when it lies in 1..=31.
/// `0` is reserved as an existence probe and never names a signal.
pub open spec fn valid_signal(sig: u32) -> bool {
    1 <= sig <= 31
}

/// The signal named by a valid signal number; the inverse of `sig_num`.
pub open spec fn signal_of(sig: u32) -> Signal {
    if sig == 1 {
        Signal::SIGHUP
    } else if sig == 2 {
        Signal::SIGINT
    } else if sig == 3 {
        Signal::SIGQUIT
    } else if sig == 4 {
        Signal::SIGILL
    } else if sig == 5 {
        Signal::SIGTRAP
    } else if sig == 6 {
        Signal::SIGABRT
    } else if sig == 7 {
        Signal::SIGBUS
    } else if sig == 8 {
        Signal::SIGFPE
    } else if sig == 9 {
        Signal::SIGKILL
    } else if sig == 10 {
        Signal::SIGUSR1
    } else if sig == 11 {
        Signal::SIGSEGV
    } else if sig == 12 {
        Signal::SIGUSR2
    } else if sig == 13 {
        Signal::SIGPIPE
    } else if sig == 14 {
        Signal::SIGALRM
    } else if sig == 15 {
        Signal::SIGTERM
    } else if sig == 16 {
        Signal::SIGSTKFLT
    } else if sig == 17 {
        Signal::SIGCHLD
    } else if sig == 18 {
        Signal::SIGCONT
    } else if sig == 19 {
        Signal::SIGSTOP
    } else if sig == 20 {
        Signal::SIGTSTP
    } else if sig == 21 {
        Signal::SIGTTIN
    } else if sig == 22 {
        Signal::SIGTTOU
    } else if sig == 23 {
        Signal::SIGURG
    } else if sig == 24 {
        Signal::SIGXCPU
    } else if sig == 25 {
        Signal::SIGXFSZ
    } else if sig == 26 {
        Signal::SIGVTALRM
    } else if sig == 27 {
        Signal::SIGPROF
    } else if sig == 28 {
        Signal::SIGWINCH
    } else if sig == 29 {
        Signal::SIGIO
    } else if sig == 30 {
        Signal::SIGPWR
    } else {
        Signal::SIGSYS
    }
}

impl Signal {
    /// Decode a raw signal number; succeeds exactly for 1..=31.
    pub fn from_u32(sig: u32) -> (r: Option<Signal>)
        ensures
            r is Some <==> valid_signal(sig),
            r matches Some(s) ==> sig_num(s) == sig && s == signal_of(sig),
    {
        match sig {
            1 => Some(Signal::SIGHUP),
            2 => Some(Signal::SIGINT),
            3 => Some(Signal::SIGQUIT),
            4 => Some(Signal::SIGILL),
            5 => Some(Signal::SIGTRAP),
            6 => Some(Signal::SIGABRT),
            7 => Some(Signal::SIGBUS),
            8 => Some(Signal::SIGFPE),
            9 => Some(Signal::SIGKILL),
            10 => Some(Signal::SIGUSR1),
            11 => Some(Signal::SIGSEGV),
            12 => Some(Signal::SIGUSR2),
            13 => Some(Signal::SIGPIPE),
            14 => Some(Signal::SIGALRM),
            15 => Some(Signal::SIGTERM),
            16 => Some(Signal::SIGSTKFLT),
            17 => Some(Signal::SIGCHLD),
            18 => Some(Signal::SIGCONT),
            19 => Some(Signal::SIGSTOP),
            20 => Some(Signal::SIGTSTP),
            21 => Some(Signal::SIGTTIN),
            22 => Some(Signal::SIGTTOU),
            23 => Some(Signal::SIGURG),
            24 => Some(Signal::SIGXCPU),
            25 => Some(Signal::SIGXFSZ),
            26 => Some(Signal::SIGVTALRM),
            27 => Some(Signal::SIGPROF),
            28 => Some(Signal::SIGWINCH),
            29 => Some(Signal::SIGIO),
            30 => Some(Signal::SIGPWR),
            31 => Some(Signal::SIGSYS),
            _ => None,
        }
    }

    /// The number of this signal.
    pub fn signo(self) -> (r: u32)
        ensures
            r == sig_num(self),
            1 <= r <= 31,
    {
        match self {
            Signal::SIGHUP => 1,
            Signal::SIGINT => 2,
            Signal::SIGQUIT => 3,
            Signal::SIGILL => 4,
            Signal::SIGTRAP => 5,
            Signal::SIGABRT => 6,
            Signal::SIGBUS => 7,
            Signal::SIGFPE => 8,
            Signal::SIGKILL => 9,
            Signal::SIGUSR1 => 10,
            Signal::SIGSEGV => 11,
            Signal::SIGUSR2 => 12,
            Signal::SIGPIPE => 13,
            Signal::SIGALRM => 14,
            Signal::SIGTERM => 15,
            Signal::SIGSTKFLT => 16,
            Signal::SIGCHLD => 17,
            Signal::SIGCONT => 18,
            Signal::SIGSTOP => 19,
            Signal::SIGTSTP => 20,
            Signal::SIGTTIN => 21,
            Signal::SIGTTOU => 22,
            Signal::SIGURG => 23,
            Signal::SIGXCPU => 24,
            Signal::SIGXFSZ => 25,
            Signal::SIGVTALRM => 26,
            Signal::SIGPROF => 27,
            Signal::SIGWINCH => 28,
            Signal::SIGIO => 29,
            Signal::SIGPWR => 30,
            Signal::SIGSYS => 31,
        }
    }
}

/// How a delivered signal is acted upon. `Default` defers to the immutable
/// default table for the signal's number; the other variants are explicit
/// overrides.
#[derive(Clone, Copy, Debug, PartialEq, Eq, Structural)]
pub enum SigDisposition {
    Default,
    Ignore,
    CoreDump,
    Terminate,
    Stop,
    Continue,
}

impl Default for SigDisposition {
    /// A freshly created action table holds `Default` for every signal.
    fn default() -> (r: Self)
        ensures
            r == SigDisposition::Default,
    {
        SigDisposition::Default
    }
}

/// The historical Unix default disposition for each standard signal. Never
/// `Default` itself: resolving `Default` against this table must terminate.
pub open spec fn spec_default_action(signo: int) -> SigDisposition {
    if signo == 1 || signo == 2 || signo == 9 || signo == 10 || signo == 12 || signo == 13
        || signo == 14 || signo == 15 || signo == 16 || signo == 26 || signo == 27
        || signo == 29 || signo == 30 {
        SigDisposition::Terminate
    } else if signo == 3 || signo == 4 || signo == 5 || signo == 6 || signo == 7 || signo == 8
        || signo == 11 || signo == 24 || signo == 25 || signo == 31 {
        SigDisposition::CoreDump
    } else if signo == 19 || signo == 20 || signo == 21 || signo == 22 {
        SigDisposition::Stop
    } else if signo == 18 {
        SigDisposition::Continue
    } else {
        SigDisposition::Ignore
    }
}

/// Look up the default disposition for a validated signal number. The result
/// is never `Default`: a `Default` entry in the default table would be an
/// internal consistency violation.
pub fn default_action(signo: u32) -> (r: SigDisposition)
    requires
        valid_signal(signo),
    ensures
        r == spec_default_action(signo as int),
        !(r is Default),
{
    match signo {
        1 | 2 | 9 | 10 | 12 | 13 | 14 | 15 | 16 | 26 | 27 | 29 | 30 => SigDisposition::Terminate,
        3 | 4 | 5 | 6 | 7 | 8 | 11 | 24 | 25 | 31 => SigDisposition::CoreDump,
        19 | 20 | 21 | 22 => SigDisposition::Stop,
        18 => SigDisposition::Continue,
        _ => SigDisposition::Ignore,
    }
}

} // verus!
