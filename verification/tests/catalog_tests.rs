use starry_signal::SigDisposition;
use starry_signal::Signal;
use starry_signal::SignalAction;
use starry_signal::SignalOSAction;
use starry_signal::action::handle_signal;
use starry_signal::catalog::default_action;

#[test]
fn from_u32_rejects_zero_and_out_of_range() {
    assert_eq!(Signal::from_u32(0), None);
    assert_eq!(Signal::from_u32(32), None);
    assert_eq!(Signal::from_u32(100), None);
    assert_eq!(Signal::from_u32(u32::MAX), None);
}

#[test]
fn from_u32_covers_standard_range() {
    for n in 1..=31u32 {
        let s = Signal::from_u32(n).expect("standard signal");
        assert_eq!(s.signo(), n);
    }
    assert_eq!(Signal::from_u32(1), Some(Signal::SIGHUP));
    assert_eq!(Signal::from_u32(9), Some(Signal::SIGKILL));
    assert_eq!(Signal::from_u32(15), Some(Signal::SIGTERM));
    assert_eq!(Signal::from_u32(31), Some(Signal::SIGSYS));
}

#[test]
fn default_table_matches_unix_convention() {
    assert_eq!(default_action(9), SigDisposition::Terminate); // SIGKILL
    assert_eq!(default_action(15), SigDisposition::Terminate); // SIGTERM
    assert_eq!(default_action(11), SigDisposition::CoreDump); // SIGSEGV
    assert_eq!(default_action(6), SigDisposition::CoreDump); // SIGABRT
    assert_eq!(default_action(17), SigDisposition::Ignore); // SIGCHLD
    assert_eq!(default_action(23), SigDisposition::Ignore); // SIGURG
    assert_eq!(default_action(28), SigDisposition::Ignore); // SIGWINCH
    assert_eq!(default_action(19), SigDisposition::Stop); // SIGSTOP
    assert_eq!(default_action(20), SigDisposition::Stop); // SIGTSTP
    assert_eq!(default_action(21), SigDisposition::Stop); // SIGTTIN
    assert_eq!(default_action(22), SigDisposition::Stop); // SIGTTOU
    assert_eq!(default_action(18), SigDisposition::Continue); // SIGCONT
}

#[test]
fn default_table_never_holds_default() {
    for n in 1..=31u32 {
        assert_ne!(default_action(n), SigDisposition::Default);
    }
}

#[test]
fn handle_signal_resolves_default_through_table() {
    let act = SignalAction { disposition: SigDisposition::Default };
    assert_eq!(handle_signal(&act, 9), Some(SignalOSAction::Terminate));
    assert_eq!(handle_signal(&act, 11), Some(SignalOSAction::CoreDump));
    assert_eq!(handle_signal(&act, 19), Some(SignalOSAction::Stop));
    assert_eq!(handle_signal(&act, 18), Some(SignalOSAction::Continue));
    assert_eq!(handle_signal(&act, 17), None);
}

#[test]
fn handle_signal_explicit_overrides_win() {
    let ignore = SignalAction { disposition: SigDisposition::Ignore };
    assert_eq!(handle_signal(&ignore, 9), None);
    let term = SignalAction { disposition: SigDisposition::Terminate };
    assert_eq!(handle_signal(&term, 17), Some(SignalOSAction::Terminate));
    let core = SignalAction { disposition: SigDisposition::CoreDump };
    assert_eq!(handle_signal(&core, 10), Some(SignalOSAction::CoreDump));
    let stop = SignalAction { disposition: SigDisposition::Stop };
    assert_eq!(handle_signal(&stop, 10), Some(SignalOSAction::Stop));
    let cont = SignalAction { disposition: SigDisposition::Continue };
    assert_eq!(handle_signal(&cont, 10), Some(SignalOSAction::Continue));
}

#[test]
fn real_time_signals_are_a_declared_range() {
    assert_eq!(starry_signal::catalog::SIGRTMIN, 32);
    assert_eq!(starry_signal::catalog::SIGRTMAX, 63);
    // the standard decoder does not cover them
    assert_eq!(Signal::from_u32(starry_signal::catalog::SIGRTMIN), None);
}

#[test]
fn action_defaults_to_default_disposition() {
    let a = SignalAction::default();
    assert_eq!(a.disposition, SigDisposition::Default);
    assert_eq!(SigDisposition::default(), SigDisposition::Default);
}
