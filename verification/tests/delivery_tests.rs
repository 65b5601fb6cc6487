use starry_signal::SigDisposition;
use starry_signal::SigMask;
use starry_signal::Signal;
use starry_signal::SignalAction;
use starry_signal::SignalOSAction;
use starry_signal::registry::Registry;
use starry_signal::store::MaskHow;

#[test]
fn empty_queue_delivers_nothing() {
    let mut r = Registry::new();
    assert!(r.add_process(10));
    assert!(r.add_thread(1, 10));
    assert_eq!(r.check_signals(1), None);
    assert_eq!(r.check_signals(99), None);
}

#[test]
fn fifo_delivery_order() {
    // raise A then B at the same unblocked thread: the next two delivery
    // invocations act on A, then on B (dispositions chosen not to unwind
    // the thread)
    let mut r = Registry::new();
    assert!(r.add_process(10));
    assert!(r.add_thread(1, 10));
    assert_eq!(r.send_signal_thread(1, 21), Ok(())); // SIGTTIN: default Stop
    assert_eq!(r.send_signal_thread(1, 18), Ok(())); // SIGCONT: default Continue
    assert_eq!(r.check_signals(1), Some((Signal::SIGTTIN, SignalOSAction::Stop)));
    assert!(r.procs[0].stopped);
    assert_eq!(r.check_signals(1), Some((Signal::SIGCONT, SignalOSAction::Continue)));
    assert!(!r.procs[0].stopped);
    assert_eq!(r.check_signals(1), None);
}

#[test]
fn blocked_signal_is_skipped_not_discarded() {
    // raise S at a thread that blocks S; delivery skips it in place; after
    // unblocking, delivery still delivers S
    let mut r = Registry::new();
    assert!(r.add_process(10));
    assert!(r.add_thread(1, 10));
    let term = SigMask::empty().plus_signal(15);
    assert!(r.sigprocmask(1, MaskHow::Block, term).is_ok());
    assert_eq!(r.send_signal_thread(1, 15), Ok(()));
    assert_eq!(r.check_signals(1), None);
    assert_eq!(r.threads[0].pending.len(), 1);
    assert!(r.sigprocmask(1, MaskHow::Unblock, term).is_ok());
    assert_eq!(r.check_signals(1), Some((Signal::SIGTERM, SignalOSAction::Terminate)));
    assert_eq!(r.threads[0].pending.len(), 0);
    assert!(!r.threads[0].alive);
    assert_eq!(r.threads[0].exit_code, 128 + 15);
}

#[test]
fn blocked_entry_is_passed_over_for_a_later_deliverable_one() {
    // the scan must advance past a blocked front entry instead of stalling
    let mut r = Registry::new();
    assert!(r.add_process(10));
    assert!(r.add_thread(1, 10));
    let usr1 = SigMask::empty().plus_signal(10);
    assert!(r.sigprocmask(1, MaskHow::Block, usr1).is_ok());
    assert_eq!(r.send_signal_thread(1, 10), Ok(())); // blocked head
    assert_eq!(r.send_signal_thread(1, 21), Ok(())); // deliverable behind it
    assert_eq!(r.check_signals(1), Some((Signal::SIGTTIN, SignalOSAction::Stop)));
    // the blocked entry is still queued, in place
    assert_eq!(r.threads[0].pending.len(), 1);
    assert_eq!(r.threads[0].pending[0], Signal::SIGUSR1);
}

#[test]
fn ignored_signals_are_consumed_silently() {
    let mut r = Registry::new();
    assert!(r.add_process(10));
    assert!(r.add_thread(1, 10));
    assert_eq!(r.send_signal_thread(1, 17), Ok(())); // SIGCHLD: default Ignore
    assert_eq!(r.send_signal_thread(1, 28), Ok(())); // SIGWINCH: default Ignore
    assert_eq!(r.check_signals(1), None);
    assert_eq!(r.threads[0].pending.len(), 0);
    assert!(r.threads[0].alive);
}

#[test]
fn ignore_then_deliverable_in_one_pass() {
    let mut r = Registry::new();
    assert!(r.add_process(10));
    assert!(r.add_thread(1, 10));
    assert_eq!(r.send_signal_thread(1, 17), Ok(())); // consumed silently
    assert_eq!(r.send_signal_thread(1, 19), Ok(())); // SIGSTOP
    assert_eq!(r.check_signals(1), Some((Signal::SIGSTOP, SignalOSAction::Stop)));
    assert_eq!(r.threads[0].pending.len(), 0);
}

#[test]
fn configured_ignore_overrides_terminating_default() {
    let mut r = Registry::new();
    assert!(r.add_process(10));
    assert!(r.add_thread(1, 10));
    let ignore = SignalAction { disposition: SigDisposition::Ignore };
    let prior = r.sigaction(10, 15, ignore).expect("known pid, valid signal");
    assert_eq!(prior.disposition, SigDisposition::Default);
    assert_eq!(r.send_signal_thread(1, 15), Ok(()));
    assert_eq!(r.check_signals(1), None);
    assert!(r.threads[0].alive);
    // restoring the default brings termination back
    let prior2 = r.sigaction(10, 15, SignalAction::default()).expect("known pid");
    assert_eq!(prior2.disposition, SigDisposition::Ignore);
    assert_eq!(r.send_signal_thread(1, 15), Ok(()));
    assert_eq!(r.check_signals(1), Some((Signal::SIGTERM, SignalOSAction::Terminate)));
    assert!(!r.threads[0].alive);
}

#[test]
fn delivery_on_dead_thread_does_nothing() {
    let mut r = Registry::new();
    assert!(r.add_process(10));
    assert!(r.add_thread(1, 10));
    assert_eq!(r.send_signal_thread(1, 9), Ok(()));
    assert_eq!(r.check_signals(1), Some((Signal::SIGKILL, SignalOSAction::Terminate)));
    assert!(!r.threads[0].alive);
    assert_eq!(r.send_signal_thread(1, 15), Ok(()));
    assert_eq!(r.check_signals(1), None);
    assert_eq!(r.threads[0].pending.len(), 1);
}

#[test]
fn coredump_class_signal_terminates_with_its_code() {
    let mut r = Registry::new();
    assert!(r.add_process(10));
    assert!(r.add_thread(1, 10));
    assert_eq!(r.send_signal_thread(1, 11), Ok(())); // SIGSEGV
    assert_eq!(r.check_signals(1), Some((Signal::SIGSEGV, SignalOSAction::CoreDump)));
    assert!(!r.threads[0].alive);
    assert_eq!(r.threads[0].exit_code, 128 + 11);
}
