use starry_signal::SigMask;
use starry_signal::Signal;
use starry_signal::registry::Registry;
use starry_signal::registry::SigError;
use starry_signal::store::MaskHow;

#[test]
fn probe_signal_zero_succeeds_without_enqueue() {
    let mut r = Registry::new();
    assert!(r.add_process(10));
    assert!(r.add_thread(11, 10));
    assert_eq!(r.send_signal_proc(10, 0), Ok(()));
    assert_eq!(r.send_signal_thread(11, 0), Ok(()));
    assert_eq!(r.threads[0].pending.len(), 0);
    assert_eq!(r.procs[0].shared_pending.len(), 0);
}

#[test]
fn out_of_range_signal_fails_einval_and_changes_nothing() {
    let mut r = Registry::new();
    assert!(r.add_process(10));
    assert!(r.add_thread(11, 10));
    assert_eq!(r.send_signal_proc(10, 32), Err(SigError::InvalidSignal));
    assert_eq!(r.send_signal_proc(10, 64), Err(SigError::InvalidSignal));
    assert_eq!(r.send_signal_thread(11, 32), Err(SigError::InvalidSignal));
    assert_eq!(r.send_signal_thread(11, u32::MAX), Err(SigError::InvalidSignal));
    assert_eq!(r.threads[0].pending.len(), 0);
    assert_eq!(r.procs[0].shared_pending.len(), 0);
}

#[test]
fn unknown_target_fails_esrch_and_enqueues_nothing() {
    let mut r = Registry::new();
    assert!(r.add_process(10));
    assert!(r.add_thread(11, 10));
    assert_eq!(r.send_signal_proc(99, 9), Err(SigError::NoSuchTarget));
    assert_eq!(r.send_signal_thread(99, 9), Err(SigError::NoSuchTarget));
    // even the probe needs a live target
    assert_eq!(r.send_signal_proc(99, 0), Err(SigError::NoSuchTarget));
    assert_eq!(r.threads[0].pending.len(), 0);
    assert_eq!(r.procs[0].shared_pending.len(), 0);
}

#[test]
fn errno_mapping_follows_posix() {
    assert_eq!(SigError::NoSuchTarget.as_errno(), 3);
    assert_eq!(SigError::InvalidSignal.as_errno(), 22);
}

#[test]
fn process_raise_picks_first_unblocked_thread() {
    // two threads: T1 blocks SIGUSR1, T2 blocks nothing; the raise lands in
    // T2's queue, not T1's, not the shared queue
    let mut r = Registry::new();
    assert!(r.add_process(10));
    assert!(r.add_thread(1, 10));
    assert!(r.add_thread(2, 10));
    let usr1 = SigMask::empty().plus_signal(10);
    assert!(r.sigprocmask(1, MaskHow::Block, usr1).is_ok());
    assert_eq!(r.send_signal_proc(10, 10), Ok(()));
    assert_eq!(r.threads[0].pending.len(), 0);
    assert_eq!(r.threads[1].pending.len(), 1);
    assert_eq!(r.threads[1].pending[0], Signal::SIGUSR1);
    assert_eq!(r.procs[0].shared_pending.len(), 0);
}

#[test]
fn process_raise_falls_back_to_shared_queue() {
    // every thread blocks SIGTERM: the raise lands in the shared queue
    let mut r = Registry::new();
    assert!(r.add_process(10));
    assert!(r.add_thread(1, 10));
    assert!(r.add_thread(2, 10));
    let term = SigMask::empty().plus_signal(15);
    assert!(r.sigprocmask(1, MaskHow::Block, term).is_ok());
    assert!(r.sigprocmask(2, MaskHow::Block, term).is_ok());
    assert_eq!(r.send_signal_proc(10, 15), Ok(()));
    assert_eq!(r.threads[0].pending.len(), 0);
    assert_eq!(r.threads[1].pending.len(), 0);
    assert_eq!(r.procs[0].shared_pending.len(), 1);
    assert_eq!(r.procs[0].shared_pending[0], Signal::SIGTERM);
}

#[test]
fn process_raise_with_no_threads_goes_to_shared_queue() {
    let mut r = Registry::new();
    assert!(r.add_process(10));
    assert_eq!(r.send_signal_proc(10, 9), Ok(()));
    assert_eq!(r.procs[0].shared_pending.len(), 1);
    assert_eq!(r.procs[0].shared_pending[0], Signal::SIGKILL);
}

#[test]
fn thread_raise_enqueues_even_when_blocked() {
    // blocking defers delivery; it must not drop or reject the raise
    let mut r = Registry::new();
    assert!(r.add_process(10));
    assert!(r.add_thread(1, 10));
    let term = SigMask::empty().plus_signal(15);
    assert!(r.sigprocmask(1, MaskHow::Block, term).is_ok());
    assert_eq!(r.send_signal_thread(1, 15), Ok(()));
    assert_eq!(r.threads[0].pending.len(), 1);
    assert_eq!(r.threads[0].pending[0], Signal::SIGTERM);
}

#[test]
fn masked_raise_does_not_duplicate_or_lose_queued_signal() {
    // a queued blocked signal stays queued exactly once across another
    // process-directed raise of the same signal
    let mut r = Registry::new();
    assert!(r.add_process(10));
    assert!(r.add_thread(1, 10));
    let usr1 = SigMask::empty().plus_signal(10);
    assert!(r.sigprocmask(1, MaskHow::Block, usr1).is_ok());
    assert_eq!(r.send_signal_thread(1, 10), Ok(()));
    assert_eq!(r.threads[0].pending.len(), 1);
    // the only thread blocks it: the raise goes to the shared queue and the
    // thread's own queue keeps exactly one copy
    assert_eq!(r.send_signal_proc(10, 10), Ok(()));
    assert_eq!(r.threads[0].pending.len(), 1);
    assert_eq!(r.threads[0].pending[0], Signal::SIGUSR1);
    assert_eq!(r.procs[0].shared_pending.len(), 1);
    // a thread-directed re-raise succeeds and merges with the queued copy
    assert_eq!(r.send_signal_thread(1, 10), Ok(()));
    assert_eq!(r.threads[0].pending.len(), 1);
    assert_eq!(r.threads[0].pending[0], Signal::SIGUSR1);
    // delivery while still blocked keeps it in place, too
    assert_eq!(r.check_signals(1), None);
    assert_eq!(r.threads[0].pending.len(), 1);
    assert_eq!(r.threads[0].pending[0], Signal::SIGUSR1);
}

#[test]
fn thread_raise_merges_already_pending_signal() {
    // standard signals are not counted: raising one that is already
    // pending succeeds without a second copy; a different signal still
    // appends behind it
    let mut r = Registry::new();
    assert!(r.add_process(10));
    assert!(r.add_thread(1, 10));
    assert_eq!(r.send_signal_thread(1, 21), Ok(()));
    assert_eq!(r.send_signal_thread(1, 21), Ok(()));
    assert_eq!(r.threads[0].pending.len(), 1);
    assert_eq!(r.threads[0].pending[0], Signal::SIGTTIN);
    assert_eq!(r.send_signal_thread(1, 18), Ok(()));
    assert_eq!(r.threads[0].pending.len(), 2);
    assert_eq!(r.threads[0].pending[1], Signal::SIGCONT);
}

#[test]
fn duplicate_registration_is_refused() {
    let mut r = Registry::new();
    assert!(r.add_process(10));
    assert!(!r.add_process(10));
    assert!(r.add_thread(1, 10));
    assert!(!r.add_thread(1, 10));
    assert!(!r.add_thread(2, 99));
}
