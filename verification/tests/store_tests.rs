use starry_signal::SigDisposition;
use starry_signal::SigMask;
use starry_signal::SignalAction;
use starry_signal::registry::Registry;
use starry_signal::registry::SigError;
use starry_signal::store::MaskHow;

#[test]
fn sigprocmask_block_unions_and_returns_prior() {
    let mut r = Registry::new();
    assert!(r.add_process(10));
    assert!(r.add_thread(1, 10));
    let a = SigMask::empty().plus_signal(2);
    let prior = r.sigprocmask(1, MaskHow::Block, a).expect("known tid");
    assert!(!prior.has(2));
    let b = SigMask::empty().plus_signal(15);
    let prior2 = r.sigprocmask(1, MaskHow::Block, b).expect("known tid");
    assert!(prior2.has(2));
    assert!(!prior2.has(15));
    assert!(r.threads[0].blocked.has(2));
    assert!(r.threads[0].blocked.has(15));
}

#[test]
fn sigprocmask_unblock_subtracts() {
    let mut r = Registry::new();
    assert!(r.add_process(10));
    assert!(r.add_thread(1, 10));
    let both = SigMask::empty().plus_signal(2).plus_signal(15);
    assert!(r.sigprocmask(1, MaskHow::Block, both).is_ok());
    let just2 = SigMask::empty().plus_signal(2);
    assert!(r.sigprocmask(1, MaskHow::Unblock, just2).is_ok());
    assert!(!r.threads[0].blocked.has(2));
    assert!(r.threads[0].blocked.has(15));
}

#[test]
fn sigprocmask_setmask_replaces() {
    let mut r = Registry::new();
    assert!(r.add_process(10));
    assert!(r.add_thread(1, 10));
    let a = SigMask::empty().plus_signal(2);
    assert!(r.sigprocmask(1, MaskHow::Block, a).is_ok());
    let b = SigMask::empty().plus_signal(31);
    assert!(r.sigprocmask(1, MaskHow::SetMask, b).is_ok());
    assert!(!r.threads[0].blocked.has(2));
    assert!(r.threads[0].blocked.has(31));
}

#[test]
fn sigprocmask_unknown_thread_fails() {
    let mut r = Registry::new();
    assert_eq!(
        r.sigprocmask(1, MaskHow::Block, SigMask::empty()),
        Err(SigError::NoSuchTarget)
    );
}

#[test]
fn sigaction_swaps_and_returns_prior() {
    let mut r = Registry::new();
    assert!(r.add_process(10));
    let stop = SignalAction { disposition: SigDisposition::Stop };
    let prior = r.sigaction(10, 10, stop).expect("known pid");
    assert_eq!(prior.disposition, SigDisposition::Default);
    let cont = SignalAction { disposition: SigDisposition::Continue };
    let prior2 = r.sigaction(10, 10, cont).expect("known pid");
    assert_eq!(prior2.disposition, SigDisposition::Stop);
    // other entries keep their configuration
    let probe = r.sigaction(10, 11, SignalAction::default()).expect("known pid");
    assert_eq!(probe.disposition, SigDisposition::Default);
}

#[test]
fn sigaction_rejects_bad_inputs() {
    let mut r = Registry::new();
    assert!(r.add_process(10));
    assert_eq!(
        r.sigaction(99, 10, SignalAction::default()),
        Err(SigError::NoSuchTarget)
    );
    assert_eq!(
        r.sigaction(10, 0, SignalAction::default()),
        Err(SigError::InvalidSignal)
    );
    assert_eq!(
        r.sigaction(10, 32, SignalAction::default()),
        Err(SigError::InvalidSignal)
    );
}
