use starry_signal::SigMask;

#[test]
fn empty_mask_blocks_nothing() {
    let m = SigMask::empty();
    for n in 1..=31u32 {
        assert!(!m.has(n));
    }
}

#[test]
fn plus_signal_adds_exactly_one() {
    let m = SigMask::empty().plus_signal(9);
    for n in 1..=31u32 {
        assert_eq!(m.has(n), n == 9);
    }
}

#[test]
fn union_is_pointwise_or() {
    let a = SigMask::empty().plus_signal(2).plus_signal(15);
    let b = SigMask::empty().plus_signal(15).plus_signal(31);
    let u = a.union(b);
    for n in 1..=31u32 {
        assert_eq!(u.has(n), n == 2 || n == 15 || n == 31);
    }
}

#[test]
fn minus_removes_members() {
    let a = SigMask::empty().plus_signal(2).plus_signal(15);
    let b = SigMask::empty().plus_signal(15);
    let d = a.minus(b);
    for n in 1..=31u32 {
        assert_eq!(d.has(n), n == 2);
    }
}
