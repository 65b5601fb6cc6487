//! Signal masks: a set of signal numbers kept as one bit per number, used as
//! a thread's blocked set and, transiently, as "signals to additionally block
//! while a handler runs".

use vstd::prelude::*;
use crate::catalog::valid_signal;

verus! {

/// A set of signal numbers, one bit per number in 1..=31. Bit 0 is unused.
#[derive(Clone, Copy, Debug, PartialEq, Eq, Structural)]
pub struct SigMask {
    pub bits: u32,
}

impl SigMask {
    /// Whether the mask holds the signal numbered `signo`.
    pub open spec fn spec_has(self, signo: u32) -> bool {
        self.bits & (1u32 << signo) != 0
    }

    /// The empty mask: no signal blocked.
    pub fn empty() -> (r: SigMask)
        ensures
            forall|s: u32| valid_signal(s) ==> !r.spec_has(s),
    {
        let r = SigMask { bits: 0 };
        proof {
            assert forall|s: u32| valid_signal(s) implies !r.spec_has(s) by {
                assert(0u32 & (1u32 << s) == 0) by (bit_vector);
            }
        }
        r
    }

    /// Membership test.
    pub fn has(&self, signo: u32) -> (r: bool)
        requires
            valid_signal(signo),
        ensures
            r == self.spec_has(signo),
    {
        self.bits & (1u32 << signo) != 0
    }

    /// The mask with the signal numbered `signo` added.
    pub fn plus_signal(self, signo: u32) -> (r: SigMask)
        requires
            valid_signal(signo),
        ensures
            forall|s: u32| valid_signal(s) ==> r.spec_has(s) == (self.spec_has(s) || s == signo),
    {
        let r = SigMask { bits: self.bits | (1u32 << signo) };
        proof {
            let b = self.bits;
            assert forall|s: u32| 1 <= s <= 31 implies ((b | (1u32 << signo)) & (1u32 << s) != 0)
                == ((b & (1u32 << s) != 0) || s == signo) by {
                assert(1 <= s <= 31 && 1 <= signo <= 31 ==> ((b | (1u32 << signo)) & (1u32 << s)
                    != 0) == ((b & (1u32 << s) != 0) || s == signo)) by (bit_vector);
            }
        }
        r
    }

    /// The union of two masks.
    pub fn union(self, other: SigMask) -> (r: SigMask)
        ensures
            forall|s: u32|
                valid_signal(s) ==> r.spec_has(s) == (self.spec_has(s) || other.spec_has(s)),
    {
        let r = SigMask { bits: self.bits | other.bits };
        proof {
            let a = self.bits;
            let b = other.bits;
            assert forall|s: u32| 1 <= s <= 31 implies ((a | b) & (1u32 << s) != 0) == ((a & (1u32
                << s) != 0) || (b & (1u32 << s) != 0)) by {
                assert(((a | b) & (1u32 << s) != 0) == ((a & (1u32 << s) != 0) || (b & (1u32 << s)
                    != 0))) by (bit_vector);
            }
        }
        r
    }

    /// The mask with every signal of `other` removed.
    pub fn minus(self, other: SigMask) -> (r: SigMask)
        ensures
            forall|s: u32|
                valid_signal(s) ==> r.spec_has(s) == (self.spec_has(s) && !other.spec_has(s)),
    {
        let r = SigMask { bits: self.bits & !other.bits };
        proof {
            let a = self.bits;
            let b = other.bits;
            assert forall|s: u32| 1 <= s <= 31 implies ((a & !b) & (1u32 << s) != 0) == ((a & (1u32
                << s) != 0) && !(b & (1u32 << s) != 0)) by {
                assert(((a & !b) & (1u32 << s) != 0) == ((a & (1u32 << s) != 0) && !(b & (1u32 << s)
                    != 0))) by (bit_vector);
            }
        }
        r
    }
}

} // verus!
