//! The configurable signal state: a thread's blocked mask
//! (`rt_sigprocmask`) and a process's per-signal action table
//! (`rt_sigaction`). Both operations atomically return the prior value.

use vstd::prelude::*;
use crate::action::SignalAction;
use crate::catalog::valid_signal;
use crate::mask::SigMask;
use crate::registry::Registry;
use crate::registry::SigError;
use crate::registry::lemma_wf_preserved;
use crate::registry::same_proc_except_actions;
use crate::registry::same_thread_except_blocked;

verus! {

/// How `sigprocmask` combines the given set with the current blocked mask.
#[derive(Clone, Copy, Debug, PartialEq, Eq, Structural)]
pub enum MaskHow {
    /// Add the given signals to the blocked mask.
    Block,
    /// Remove the given signals from the blocked mask.
    Unblock,
    /// Replace the blocked mask with the given set.
    SetMask,
}

/// Membership of signal `s` in the blocked mask after applying `how` with
/// set `mask` to a mask that had `before` membership.
pub open spec fn spec_apply_how(how: MaskHow, before: bool, in_mask: bool) -> bool {
    match how {
        MaskHow::Block => before || in_mask,
        MaskHow::Unblock => before && !in_mask,
        MaskHow::SetMask => in_mask,
    }
}

impl Registry {
    /// Atomically capture the calling thread's blocked mask and apply `how`
    /// with `mask` to it: union for `Block`, difference for `Unblock`,
    /// replacement for `SetMask`. Returns the prior mask. Fails only for an
    /// unknown tid.
    pub fn sigprocmask(&mut self, tid: u32, how: MaskHow, mask: SigMask) -> (r: Result<
        SigMask,
        SigError,
    >)
        requires
            old(self).wf(),
        ensures
            final(self).wf(),
            r is Ok <==> old(self).spec_has_thread(tid),
            r is Err ==> r == Err::<SigMask, SigError>(SigError::NoSuchTarget) && *final(self)
                == *old(self),
            r is Ok ==> final(self).procs@ == old(self).procs@ && final(self).threads@.len() == old(
                self,
            ).threads@.len() && (forall|j: int|
                0 <= j < old(self).threads@.len() && (#[trigger] old(self).threads@[j]).tid == tid
                    ==> r == Ok::<SigMask, SigError>(old(self).threads@[j].blocked)
                    && same_thread_except_blocked(final(self).threads@[j], old(self).threads@[j])
                    && (forall|s: u32|
                    valid_signal(s) ==> (#[trigger] final(self).threads@[j].blocked.spec_has(s))
                        == spec_apply_how(
                        how,
                        old(self).threads@[j].blocked.spec_has(s),
                        mask.spec_has(s),
                    ))) && (forall|k: int|
                0 <= k < old(self).threads@.len() && (#[trigger] old(self).threads@[k]).tid != tid
                    ==> final(self).threads@[k] == old(self).threads@[k]),
    {
        let j = match self.find_thread(tid) {
            Some(j) => j,
            None => {
                return Err(SigError::NoSuchTarget);
            },
        };
        let prior = self.threads[j].blocked;
        let updated = match how {
            MaskHow::Block => prior.union(mask),
            MaskHow::Unblock => prior.minus(mask),
            MaskHow::SetMask => mask,
        };
        self.threads[j].blocked = updated;
        proof {
            lemma_wf_preserved(*old(self), *self);
            assert forall|k: int|
                0 <= k < old(self).threads@.len() && (#[trigger] old(self).threads@[k]).tid
                    == tid implies k == j as int by {
                if k != j as int {
                    assert(old(self).threads@[k].tid != old(self).threads@[j as int].tid);
                }
            }
        }
        Ok(prior)
    }

    /// Atomically swap the process's configured action for signal number
    /// `signum`, returning the prior configuration. An unknown pid fails
    /// with `NoSuchTarget`, an out-of-range signal number with
    /// `InvalidSignal`: the action table is only ever indexed by a
    /// validated number.
    pub fn sigaction(&mut self, pid: u32, signum: u32, act: SignalAction) -> (r: Result<
        SignalAction,
        SigError,
    >)
        requires
            old(self).wf(),
        ensures
            final(self).wf(),
            r is Ok <==> old(self).spec_has_process(pid) && valid_signal(signum),
            !old(self).spec_has_process(pid) ==> r == Err::<SignalAction, SigError>(
                SigError::NoSuchTarget,
            ),
            old(self).spec_has_process(pid) && !valid_signal(signum) ==> r == Err::<
                SignalAction,
                SigError,
            >(SigError::InvalidSignal),
            r is Err ==> *final(self) == *old(self),
            r is Ok ==> final(self).threads@ == old(self).threads@ && final(self).procs@.len()
                == old(self).procs@.len() && (forall|i: int|
                0 <= i < old(self).procs@.len() && (#[trigger] old(self).procs@[i]).pid == pid
                    ==> r == Ok::<SignalAction, SigError>(old(self).procs@[i].actions@[signum as int])
                    && final(self).procs@[i].actions@ == old(self).procs@[i].actions@.update(
                    signum as int,
                    act,
                ) && same_proc_except_actions(final(self).procs@[i], old(self).procs@[i])) && (
            forall|i: int|
                0 <= i < old(self).procs@.len() && (#[trigger] old(self).procs@[i]).pid != pid
                    ==> final(self).procs@[i] == old(self).procs@[i]),
    {
        let i = match self.find_process(pid) {
            Some(i) => i,
            None => {
                return Err(SigError::NoSuchTarget);
            },
        };
        if sig_out_of_range(signum) {
            return Err(SigError::InvalidSignal);
        }
        let prior = self.procs[i].actions[signum as usize];
        self.procs[i].actions.set(signum as usize, act);
        proof {
            lemma_wf_preserved(*old(self), *self);
            assert forall|k: int|
                0 <= k < old(self).procs@.len() && (#[trigger] old(self).procs@[k]).pid
                    == pid implies k == i as int by {
                if k != i as int {
                    assert(old(self).procs@[k].pid != old(self).procs@[i as int].pid);
                }
            }
        }
        Ok(prior)
    }
}

/// A raw number outside 1..=31 never names a standard signal.
fn sig_out_of_range(sig: u32) -> (r: bool)
    ensures
        r == !valid_signal(sig),
{
    sig < 1 || sig > 31
}

} // verus!
