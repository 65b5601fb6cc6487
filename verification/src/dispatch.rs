//! Dispatch: route a raised signal to a specific thread's private queue or
//! to its process's shared queue. Both entry points are non-blocking and may
//! be called from any execution context, including one thread acting on
//! behalf of another.

use vstd::prelude::*;
use crate::catalog::Signal;
use crate::catalog::signal_of;
use crate::catalog::valid_signal;
use crate::registry::Registry;
use crate::registry::SigError;
use crate::registry::Thread;
use crate::registry::lemma_wf_preserved;
use crate::registry::queue_holds;
use crate::registry::same_proc_except_shared;
use crate::registry::same_thread_except_pending;

verus! {

/// A thread may receive a process-directed signal when it belongs to the
/// process, is live, and does not currently block the signal.
pub open spec fn eligible(t: Thread, pid: u32, sig: u32) -> bool {
    t.pid == pid && t.alive && !t.blocked.spec_has(sig)
}

/// The effect of a thread-directed raise of `s` on the target thread:
/// standard signals are not counted, so one that is already pending is
/// merged — the thread is unchanged — and one that is not is appended to
/// the queue. Either way the signal is pending afterwards: a raise is never
/// dropped or rejected.
pub open spec fn raise_merged(post: Thread, pre: Thread, s: Signal) -> bool {
    if pre.pending@.contains(s) {
        post == pre
    } else {
        post.pending@ == pre.pending@.push(s) && same_thread_except_pending(post, pre)
    }
}

impl Registry {
    /// Raise `sig` at the process `pid` (the `kill` path).
    ///
    /// An unknown pid fails with `NoSuchTarget`; `sig == 0` is an existence
    /// probe that succeeds with no enqueue; an out-of-range number fails
    /// with `InvalidSignal`. Otherwise the first live thread, in registry
    /// enumeration order, that does not block the signal receives it on its
    /// private queue; if every thread blocks it (or there is none), it goes
    /// onto the process's shared pending queue.
    pub fn send_signal_proc(&mut self, pid: u32, sig: u32) -> (r: Result<(), SigError>)
        requires
            old(self).wf(),
        ensures
            final(self).wf(),
            r == Ok::<(), SigError>(()) <==> old(self).spec_has_process(pid) && (sig == 0
                || valid_signal(sig)),
            !old(self).spec_has_process(pid) ==> r == Err::<(), SigError>(SigError::NoSuchTarget),
            old(self).spec_has_process(pid) && sig != 0 && !valid_signal(sig) ==> r == Err::<
                (),
                SigError,
            >(SigError::InvalidSignal),
            r is Err ==> *final(self) == *old(self),
            r is Ok && sig == 0 ==> *final(self) == *old(self),
            r is Ok && sig != 0 && (exists|j: int|
                0 <= j < old(self).threads@.len() && eligible(
                    #[trigger] old(self).threads@[j],
                    pid,
                    sig,
                )) ==> final(self).procs@ == old(self).procs@ && final(self).threads@.len() == old(
                self,
            ).threads@.len() && exists|j: int|
                {
                    &&& 0 <= j < old(self).threads@.len()
                    &&& eligible(#[trigger] old(self).threads@[j], pid, sig)
                    &&& forall|k: int| 0 <= k < j ==> !eligible(old(self).threads@[k], pid, sig)
                    &&& final(self).threads@[j].pending@ == old(self).threads@[j].pending@.push(
                        signal_of(sig),
                    )
                    &&& same_thread_except_pending(final(self).threads@[j], old(self).threads@[j])
                    &&& forall|k: int|
                        0 <= k < old(self).threads@.len() && k != j ==> final(self).threads@[k]
                            == old(self).threads@[k]
                },
            r is Ok && sig != 0 && (forall|j: int|
                0 <= j < old(self).threads@.len() ==> !eligible(
                    #[trigger] old(self).threads@[j],
                    pid,
                    sig,
                )) ==> final(self).threads@ == old(self).threads@ && final(self).procs@.len()
                == old(self).procs@.len() && (forall|i: int|
                0 <= i < old(self).procs@.len() && (#[trigger] old(self).procs@[i]).pid == pid
                    ==> final(self).procs@[i].shared_pending@ == old(
                    self,
                ).procs@[i].shared_pending@.push(signal_of(sig)) && same_proc_except_shared(
                    final(self).procs@[i],
                    old(self).procs@[i],
                )) && (forall|i: int|
                0 <= i < old(self).procs@.len() && (#[trigger] old(self).procs@[i]).pid != pid
                    ==> final(self).procs@[i] == old(self).procs@[i]),
    {
        let pi = match self.find_process(pid) {
            Some(i) => i,
            None => {
                return Err(SigError::NoSuchTarget);
            },
        };
        if sig == 0 {
            return Ok(());
        }
        let signal = match Signal::from_u32(sig) {
            Some(s) => s,
            None => {
                return Err(SigError::InvalidSignal);
            },
        };
        let n = self.threads.len();
        let mut j: usize = 0;
        while j < n
            invariant
                old(self).wf(),
                valid_signal(sig),
                signal == signal_of(sig),
                j <= n,
                n == old(self).threads@.len(),
                *self == *old(self),
                forall|k: int| 0 <= k < j ==> !eligible(#[trigger] old(self).threads@[k], pid, sig),
            decreases n - j,
        {
            let is_eligible = {
                let t = &self.threads[j];
                t.pid == pid && t.alive && !t.blocked.has(sig)
            };
            if is_eligible {
                self.threads[j].pending.push(signal);
                proof {
                    lemma_wf_preserved(*old(self), *self);
                    assert(final(self).threads@[j as int].pending@ == old(
                        self,
                    ).threads@[j as int].pending@.push(signal_of(sig)));
                }
                return Ok(());
            }
            j = j + 1;
        }
        self.procs[pi].shared_pending.push(signal);
        proof {
            lemma_wf_preserved(*old(self), *self);
            assert forall|i: int|
                0 <= i < old(self).procs@.len() && (#[trigger] old(self).procs@[i]).pid
                    == pid implies i == pi as int by {
                if i != pi as int {
                    assert(old(self).procs@[i].pid != old(self).procs@[pi as int].pid);
                }
            }
        }
        Ok(())
    }

    /// Raise `sig` at the thread `tid` (the `tkill`/`tgkill` path).
    ///
    /// An unknown tid fails with `NoSuchTarget`; `sig == 0` is an existence
    /// probe; an out-of-range number fails with `InvalidSignal`. Otherwise
    /// the raise succeeds whether or not the thread currently blocks the
    /// signal — blocking defers delivery, it never drops or rejects a raise
    /// — and the signal is appended to the thread's private queue unless it
    /// is already pending there: standard signals are not counted, so a
    /// queued signal stays queued exactly once until it is delivered.
    pub fn send_signal_thread(&mut self, tid: u32, sig: u32) -> (r: Result<(), SigError>)
        requires
            old(self).wf(),
        ensures
            final(self).wf(),
            r == Ok::<(), SigError>(()) <==> old(self).spec_has_thread(tid) && (sig == 0
                || valid_signal(sig)),
            !old(self).spec_has_thread(tid) ==> r == Err::<(), SigError>(SigError::NoSuchTarget),
            old(self).spec_has_thread(tid) && sig != 0 && !valid_signal(sig) ==> r == Err::<
                (),
                SigError,
            >(SigError::InvalidSignal),
            r is Err ==> *final(self) == *old(self),
            r is Ok && sig == 0 ==> *final(self) == *old(self),
            r is Ok && sig != 0 ==> final(self).procs@ == old(self).procs@
                && final(self).threads@.len() == old(self).threads@.len() && (forall|j: int|
                0 <= j < old(self).threads@.len() && (#[trigger] old(self).threads@[j]).tid == tid
                    ==> raise_merged(final(self).threads@[j], old(self).threads@[j], signal_of(sig)))
                && (forall|k: int|
                0 <= k < old(self).threads@.len() && (#[trigger] old(self).threads@[k]).tid != tid
                    ==> final(self).threads@[k] == old(self).threads@[k]),
    {
        let j = match self.find_thread(tid) {
            Some(j) => j,
            None => {
                return Err(SigError::NoSuchTarget);
            },
        };
        if sig == 0 {
            return Ok(());
        }
        let signal = match Signal::from_u32(sig) {
            Some(s) => s,
            None => {
                return Err(SigError::InvalidSignal);
            },
        };
        if !queue_holds(&self.threads[j].pending, signal) {
            self.threads[j].pending.push(signal);
        }
        proof {
            lemma_wf_preserved(*old(self), *self);
            assert forall|k: int|
                0 <= k < old(self).threads@.len() && (#[trigger] old(self).threads@[k]).tid
                    == tid implies k == j as int by {
                if k != j as int {
                    assert(old(self).threads@[k].tid != old(self).threads@[j as int].tid);
                }
            }
        }
        Ok(())
    }
}

} // verus!
