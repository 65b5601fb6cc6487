//! The exit / group-exit coordinator: unwind the calling thread, account
//! its exit against the owning process, and on a group exit fan forced
//! SIGKILL delivery out to every remaining sibling so that each unwinds
//! through its own delivery machine. The final step of an exit — tearing
//! down the scheduling entity, after which control never returns — belongs
//! to the kernel around this subsystem.

use vstd::prelude::*;
use crate::catalog::Signal;
use crate::dispatch::raise_merged;
use crate::registry::Registry;
use crate::registry::queue_holds;

verus! {

/// The thread `tid` is the last live thread of process `pid`: every live
/// thread of the process carries its tid.
pub open spec fn last_live_thread(r: Registry, pid: u32, tid: u32) -> bool {
    forall|k: int|
        0 <= k < r.threads@.len() && (#[trigger] r.threads@[k]).pid == pid && r.threads@[k].alive
            ==> r.threads@[k].tid == tid
}

impl Registry {
    /// Terminate the calling thread `tid` with `exit_code`.
    ///
    /// The thread is detached from its process; exactly the exit that
    /// leaves the process without a live thread marks the process exited.
    /// If `group_exit` is requested, the process is marked group-exiting
    /// and SIGKILL is raised at every remaining live sibling — pending once
    /// afterwards, whether or not it already was — so each wakes and
    /// unwinds through delivery on its own. In the kernel the
    /// caller's scheduling entity is then torn down and this never returns;
    /// the registry keeps the dead thread's record until its owner destroys
    /// it.
    pub fn do_exit(&mut self, tid: u32, exit_code: i32, group_exit: bool)
        requires
            old(self).wf(),
            old(self).spec_thread_alive(tid),
        ensures
            final(self).wf(),
            final(self).threads@.len() == old(self).threads@.len(),
            final(self).procs@.len() == old(self).procs@.len(),
            forall|j: int|
                0 <= j < old(self).threads@.len() && (#[trigger] old(self).threads@[j]).tid == tid
                    ==> !final(self).threads@[j].alive && final(self).threads@[j].exit_code
                    == exit_code && final(self).threads@[j].tid == tid
                    && final(self).threads@[j].pid == old(self).threads@[j].pid
                    && final(self).threads@[j].blocked == old(self).threads@[j].blocked
                    && final(self).threads@[j].pending@ == old(self).threads@[j].pending@,
            forall|j: int, k: int|
                #![trigger old(self).threads@[j].tid, old(self).threads@[k].pid]
                0 <= j < old(self).threads@.len() && 0 <= k < old(self).threads@.len()
                    && old(self).threads@[j].tid == tid && k != j ==> if group_exit
                    && old(self).threads@[k].pid == old(self).threads@[j].pid
                    && old(self).threads@[k].alive {
                    raise_merged(final(self).threads@[k], old(self).threads@[k], Signal::SIGKILL)
                } else {
                    final(self).threads@[k] == old(self).threads@[k]
                },
            forall|j: int, i: int|
                #![trigger old(self).threads@[j].tid, old(self).procs@[i].pid]
                0 <= j < old(self).threads@.len() && 0 <= i < old(self).procs@.len()
                    && old(self).threads@[j].tid == tid ==> if old(self).procs@[i].pid
                    == old(self).threads@[j].pid {
                    final(self).procs@[i].exited == last_live_thread(
                        *old(self),
                        old(self).threads@[j].pid,
                        tid,
                    ) && final(self).procs@[i].group_exiting == (old(self).procs@[i].group_exiting
                        || group_exit) && final(self).procs@[i].pid == old(self).procs@[i].pid
                        && final(self).procs@[i].stopped == old(self).procs@[i].stopped
                        && final(self).procs@[i].actions@ == old(self).procs@[i].actions@
                        && final(self).procs@[i].shared_pending@
                        == old(self).procs@[i].shared_pending@
                } else {
                    final(self).procs@[i] == old(self).procs@[i]
                },
    {
        let j = match self.find_thread(tid) {
            Some(j) => j,
            None => {
                proof {
                    assert(false);
                }
                return ;
            },
        };
        proof {
            assert forall|k: int|
                0 <= k < old(self).threads@.len() && (#[trigger] old(self).threads@[k]).tid
                    == tid implies k == j as int by {
                if k != j as int {
                    assert(old(self).threads@[k].tid != old(self).threads@[j as int].tid);
                }
            }
            assert(old(self).threads@[j as int].alive) by {
                let w = choose|w: int|
                    0 <= w < old(self).threads@.len() && (#[trigger] old(self).threads@[w]).tid
                        == tid && old(self).threads@[w].alive;
                assert(w == j as int);
            }
        }
        let pid = self.threads[j].pid;

        // Writing zero to a registered clear-on-exit user address is a
        // courtesy to user-space join primitives; user memory belongs to
        // the kernel around this subsystem.

        // Detach the thread: it no longer counts as live.
        self.threads[j].alive = false;
        self.threads[j].exit_code = exit_code;
        let ghost a_state = *self;

        // Thread-exit accounting: the flag is true exactly for the exit
        // that leaves the process without a live thread.
        let n = self.threads.len();
        let mut any_live = false;
        let mut k: usize = 0;
        while k < n
            invariant
                k <= n,
                n == self.threads@.len(),
                any_live == exists|m: int|
                    0 <= m < k && (#[trigger] self.threads@[m]).pid == pid
                        && self.threads@[m].alive,
            decreases n - k,
        {
            let hit = {
                let t = &self.threads[k];
                t.alive && t.pid == pid
            };
            if hit {
                any_live = true;
            }
            k = k + 1;
        }
        proof {
            assert(!any_live == last_live_thread(*old(self), pid, tid)) by {
                if any_live {
                    let m = choose|m: int|
                        0 <= m < self.threads@.len() && (#[trigger] self.threads@[m]).pid == pid
                            && self.threads@[m].alive;
                    assert(m != j as int);
                    assert(old(self).threads@[m].pid == pid && old(self).threads@[m].alive);
                    assert(old(self).threads@[m].tid != tid);
                } else {
                    assert forall|m: int|
                        0 <= m < old(self).threads@.len() && (#[trigger] old(
                            self,
                        ).threads@[m]).pid == pid && old(self).threads@[m].alive implies old(
                        self,
                    ).threads@[m].tid == tid by {
                        if m != j as int {
                            assert(self.threads@[m].pid == pid && self.threads@[m].alive);
                        }
                    }
                }
            }
        }
        let pi = match self.find_process(pid) {
            Some(i) => i,
            None => {
                proof {
                    assert(old(self).spec_has_process(pid));
                    assert(false);
                }
                return ;
            },
        };
        proof {
            assert forall|i: int|
                0 <= i < old(self).procs@.len() && (#[trigger] old(self).procs@[i]).pid
                    == pid implies i == pi as int by {
                if i != pi as int {
                    assert(old(self).procs@[i].pid != old(self).procs@[pi as int].pid);
                }
            }
            // The caller was still live, so its process had not exited.
            assert(!old(self).procs@[pi as int].exited);
        }
        if !any_live {
            self.procs[pi].exited = true;
        }
        if group_exit {
            self.procs[pi].group_exiting = true;
            let ghost mid = *self;
            // Fan forced SIGKILL delivery out to every remaining live
            // sibling, with the thread-directed raise semantics: a sibling
            // that blocks SIGKILL still receives it, and one that already
            // has it pending is not queued twice.
            let mut s: usize = 0;
            while s < n
                invariant
                    s <= n,
                    n == self.threads@.len(),
                    n == mid.threads@.len(),
                    self.procs@ == mid.procs@,
                    forall|m: int|
                        0 <= m < s ==> if mid.threads@[m].alive && mid.threads@[m].pid == pid {
                            raise_merged(
                                #[trigger] self.threads@[m],
                                mid.threads@[m],
                                Signal::SIGKILL,
                            )
                        } else {
                            self.threads@[m] == mid.threads@[m]
                        },
                    forall|m: int| s <= m < n ==> self.threads@[m] == mid.threads@[m],
                decreases n - s,
            {
                let is_live_sibling = {
                    let t = &self.threads[s];
                    t.alive && t.pid == pid
                };
                if is_live_sibling {
                    if !queue_holds(&self.threads[s].pending, Signal::SIGKILL) {
                        self.threads[s].pending.push(Signal::SIGKILL);
                    }
                }
                s = s + 1;
            }
            proof {
                lemma_exit_wf(*old(self), *self, j as int, pi as int, pid, tid);
            }
        } else {
            proof {
                lemma_exit_wf(*old(self), *self, j as int, pi as int, pid, tid);
            }
        }
    }
}

/// After an exit: identities are unchanged, the caller's thread is dead,
/// pid-sibling queues may have grown, and the owning process's flags may
/// have been raised — well-formedness carries over.
proof fn lemma_exit_wf(pre: Registry, post: Registry, j: int, pi: int, pid: u32, tid: u32)
    requires
        pre.wf(),
        0 <= j < pre.threads@.len(),
        0 <= pi < pre.procs@.len(),
        pre.threads@[j].tid == tid,
        pre.threads@[j].pid == pid,
        pre.procs@[pi].pid == pid,
        post.threads@.len() == pre.threads@.len(),
        post.procs@.len() == pre.procs@.len(),
        forall|m: int|
            0 <= m < pre.threads@.len() ==> (#[trigger] post.threads@[m]).tid
                == pre.threads@[m].tid && post.threads@[m].pid == pre.threads@[m].pid,
        forall|m: int|
            0 <= m < pre.threads@.len() && m != j ==> (#[trigger] post.threads@[m]).alive
                == pre.threads@[m].alive,
        !post.threads@[j].alive,
        forall|i: int|
            0 <= i < pre.procs@.len() ==> (#[trigger] post.procs@[i]).pid == pre.procs@[i].pid
                && post.procs@[i].actions@.len() == pre.procs@[i].actions@.len(),
        forall|i: int|
            0 <= i < pre.procs@.len() && i != pi ==> (#[trigger] post.procs@[i]).exited
                == pre.procs@[i].exited,
        post.procs@[pi].exited ==> forall|m: int|
            0 <= m < post.threads@.len() ==> !((#[trigger] post.threads@[m]).pid == pid
                && post.threads@[m].alive),
    ensures
        post.wf(),
{
    assert forall|m: int| 0 <= m < post.threads@.len() implies post.spec_has_process(
        (#[trigger] post.threads@[m]).pid,
    ) by {
        assert(pre.spec_has_process(pre.threads@[m].pid));
        let i = choose|i: int|
            0 <= i < pre.procs@.len() && (#[trigger] pre.procs@[i]).pid == pre.threads@[m].pid;
        assert(post.procs@[i].pid == post.threads@[m].pid);
    }
    assert forall|i: int, m: int|
        0 <= i < post.procs@.len() && 0 <= m < post.threads@.len() && post.procs@[i].exited
            && post.threads@[m].pid == post.procs@[i].pid implies !post.threads@[m].alive by {
        if i != pi {
            assert(pre.procs@[i].exited);
            if m != j {
                assert(pre.threads@[m].pid == pre.procs@[i].pid);
                assert(!pre.threads@[m].alive);
            }
        }
    }
}

} // verus!
