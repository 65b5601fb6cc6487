//! The delivery state machine, run once per return-to-user trap boundary on
//! the calling thread's own state: scan the private pending queue from the
//! front, skip — but keep — blocked entries, silently consume entries whose
//! action resolves to nothing, and act on the first entry that resolves to
//! an action.

use vstd::prelude::*;
use crate::action::SignalAction;
use crate::action::SignalOSAction;
use crate::action::handle_signal;
use crate::action::spec_resolve;
use crate::catalog::Signal;
use crate::catalog::sig_num;
use crate::catalog::valid_signal;
use crate::dispatch::raise_merged;
use crate::mask::SigMask;
use crate::registry::Registry;
use crate::registry::lemma_wf_preserved;
use crate::registry::same_proc_except_stopped;
use crate::registry::same_thread_except_pending;
use crate::exit::last_live_thread;

verus! {

/// One full run of the delivery scan over a pending queue `q` against a
/// blocked mask and a 32-entry action table: the queue left behind, and the
/// delivered signal with its resolved action, if any. Blocked entries stay
/// in place; unblocked entries are removed one at a time — consumed
/// silently while they resolve to nothing, and the first one that resolves
/// to an action is delivered and ends the scan.
pub open spec fn deliver_spec(q: Seq<Signal>, blocked: SigMask, acts: Seq<SignalAction>) -> (
    Seq<Signal>,
    Option<(Signal, SignalOSAction)>,
)
    decreases q.len(),
{
    if q.len() == 0 {
        (q, None)
    } else {
        let h = q[0];
        let rest = q.drop_first();
        if blocked.spec_has(sig_num(h)) {
            let r = deliver_spec(rest, blocked, acts);
            (seq![h] + r.0, r.1)
        } else {
            match spec_resolve(acts[sig_num(h) as int].disposition, sig_num(h) as int) {
                None => deliver_spec(rest, blocked, acts),
                Some(a) => (rest, Some((h, a))),
            }
        }
    }
}

/// Run the delivery scan on one queue in place.
fn deliver_pending(pending: &mut Vec<Signal>, blocked: SigMask, actions: &Vec<SignalAction>) -> (r:
    Option<(Signal, SignalOSAction)>)
    requires
        actions@.len() == 32,
    ensures
        final(pending)@ == deliver_spec(old(pending)@, blocked, actions@).0,
        r == deliver_spec(old(pending)@, blocked, actions@).1,
{
    let ghost q0 = pending@;
    proof {
        assert(q0.skip(0) =~= q0);
        assert(q0.take(0) + deliver_spec(q0, blocked, actions@).0 =~= deliver_spec(
            q0,
            blocked,
            actions@,
        ).0);
    }
    let mut i: usize = 0;
    while i < pending.len()
        invariant
            q0 == old(pending)@,
            actions@.len() == 32,
            i <= pending@.len(),
            forall|m: int| 0 <= m < i ==> blocked.spec_has(sig_num(#[trigger] pending@[m])),
            deliver_spec(q0, blocked, actions@).0 == pending@.take(i as int) + deliver_spec(
                pending@.skip(i as int),
                blocked,
                actions@,
            ).0,
            deliver_spec(q0, blocked, actions@).1 == deliver_spec(
                pending@.skip(i as int),
                blocked,
                actions@,
            ).1,
        decreases pending@.len() - i,
    {
        let ghost p = pending@;
        let ghost sk = p.skip(i as int);
        proof {
            assert(sk[0] == p[i as int]);
            assert(sk.drop_first() =~= p.skip(i as int + 1));
        }
        let s = pending[i];
        let signo = s.signo();
        if blocked.has(signo) {
            proof {
                assert(deliver_spec(sk, blocked, actions@).0 == seq![s] + deliver_spec(
                    sk.drop_first(),
                    blocked,
                    actions@,
                ).0);
                assert(p.take(i as int) + deliver_spec(sk, blocked, actions@).0 =~= p.take(
                    i as int + 1,
                ) + deliver_spec(p.skip(i as int + 1), blocked, actions@).0);
            }
            i = i + 1;
        } else {
            let resolved = handle_signal(&actions[signo as usize], signo);
            let removed = pending.remove(i);
            proof {
                assert(pending@ =~= p.remove(i as int));
                assert(pending@.take(i as int) =~= p.take(i as int));
                assert(pending@.skip(i as int) =~= p.skip(i as int + 1));
            }
            match resolved {
                None => {
                    proof {
                        assert(deliver_spec(sk, blocked, actions@) == deliver_spec(
                            sk.drop_first(),
                            blocked,
                            actions@,
                        ));
                    }
                },
                Some(a) => {
                    proof {
                        assert(deliver_spec(sk, blocked, actions@).0 == sk.drop_first());
                        assert(deliver_spec(sk, blocked, actions@).1 == Some((s, a)));
                        assert(pending@ =~= p.take(i as int) + p.skip(i as int + 1));
                    }
                    return Some((removed, a));
                },
            }
        }
    }
    proof {
        assert(pending@.skip(i as int) =~= Seq::<Signal>::empty());
        assert(deliver_spec(pending@.skip(i as int), blocked, actions@).0 =~= Seq::<
            Signal,
        >::empty());
        assert(pending@.take(i as int) =~= pending@);
        assert(deliver_spec(q0, blocked, actions@).0 =~= pending@);
    }
    None
}

impl Registry {
    /// Deliver at most one signal to the calling thread `tid` at its trap
    /// return.
    ///
    /// Runs the delivery scan on the thread's private queue, then performs
    /// the resolved action: `Terminate` and `CoreDump` hand `128 +
    /// signal_number` to the exit coordinator with a group exit; `Stop`
    /// suspends the process and `Continue` resumes it; `Handler` unions the
    /// requested additional mask into the thread's blocked mask while the
    /// trap/ABI layer (external) builds the handler frame and later
    /// restores the prior mask. Returns the delivered signal and action, or
    /// nothing if the queue held no deliverable entry. An unknown or
    /// already dead thread delivers nothing.
    pub fn check_signals(&mut self, tid: u32) -> (r: Option<(Signal, SignalOSAction)>)
        requires
            old(self).wf(),
        ensures
            final(self).wf(),
            !old(self).spec_has_thread(tid) ==> r == None::<(Signal, SignalOSAction)>
                && *final(self) == *old(self),
            forall|j: int|
                0 <= j < old(self).threads@.len() && (#[trigger] old(self).threads@[j]).tid == tid
                    && !old(self).threads@[j].alive ==> r == None::<(Signal, SignalOSAction)>
                    && *final(self) == *old(self),
            forall|j: int|
                0 <= j < old(self).threads@.len() && (#[trigger] old(self).threads@[j]).tid == tid
                    && old(self).threads@[j].alive ==> check_signals_post(
                    *old(self),
                    *final(self),
                    tid,
                    j,
                    r,
                ),
    {
        let j = match self.find_thread(tid) {
            Some(j) => j,
            None => {
                return None;
            },
        };
        proof {
            assert forall|k: int|
                0 <= k < old(self).threads@.len() && (#[trigger] old(self).threads@[k]).tid
                    == tid implies k == j as int by {
                if k != j as int {
                    assert(old(self).threads@[k].tid != old(self).threads@[j as int].tid);
                }
            }
        }
        if !self.threads[j].alive {
            return None;
        }
        let pid = self.threads[j].pid;
        let pi = match self.find_process(pid) {
            Some(i) => i,
            None => {
                proof {
                    assert(old(self).spec_has_process(pid));
                    assert(false);
                }
                return None;
            },
        };
        proof {
            assert forall|i: int|
                0 <= i < old(self).procs@.len() && (#[trigger] old(self).procs@[i]).pid
                    == pid implies i == pi as int by {
                if i != pi as int {
                    assert(old(self).procs@[i].pid != old(self).procs@[pi as int].pid);
                }
            }
        }
        let ghost o = *old(self);
        let blocked = self.threads[j].blocked;
        let outcome = deliver_pending(&mut self.threads[j].pending, blocked, &self.procs[pi].actions);
        let ghost s1 = *self;
        let ghost scan = deliver_spec(
            o.threads@[j as int].pending@,
            o.threads@[j as int].blocked,
            o.procs@[pi as int].actions@,
        );
        proof {
            assert(s1.procs@ == o.procs@);
            assert(s1.threads@.len() == o.threads@.len());
            assert(same_thread_except_pending(s1.threads@[j as int], o.threads@[j as int]));
            assert(forall|k: int|
                0 <= k < o.threads@.len() && k != j as int ==> (#[trigger] s1.threads@[k])
                    == o.threads@[k]);
            assert(s1.threads@[j as int].pending@ == scan.0);
            assert(outcome == scan.1);
            lemma_wf_preserved(o, s1);
        }
        let (signal, act) = match outcome {
            None => {
                proof {
                    assert forall|i: int|
                        0 <= i < o.procs@.len() && (#[trigger] o.procs@[i]).pid
                            == o.threads@[j as int].pid implies i == pi as int by {
                        if i != pi as int {
                            assert(o.procs@[i].pid != o.procs@[pi as int].pid);
                        }
                    }
                    assert(check_signals_post(
                        o,
                        s1,
                        tid,
                        j as int,
                        None::<(Signal, SignalOSAction)>,
                    ));
                }
                return None;
            },
            Some(pair) => pair,
        };
        proof {
            assert forall|i: int|
                0 <= i < o.procs@.len() && (#[trigger] o.procs@[i]).pid
                    == o.threads@[j as int].pid implies i == pi as int by {
                if i != pi as int {
                    assert(o.procs@[i].pid != o.procs@[pi as int].pid);
                }
            }
        }
        match act {
            SignalOSAction::Terminate | SignalOSAction::CoreDump => {
                let signo = signal.signo();
                proof {
                    assert(s1.spec_thread_alive(tid)) by {
                        assert(s1.threads@[j as int].tid == tid && s1.threads@[j as int].alive);
                    }
                }
                self.do_exit(tid, 128 + signo as i32, true);
                proof {
                    let f = *self;
                    assert(last_live_thread(s1, pid, tid) == last_live_thread(o, pid, tid)) by {
                        if last_live_thread(s1, pid, tid) {
                            assert forall|k: int|
                                0 <= k < o.threads@.len() && (#[trigger] o.threads@[k]).pid == pid
                                    && o.threads@[k].alive implies o.threads@[k].tid == tid by {
                                assert(s1.threads@[k].pid == pid && s1.threads@[k].alive);
                            }
                        }
                        if last_live_thread(o, pid, tid) {
                            assert forall|k: int|
                                0 <= k < s1.threads@.len() && (#[trigger] s1.threads@[k]).pid
                                    == pid && s1.threads@[k].alive implies s1.threads@[k].tid
                                == tid by {
                                assert(o.threads@[k].pid == pid && o.threads@[k].alive);
                            }
                        }
                    }
                    assert(check_signals_post(o, f, tid, j as int, Some((signal, act)))) by {
                        assert forall|i: int|
                            0 <= i < o.procs@.len() && (#[trigger] o.procs@[i]).pid
                                == o.threads@[j as int].pid implies i == pi as int by {
                            if i != pi as int {
                                assert(o.procs@[i].pid != o.procs@[pi as int].pid);
                            }
                        }
                        assert(f.threads@[j as int].pending@ == scan.0);
                        assert forall|k: int|
                            0 <= k < o.threads@.len() && k != j as int implies (if o.threads@[k].pid
                                == pid && o.threads@[k].alive {
                                raise_merged(#[trigger] f.threads@[k], o.threads@[k], Signal::SIGKILL)
                            } else {
                                f.threads@[k] == o.threads@[k]
                            }) by {
                            assert(s1.threads@[j as int].tid == tid);
                            assert(s1.threads@[k] == o.threads@[k]);
                        }
                    }
                }
            },
            SignalOSAction::Stop => {
                self.procs[pi].stopped = true;
                proof {
                    lemma_wf_preserved(o, *self);
                    assert(check_signals_post(o, *self, tid, j as int, Some((signal, act))));
                }
            },
            SignalOSAction::Continue => {
                self.procs[pi].stopped = false;
                proof {
                    lemma_wf_preserved(o, *self);
                    assert(check_signals_post(o, *self, tid, j as int, Some((signal, act))));
                }
            },
            SignalOSAction::Handler { add_blocked } => {
                let merged = self.threads[j].blocked.union(add_blocked);
                self.threads[j].blocked = merged;
                proof {
                    lemma_wf_preserved(o, *self);
                    assert(check_signals_post(o, *self, tid, j as int, Some((signal, act))));
                }
            },
        }
        Some((signal, act))
    }
}

/// What one delivery invocation did, seen from the states before (`pre`)
/// and after (`post`): the scan result determines the thread's new queue
/// and the returned value, and the performed action determines everything
/// else. `j` is the index of the calling thread, which is live in `pre`.
pub open spec fn check_signals_post(
    pre: Registry,
    post: Registry,
    tid: u32,
    j: int,
    r: Option<(Signal, SignalOSAction)>,
) -> bool {
    forall|i: int|
        0 <= i < pre.procs@.len() && (#[trigger] pre.procs@[i]).pid == pre.threads@[j].pid ==> {
            let scan = deliver_spec(
                pre.threads@[j].pending@,
                pre.threads@[j].blocked,
                pre.procs@[i].actions@,
            );
            &&& r == scan.1
            &&& post.threads@.len() == pre.threads@.len()
            &&& post.procs@.len() == pre.procs@.len()
            &&& post.threads@[j].pending@ == scan.0
            &&& match scan.1 {
                None => same_thread_except_pending(post.threads@[j], pre.threads@[j])
                    && unchanged_but_thread(pre, post, j),
                Some((s, act)) => match act {
                    SignalOSAction::Terminate | SignalOSAction::CoreDump => {
                        &&& !post.threads@[j].alive
                        &&& post.threads@[j].exit_code == 128 + sig_num(s) as i32
                        &&& post.threads@[j].tid == pre.threads@[j].tid
                        &&& post.threads@[j].pid == pre.threads@[j].pid
                        &&& post.threads@[j].blocked == pre.threads@[j].blocked
                        &&& forall|k: int|
                            0 <= k < pre.threads@.len() && k != j ==> if pre.threads@[k].pid
                                == pre.threads@[j].pid && pre.threads@[k].alive {
                                raise_merged(
                                    #[trigger] post.threads@[k],
                                    pre.threads@[k],
                                    Signal::SIGKILL,
                                )
                            } else {
                                post.threads@[k] == pre.threads@[k]
                            }
                        &&& forall|m: int|
                            0 <= m < pre.procs@.len() ==> if m == i {
                                post.procs@[m].exited == last_live_thread(
                                    pre,
                                    pre.threads@[j].pid,
                                    tid,
                                ) && post.procs@[m].group_exiting && (
                                #[trigger] post.procs@[m]).pid == pre.procs@[m].pid
                                    && post.procs@[m].stopped == pre.procs@[m].stopped
                                    && post.procs@[m].actions@ == pre.procs@[m].actions@
                                    && post.procs@[m].shared_pending@
                                    == pre.procs@[m].shared_pending@
                            } else {
                                post.procs@[m] == pre.procs@[m]
                            }
                    },
                    SignalOSAction::Stop => unchanged_but_proc_stopped(pre, post, j, i, scan.0, true),
                    SignalOSAction::Continue => unchanged_but_proc_stopped(
                        pre,
                        post,
                        j,
                        i,
                        scan.0,
                        false,
                    ),
                    SignalOSAction::Handler { add_blocked } => {
                        &&& unchanged_but_thread(pre, post, j)
                        &&& post.threads@[j].tid == pre.threads@[j].tid
                        &&& post.threads@[j].pid == pre.threads@[j].pid
                        &&& post.threads@[j].alive == pre.threads@[j].alive
                        &&& post.threads@[j].exit_code == pre.threads@[j].exit_code
                        &&& forall|sg: u32|
                            valid_signal(sg) ==> (#[trigger] post.threads@[j].blocked.spec_has(sg))
                                == (pre.threads@[j].blocked.spec_has(sg)
                                || add_blocked.spec_has(sg))
                    },
                },
            }
        }
}

/// `post` is `pre` with thread `j` replaced; no process and no other
/// thread changed.
pub open spec fn unchanged_but_thread(pre: Registry, post: Registry, j: int) -> bool {
    &&& post.procs@ == pre.procs@
    &&& post.threads@.len() == pre.threads@.len()
    &&& forall|k: int|
        0 <= k < pre.threads@.len() && k != j ==> (#[trigger] post.threads@[k])
            == pre.threads@[k]
}

/// `post` is `pre` with thread `j`'s queue replaced by `q` and process
/// `i`'s stop flag set to `stopped`; nothing else changed.
pub open spec fn unchanged_but_proc_stopped(
    pre: Registry,
    post: Registry,
    j: int,
    i: int,
    q: Seq<Signal>,
    stopped: bool,
) -> bool {
    &&& post.threads@.len() == pre.threads@.len()
    &&& post.procs@.len() == pre.procs@.len()
    &&& post.threads@[j].pending@ == q
    &&& same_thread_except_pending(post.threads@[j], pre.threads@[j])
    &&& forall|k: int|
        0 <= k < pre.threads@.len() && k != j ==> (#[trigger] post.threads@[k])
            == pre.threads@[k]
    &&& post.procs@[i].stopped == stopped
    &&& same_proc_except_stopped(post.procs@[i], pre.procs@[i])
    &&& forall|m: int|
        0 <= m < pre.procs@.len() && m != i ==> (#[trigger] post.procs@[m]) == pre.procs@[m]
}

} // verus!
