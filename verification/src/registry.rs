//! The process/thread registry model: each process with its per-signal
//! action table, shared pending queue and lifecycle flags, each thread with
//! its blocked mask and private FIFO pending queue. The registry entries are
//! created by process/thread construction (external in the kernel) and
//! destroyed only with their owner; the signal subsystem reads and appends.

use vstd::prelude::*;
use crate::action::SignalAction;
use crate::catalog::SigDisposition;
use crate::catalog::Signal;
use crate::catalog::valid_signal;
use crate::mask::SigMask;

verus! {

/// Why a dispatch or store operation failed. `NoSuchTarget`: the pid/tid is
/// unknown. `InvalidSignal`: the signal number is zero or out of range.
#[derive(Clone, Copy, Debug, PartialEq, Eq, Structural)]
pub enum SigError {
    NoSuchTarget,
    InvalidSignal,
}

/// ESRCH: no process or thread with the given id.
pub const ESRCH: i32 = 3;

/// EINVAL: invalid signal number.
pub const EINVAL: i32 = 22;

impl SigError {
    /// The errno surfaced to a caller of `kill`/`tkill`/`tgkill`.
    pub fn as_errno(self) -> (r: i32)
        ensures
            self is NoSuchTarget ==> r == ESRCH,
            self is InvalidSignal ==> r == EINVAL,
    {
        match self {
            SigError::NoSuchTarget => ESRCH,
            SigError::InvalidSignal => EINVAL,
        }
    }
}

/// A process: its identity, lifecycle flags, per-signal action table
/// (indexed by signal number, entry 0 unused) and the process-wide shared
/// queue of raised-but-unclaimed signals.
pub struct Process {
    pub pid: u32,
    /// Set when the last live thread has exited.
    pub exited: bool,
    /// Set when a group exit has been requested and forced SIGKILL delivery
    /// to the remaining threads has been fanned out.
    pub group_exiting: bool,
    /// Set by a delivered Stop action, cleared by Continue.
    pub stopped: bool,
    pub actions: Vec<SignalAction>,
    pub shared_pending: Vec<Signal>,
}

/// A thread: its identity, liveness, recorded exit code, blocked mask and
/// private FIFO pending queue.
pub struct Thread {
    pub tid: u32,
    pub pid: u32,
    pub alive: bool,
    pub exit_code: i32,
    pub blocked: SigMask,
    pub pending: Vec<Signal>,
}

/// Lifecycle of a process as observed through its flags.
#[derive(Clone, Copy, Debug, PartialEq, Eq, Structural)]
pub enum ProcState {
    Running,
    GroupExiting,
    Exited,
}

/// Two threads that agree on everything but their pending queue.
pub open spec fn same_thread_except_pending(a: Thread, b: Thread) -> bool {
    &&& a.tid == b.tid
    &&& a.pid == b.pid
    &&& a.alive == b.alive
    &&& a.exit_code == b.exit_code
    &&& a.blocked == b.blocked
}

/// Two threads that agree on everything but their blocked mask.
pub open spec fn same_thread_except_blocked(a: Thread, b: Thread) -> bool {
    &&& a.tid == b.tid
    &&& a.pid == b.pid
    &&& a.alive == b.alive
    &&& a.exit_code == b.exit_code
    &&& a.pending@ == b.pending@
}

/// Two processes that agree on everything but their shared pending queue.
pub open spec fn same_proc_except_shared(a: Process, b: Process) -> bool {
    &&& a.pid == b.pid
    &&& a.exited == b.exited
    &&& a.group_exiting == b.group_exiting
    &&& a.stopped == b.stopped
    &&& a.actions@ == b.actions@
}

/// Two processes that agree on everything but their stop flag.
pub open spec fn same_proc_except_stopped(a: Process, b: Process) -> bool {
    &&& a.pid == b.pid
    &&& a.exited == b.exited
    &&& a.group_exiting == b.group_exiting
    &&& a.actions@ == b.actions@
    &&& a.shared_pending@ == b.shared_pending@
}

/// Two processes that agree on everything but their action table.
pub open spec fn same_proc_except_actions(a: Process, b: Process) -> bool {
    &&& a.pid == b.pid
    &&& a.exited == b.exited
    &&& a.group_exiting == b.group_exiting
    &&& a.stopped == b.stopped
    &&& a.shared_pending@ == b.shared_pending@
}

impl Process {
    /// The lifecycle state: a process is `Exited` once its last live thread
    /// has gone, `GroupExiting` while a requested group exit is still
    /// unwinding its threads, and `Running` otherwise.
    pub open spec fn spec_state(self) -> ProcState {
        if self.exited {
            ProcState::Exited
        } else if self.group_exiting {
            ProcState::GroupExiting
        } else {
            ProcState::Running
        }
    }

    /// The lifecycle state, for callers outside the subsystem.
    pub fn state(&self) -> (r: ProcState)
        ensures
            r == self.spec_state(),
    {
        if self.exited {
            ProcState::Exited
        } else if self.group_exiting {
            ProcState::GroupExiting
        } else {
            ProcState::Running
        }
    }
}

/// The registry of all processes and threads, the external key-value store
/// that dispatch consults, modelled directly. Enumeration order of the
/// vectors is registry enumeration order.
pub struct Registry {
    pub procs: Vec<Process>,
    pub threads: Vec<Thread>,
}

impl Registry {
    /// Some process carries this pid.
    pub open spec fn spec_has_process(self, pid: u32) -> bool {
        exists|i: int| 0 <= i < self.procs@.len() && (#[trigger] self.procs@[i]).pid == pid
    }

    /// Some thread carries this tid.
    pub open spec fn spec_has_thread(self, tid: u32) -> bool {
        exists|j: int| 0 <= j < self.threads@.len() && (#[trigger] self.threads@[j]).tid == tid
    }

    /// Some live thread carries this tid.
    pub open spec fn spec_thread_alive(self, tid: u32) -> bool {
        exists|j: int|
            0 <= j < self.threads@.len() && (#[trigger] self.threads@[j]).tid == tid
                && self.threads@[j].alive
    }

    /// The process with this pid has exited.
    pub open spec fn spec_process_exited(self, pid: u32) -> bool {
        exists|i: int|
            0 <= i < self.procs@.len() && (#[trigger] self.procs@[i]).pid == pid
                && self.procs@[i].exited
    }

    /// Well-formedness: pids and tids are unique, every thread belongs to a
    /// registered process, every action table has 32 entries, and an exited
    /// process has no live thread left.
    pub open spec fn wf(self) -> bool {
        &&& (forall|i: int, j: int|
            #![trigger self.procs@[i].pid, self.procs@[j].pid]
            0 <= i < j < self.procs@.len() ==> self.procs@[i].pid != self.procs@[j].pid)
        &&& (forall|i: int, j: int|
            #![trigger self.threads@[i].tid, self.threads@[j].tid]
            0 <= i < j < self.threads@.len() ==> self.threads@[i].tid != self.threads@[j].tid)
        &&& (forall|j: int|
            0 <= j < self.threads@.len() ==> self.spec_has_process(
                (#[trigger] self.threads@[j]).pid,
            ))
        &&& (forall|i: int|
            0 <= i < self.procs@.len() ==> (#[trigger] self.procs@[i]).actions@.len() == 32)
        &&& (forall|i: int, j: int|
            #![trigger self.procs@[i].exited, self.threads@[j].pid]
            0 <= i < self.procs@.len() && 0 <= j < self.threads@.len() && self.procs@[i].exited
                && self.threads@[j].pid == self.procs@[i].pid ==> !self.threads@[j].alive)
    }

    /// An empty registry.
    pub fn new() -> (r: Registry)
        ensures
            r.wf(),
            r.procs@.len() == 0,
            r.threads@.len() == 0,
    {
        Registry { procs: Vec::new(), threads: Vec::new() }
    }

    /// Index of the process with this pid, if registered.
    pub fn find_process(&self, pid: u32) -> (r: Option<usize>)
        ensures
            match r {
                Some(i) => i < self.procs@.len() && self.procs@[i as int].pid == pid,
                None => !self.spec_has_process(pid),
            },
    {
        let mut i: usize = 0;
        while i < self.procs.len()
            invariant
                i <= self.procs@.len(),
                forall|k: int| 0 <= k < i ==> (#[trigger] self.procs@[k]).pid != pid,
            decreases self.procs@.len() - i,
        {
            if self.procs[i].pid == pid {
                return Some(i);
            }
            i = i + 1;
        }
        None
    }

    /// Index of the thread with this tid, if registered.
    pub fn find_thread(&self, tid: u32) -> (r: Option<usize>)
        ensures
            match r {
                Some(j) => j < self.threads@.len() && self.threads@[j as int].tid == tid,
                None => !self.spec_has_thread(tid),
            },
    {
        let mut j: usize = 0;
        while j < self.threads.len()
            invariant
                j <= self.threads@.len(),
                forall|k: int| 0 <= k < j ==> (#[trigger] self.threads@[k]).tid != tid,
            decreases self.threads@.len() - j,
        {
            if self.threads[j].tid == tid {
                return Some(j);
            }
            j = j + 1;
        }
        None
    }

    /// Register a process, as process construction does: action table all
    /// `Default`, shared queue empty, flags clear. Fails only on a duplicate
    /// pid.
    pub fn add_process(&mut self, pid: u32) -> (r: bool)
        requires
            old(self).wf(),
        ensures
            final(self).wf(),
            r == !old(self).spec_has_process(pid),
            !r ==> *final(self) == *old(self),
            r ==> final(self).threads@ == old(self).threads@,
            r ==> final(self).procs@.len() == old(self).procs@.len() + 1,
            r ==> final(self).procs@.subrange(0, old(self).procs@.len() as int) == old(
                self,
            ).procs@,
            r ==> {
                let p = final(self).procs@.last();
                &&& p.pid == pid
                &&& !p.exited
                &&& !p.group_exiting
                &&& !p.stopped
                &&& p.shared_pending@.len() == 0
                &&& p.actions@.len() == 32
                &&& forall|k: int|
                    0 <= k < 32 ==> p.actions@[k] == (SignalAction {
                        disposition: SigDisposition::Default,
                    })
            },
    {
        match self.find_process(pid) {
            Some(_) => false,
            None => {
                let actions = default_actions();
                self.procs.push(
                    Process {
                        pid,
                        exited: false,
                        group_exiting: false,
                        stopped: false,
                        actions,
                        shared_pending: Vec::new(),
                    },
                );
                proof {
                    assert(final(self).procs@.subrange(0, old(self).procs@.len() as int) =~= old(
                        self,
                    ).procs@);
                }
                true
            },
        }
    }

    /// Register a thread of an existing, not yet exited process, as thread
    /// construction does: blocked mask and pending queue empty.
    pub fn add_thread(&mut self, tid: u32, pid: u32) -> (r: bool)
        requires
            old(self).wf(),
        ensures
            final(self).wf(),
            r == (old(self).spec_has_process(pid) && !old(self).spec_has_thread(tid) && !old(
                self,
            ).spec_process_exited(pid)),
            !r ==> *final(self) == *old(self),
            r ==> final(self).procs@ == old(self).procs@,
            r ==> final(self).threads@.len() == old(self).threads@.len() + 1,
            r ==> final(self).threads@.subrange(0, old(self).threads@.len() as int) == old(
                self,
            ).threads@,
            r ==> {
                let t = final(self).threads@.last();
                &&& t.tid == tid
                &&& t.pid == pid
                &&& t.alive
                &&& t.exit_code == 0
                &&& t.pending@.len() == 0
                &&& forall|s: u32| valid_signal(s) ==> !t.blocked.spec_has(s)
            },
    {
        let pi = match self.find_process(pid) {
            Some(i) => i,
            None => {
                return false;
            },
        };
        if self.procs[pi].exited {
            proof {
                assert(old(self).spec_process_exited(pid));
            }
            return false;
        }
        if let Some(_) = self.find_thread(tid) {
            return false;
        }
        self.threads.push(
            Thread {
                tid,
                pid,
                alive: true,
                exit_code: 0,
                blocked: SigMask::empty(),
                pending: Vec::new(),
            },
        );
        proof {
            assert(final(self).threads@.subrange(0, old(self).threads@.len() as int) =~= old(
                self,
            ).threads@);
            assert(!old(self).spec_process_exited(pid)) by {
                assert(forall|i: int|
                    0 <= i < old(self).procs@.len() && (#[trigger] old(self).procs@[i]).pid == pid
                        ==> i == pi as int);
            }
        }
        true
    }
}

/// Well-formedness is untouched by changes that leave every identity,
/// liveness and table length in place: pushes onto pending or shared queues,
/// blocked-mask updates, action-table rewrites, stop/continue flags.
pub proof fn lemma_wf_preserved(pre: Registry, post: Registry)
    requires
        pre.wf(),
        post.procs@.len() == pre.procs@.len(),
        post.threads@.len() == pre.threads@.len(),
        forall|i: int|
            0 <= i < pre.procs@.len() ==> (#[trigger] post.procs@[i]).pid == pre.procs@[i].pid
                && post.procs@[i].exited == pre.procs@[i].exited && post.procs@[i].actions@.len()
                == pre.procs@[i].actions@.len(),
        forall|j: int|
            0 <= j < pre.threads@.len() ==> (#[trigger] post.threads@[j]).tid
                == pre.threads@[j].tid && post.threads@[j].pid == pre.threads@[j].pid
                && post.threads@[j].alive == pre.threads@[j].alive,
    ensures
        post.wf(),
{
    assert forall|j: int| 0 <= j < post.threads@.len() implies post.spec_has_process(
        (#[trigger] post.threads@[j]).pid,
    ) by {
        assert(pre.spec_has_process(pre.threads@[j].pid));
        let i = choose|i: int|
            0 <= i < pre.procs@.len() && (#[trigger] pre.procs@[i]).pid == pre.threads@[j].pid;
        assert(post.procs@[i].pid == post.threads@[j].pid);
    }
}

/// Whether a pending queue already holds the signal `s`.
pub(crate) fn queue_holds(q: &Vec<Signal>, s: Signal) -> (r: bool)
    ensures
        r == q@.contains(s),
{
    let mut i: usize = 0;
    while i < q.len()
        invariant
            i <= q@.len(),
            forall|k: int| 0 <= k < i ==> q@[k] != s,
        decreases q@.len() - i,
    {
        if q[i] == s {
            return true;
        }
        i = i + 1;
    }
    false
}

/// A fresh action table: 32 entries, all `Default`.
fn default_actions() -> (r: Vec<SignalAction>)
    ensures
        r@.len() == 32,
        forall|k: int|
            0 <= k < 32 ==> r@[k] == (SignalAction { disposition: SigDisposition::Default }),
{
    let mut v: Vec<SignalAction> = Vec::new();
    let mut i: usize = 0;
    while i < 32
        invariant
            i <= 32,
            v@.len() == i,
            forall|k: int|
                0 <= k < i ==> v@[k] == (SignalAction { disposition: SigDisposition::Default }),
        decreases 32 - i,
    {
        v.push(SignalAction { disposition: SigDisposition::Default });
        i = i + 1;
    }
    v
}

} // verus!
