//! Ordering and masking laws of the subsystem, proved once and for all:
//! masking never loses or duplicates a queued signal, delivery is FIFO
//! among deliverable entries, and a blocked signal is skipped, never
//! discarded.

use vstd::prelude::*;
use crate::action::SignalAction;
use crate::action::spec_resolve;
use crate::catalog::Signal;
use crate::catalog::sig_num;
use crate::catalog::signal_of;
use crate::delivery::deliver_spec;
use crate::dispatch::eligible;
use crate::dispatch::raise_merged;
use crate::mask::SigMask;
use crate::registry::Registry;
use crate::registry::Thread;
use crate::registry::same_thread_except_pending;

verus! {

/// How often `s` occurs in `q`.
pub open spec fn count_sig(q: Seq<Signal>, s: Signal) -> nat
    decreases q.len(),
{
    if q.len() == 0 {
        0
    } else {
        (if q[0] == s {
            1nat
        } else {
            0nat
        }) + count_sig(q.drop_first(), s)
    }
}

/// Masking a signal keeps it queued, exactly as often as it was: a thread
/// that blocks `sig` is never picked by a process-directed raise — the
/// raise lands on an eligible sibling or on the shared queue — so the
/// blocking thread's private queue is unchanged. `post` relates to `pre` as
/// the contract of `send_signal_proc` states for a successful raise.
pub proof fn lemma_raise_proc_blocked_queue_unchanged(
    pre: Registry,
    post: Registry,
    pid: u32,
    sig: u32,
    t: int,
)
    requires
        0 <= t < pre.threads@.len(),
        pre.threads@[t].blocked.spec_has(sig),
        post.threads@.len() == pre.threads@.len(),
        post.threads@ == pre.threads@ || exists|j: int|
            {
                &&& 0 <= j < pre.threads@.len()
                &&& eligible(#[trigger] pre.threads@[j], pid, sig)
                &&& post.threads@[j].pending@ == pre.threads@[j].pending@.push(signal_of(sig))
                &&& same_thread_except_pending(post.threads@[j], pre.threads@[j])
                &&& forall|k: int|
                    0 <= k < pre.threads@.len() && k != j ==> post.threads@[k] == pre.threads@[k]
            },
    ensures
        post.threads@[t].pending@ == pre.threads@[t].pending@,
{
    if post.threads@ != pre.threads@ {
        let j = choose|j: int|
            {
                &&& 0 <= j < pre.threads@.len()
                &&& eligible(#[trigger] pre.threads@[j], pid, sig)
                &&& post.threads@[j].pending@ == pre.threads@[j].pending@.push(signal_of(sig))
                &&& same_thread_except_pending(post.threads@[j], pre.threads@[j])
                &&& forall|k: int|
                    0 <= k < pre.threads@.len() && k != j ==> post.threads@[k] == pre.threads@[k]
            };
        assert(!pre.threads@[j].blocked.spec_has(sig));
        assert(j != t);
    }
}

/// A signal occurs in a queue exactly when it is counted at least once.
pub proof fn lemma_count_sig_contains(q: Seq<Signal>, s: Signal)
    ensures
        (count_sig(q, s) > 0) == q.contains(s),
    decreases q.len(),
{
    if q.len() == 0 {
        assert(!q.contains(s));
    } else {
        let rest = q.drop_first();
        lemma_count_sig_contains(rest, s);
        if q[0] == s {
            assert(q.contains(s));
        } else {
            if q.contains(s) {
                let w = choose|w: int| 0 <= w < q.len() && q[w] == s;
                assert(rest[w - 1] == s);
                assert(rest.contains(s));
            }
            if rest.contains(s) {
                let w = choose|w: int| 0 <= w < rest.len() && rest[w] == s;
                assert(q[w + 1] == s);
                assert(q.contains(s));
            }
        }
    }
}

/// A thread-directed raise never duplicates: a signal queued exactly once
/// at the target is merged, not appended, so it remains queued exactly
/// once. `post` relates to `pre` as the contract of `send_signal_thread`
/// states for a successful raise at this thread.
pub proof fn lemma_raise_thread_queued_once(pre: Thread, post: Thread, s: Signal)
    requires
        count_sig(pre.pending@, s) == 1,
        raise_merged(post, pre, s),
    ensures
        count_sig(post.pending@, s) == 1,
{
    lemma_count_sig_contains(pre.pending@, s);
}

/// Delivery skips a blocked signal in place: however often `s` was queued,
/// it is queued just as often after a delivery pass that blocks it —
/// neither lost nor duplicated, until it is unblocked.
pub proof fn lemma_delivery_keeps_blocked(
    q: Seq<Signal>,
    blocked: SigMask,
    acts: Seq<SignalAction>,
    s: Signal,
)
    requires
        blocked.spec_has(sig_num(s)),
    ensures
        count_sig(deliver_spec(q, blocked, acts).0, s) == count_sig(q, s),
    decreases q.len(),
{
    if q.len() == 0 {
    } else {
        let h = q[0];
        let rest = q.drop_first();
        lemma_delivery_keeps_blocked(rest, blocked, acts, s);
        if blocked.spec_has(sig_num(h)) {
            let r0 = deliver_spec(rest, blocked, acts).0;
            assert((seq![h] + r0)[0] == h);
            assert((seq![h] + r0).drop_first() =~= r0);
        } else {
            assert(h != s);
        }
    }
}

/// An entry the delivery machine may act on: not blocked, and resolving to
/// an action.
pub open spec fn deliverable(s: Signal, blocked: SigMask, acts: Seq<SignalAction>) -> bool {
    &&& !blocked.spec_has(sig_num(s))
    &&& spec_resolve(acts[sig_num(s) as int].disposition, sig_num(s) as int) is Some
}

/// Delivery never reorders: the entry it acts on is the earliest
/// deliverable entry of the queue — every earlier entry is blocked or
/// resolves to nothing — and when it acts on none, no entry was
/// deliverable.
pub proof fn lemma_delivery_picks_first_deliverable(
    q: Seq<Signal>,
    blocked: SigMask,
    acts: Seq<SignalAction>,
)
    ensures
        match deliver_spec(q, blocked, acts).1 {
            Some(p) => exists|x: int|
                {
                    &&& 0 <= x < q.len()
                    &&& #[trigger] q[x] == p.0
                    &&& deliverable(q[x], blocked, acts)
                    &&& spec_resolve(acts[sig_num(q[x]) as int].disposition, sig_num(q[x]) as int)
                        == Some(p.1)
                    &&& forall|y: int| 0 <= y < x ==> !deliverable(#[trigger] q[y], blocked, acts)
                },
            None => forall|y: int| 0 <= y < q.len() ==> !deliverable(#[trigger] q[y], blocked, acts),
        },
    decreases q.len(),
{
    if q.len() == 0 {
    } else {
        let h = q[0];
        let rest = q.drop_first();
        lemma_delivery_picks_first_deliverable(rest, blocked, acts);
        if deliverable(h, blocked, acts) {
            assert(q[0] == h);
        } else {
            match deliver_spec(q, blocked, acts).1 {
                Some(p) => {
                    let x = choose|x: int|
                        {
                            &&& 0 <= x < rest.len()
                            &&& #[trigger] rest[x] == p.0
                            &&& deliverable(rest[x], blocked, acts)
                            &&& spec_resolve(
                                acts[sig_num(rest[x]) as int].disposition,
                                sig_num(rest[x]) as int,
                            ) == Some(p.1)
                            &&& forall|y: int|
                                0 <= y < x ==> !deliverable(#[trigger] rest[y], blocked, acts)
                        };
                    assert(q[x + 1] == rest[x]);
                    assert(forall|y: int|
                        1 <= y < x + 1 ==> !deliverable(#[trigger] q[y], blocked, acts)) by {
                        assert(forall|y: int| 1 <= y < x + 1 ==> q[y] == rest[y - 1]);
                    }
                },
                None => {
                    assert(forall|y: int| 1 <= y < q.len() ==> q[y] == rest[y - 1]);
                },
            }
        }
    }
}

/// FIFO: with `a` raised before `b` at a thread that blocks neither, and
/// both resolving to an action, the next delivery acts on `a` and leaves
/// `b` queued; the one after that acts on `b`.
pub proof fn lemma_fifo_two(a: Signal, b: Signal, blocked: SigMask, acts: Seq<SignalAction>)
    requires
        !blocked.spec_has(sig_num(a)),
        !blocked.spec_has(sig_num(b)),
        spec_resolve(acts[sig_num(a) as int].disposition, sig_num(a) as int) is Some,
        spec_resolve(acts[sig_num(b) as int].disposition, sig_num(b) as int) is Some,
    ensures
        deliver_spec(seq![a, b], blocked, acts).1 matches Some(p) && p.0 == a,
        deliver_spec(seq![a, b], blocked, acts).0 == seq![b],
        deliver_spec(seq![b], blocked, acts).1 matches Some(p) && p.0 == b,
        deliver_spec(seq![b], blocked, acts).0 == Seq::<Signal>::empty(),
{
    assert(seq![a, b].drop_first() =~= seq![b]);
    assert(seq![b].drop_first() =~= Seq::<Signal>::empty());
}

/// Skip-not-discard: a deliverable signal `s` queued behind any number of
/// blocked entries is still delivered — the blocked entries are left in
/// place, in order, and `s` is removed and acted on.
pub proof fn lemma_skip_not_discard(
    q: Seq<Signal>,
    mask: SigMask,
    acts: Seq<SignalAction>,
    s: Signal,
)
    requires
        forall|k: int| 0 <= k < q.len() ==> mask.spec_has(sig_num(#[trigger] q[k])),
        !mask.spec_has(sig_num(s)),
        spec_resolve(acts[sig_num(s) as int].disposition, sig_num(s) as int) is Some,
    ensures
        deliver_spec(q.push(s), mask, acts).0 == q,
        deliver_spec(q.push(s), mask, acts).1 matches Some(p) && p.0 == s,
    decreases q.len(),
{
    if q.len() == 0 {
        assert(q.push(s)[0] == s);
        assert(q.push(s).drop_first() =~= q);
    } else {
        let h = q[0];
        let rest = q.drop_first();
        assert(q.push(s)[0] == h);
        assert(q.push(s).drop_first() =~= rest.push(s));
        assert(forall|k: int| 0 <= k < rest.len() ==> mask.spec_has(sig_num(#[trigger] rest[k])));
        lemma_skip_not_discard(rest, mask, acts, s);
        assert(seq![h] + rest =~= q);
    }
}

} // verus!
