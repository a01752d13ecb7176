use vstd::prelude::*;
use std::collections::{BTreeMap, BTreeSet, VecDeque};
use crate::bitmap::{BitMap, bit_updated};
use crate::config::{MAX_THREAD_NUM, PRIO_NUM};
use crate::coroutine::{CidHandle, Coroutine, CoroutineInner, CoroutineKind, CoroutineWaker};

verus! {

broadcast use {vstd::std_specs::btree::group_btree_axioms, vstd::laws_cmp::group_laws_cmp};

/// An executor that keeps, for each thread, one first-in first-out queue per priority.
/// Each thread's list of queues starts empty; a priority can only be queued once that
/// thread's list holds a queue for it.
pub struct Runtime {
    /// The coroutine last fetched on each thread.
    pub currents: Vec<Option<CidHandle>>,
    /// The coroutines, by id.
    pub tasks: BTreeMap<usize, Coroutine>,
    /// `ready_queue[t][p]` is the queue of thread `t` at priority `p`.
    pub ready_queue: Vec<Vec<VecDeque<usize>>>,
    /// The ids of the pending coroutines of each thread.
    pub pending_set: Vec<BTreeSet<usize>>,
    /// Priority `p` is marked when something was queued at `p`.
    pub bitmap: BitMap,
    /// The highest priority queued in the process, `PRIO_NUM` when none is.
    pub max_prio: usize,
    /// The priority that each thread runs next.
    pub thread_prio: Vec<usize>,
    /// The executor's waiting thread ids.
    pub waits: Vec<usize>,
    /// The next coroutine id to hand out.
    pub cid_counter: usize,
}

impl Runtime {
    /// The queue of thread `t` at priority `p`.
    pub open spec fn queue(&self, t: int, p: int) -> Seq<usize> {
        self.ready_queue@[t]@[p]@
    }

    /// The lengths of the per-thread arrays.
    pub open spec fn wf(&self) -> bool {
        &&& self.currents@.len() == MAX_THREAD_NUM
        &&& self.ready_queue@.len() == MAX_THREAD_NUM
        &&& self.pending_set@.len() == MAX_THREAD_NUM
        &&& self.thread_prio@.len() == MAX_THREAD_NUM
    }

    /// `post` has the queues of `pre`, except that `c` was put at the back of the queue of
    /// thread `tid` at priority `p`.
    pub open spec fn queued(pre: Runtime, post: Runtime, tid: int, p: int, c: usize) -> bool {
        &&& post.ready_queue@.len() == pre.ready_queue@.len()
        &&& forall|t: int| 0 <= t < pre.ready_queue@.len() ==> #[trigger] post.ready_queue@[t]@.len() == pre.ready_queue@[t]@.len()
        &&& forall|t: int, q: int|
            0 <= t < pre.ready_queue@.len() && 0 <= q < pre.ready_queue@[t]@.len() ==> #[trigger] post.queue(t, q) == if t == tid && q == p {
                pre.queue(t, q).push(c)
            } else {
                pre.queue(t, q)
            }
    }

    /// An executor with nothing queued, every priority at `PRIO_NUM`, and an empty list of
    /// queues for each thread.
    pub fn new() -> (rt: Runtime)
        ensures
            rt.wf(),
            rt.tasks@ == Map::<usize, Coroutine>::empty(),
            forall|t: int| 0 <= t < MAX_THREAD_NUM ==> #[trigger] rt.ready_queue@[t]@.len() == 0,
            forall|t: int| 0 <= t < MAX_THREAD_NUM ==> #[trigger] rt.pending_set@[t]@ == Set::<usize>::empty(),
            forall|t: int| 0 <= t < MAX_THREAD_NUM ==> #[trigger] rt.currents@[t] is None,
            forall|t: int| 0 <= t < MAX_THREAD_NUM ==> #[trigger] rt.thread_prio@[t] == PRIO_NUM,
            forall|p: usize| p < usize::BITS ==> !#[trigger] rt.bitmap.has(p),
            rt.max_prio == PRIO_NUM,
            rt.cid_counter == 0,
            rt.waits@.len() == 0,
    {
        let mut currents: Vec<Option<CidHandle>> = Vec::new();
        let mut ready_queue: Vec<Vec<VecDeque<usize>>> = Vec::new();
        let mut pending_set: Vec<BTreeSet<usize>> = Vec::new();
        let mut thread_prio: Vec<usize> = Vec::new();
        let mut t: usize = 0;
        while t < MAX_THREAD_NUM
            invariant
                t <= MAX_THREAD_NUM,
                currents@.len() == t,
                ready_queue@.len() == t,
                pending_set@.len() == t,
                thread_prio@.len() == t,
                forall|j: int| 0 <= j < t ==> #[trigger] currents@[j] is None,
                forall|j: int| 0 <= j < t ==> #[trigger] ready_queue@[j]@.len() == 0,
                forall|j: int| 0 <= j < t ==> #[trigger] pending_set@[j]@ == Set::<usize>::empty(),
                forall|j: int| 0 <= j < t ==> #[trigger] thread_prio@[j] == PRIO_NUM,
            decreases MAX_THREAD_NUM - t,
        {
            currents.push(None);
            ready_queue.push(Vec::new());
            pending_set.push(BTreeSet::new());
            thread_prio.push(PRIO_NUM);
            t = t + 1;
        }
        Runtime {
            currents,
            tasks: BTreeMap::new(),
            ready_queue,
            pending_set,
            bitmap: BitMap::new(),
            max_prio: PRIO_NUM,
            thread_prio,
            waits: Vec::new(),
            cid_counter: 0,
        }
    }

    /// An executor like the one `new` makes, except that its process priority and thread
    /// priorities all start at `idle`.
    pub fn with_idle_prio(idle: usize) -> (rt: Runtime)
        ensures
            rt.wf(),
            rt.tasks@ == Map::<usize, Coroutine>::empty(),
            forall|t: int| 0 <= t < MAX_THREAD_NUM ==> #[trigger] rt.ready_queue@[t]@.len() == 0,
            forall|t: int| 0 <= t < MAX_THREAD_NUM ==> #[trigger] rt.pending_set@[t]@ == Set::<usize>::empty(),
            forall|t: int| 0 <= t < MAX_THREAD_NUM ==> #[trigger] rt.currents@[t] is None,
            forall|t: int| 0 <= t < MAX_THREAD_NUM ==> #[trigger] rt.thread_prio@[t] == idle,
            forall|p: usize| p < usize::BITS ==> !#[trigger] rt.bitmap.has(p),
            rt.max_prio == idle,
            rt.cid_counter == 0,
            rt.waits@.len() == 0,
    {
        let mut rt = Runtime::new();
        let ghost fresh = rt;
        rt.max_prio = idle;
        let mut t: usize = 0;
        while t < MAX_THREAD_NUM
            invariant
                t <= MAX_THREAD_NUM,
                rt.thread_prio@.len() == MAX_THREAD_NUM,
                forall|j: int| 0 <= j < t ==> #[trigger] rt.thread_prio@[j] == idle,
                rt.max_prio == idle,
                rt.currents == fresh.currents,
                rt.tasks == fresh.tasks,
                rt.ready_queue == fresh.ready_queue,
                rt.pending_set == fresh.pending_set,
                rt.bitmap == fresh.bitmap,
                rt.waits == fresh.waits,
                rt.cid_counter == fresh.cid_counter,
            decreases MAX_THREAD_NUM - t,
        {
            rt.thread_prio.set(t, idle);
            t = t + 1;
        }
        rt
    }

    /// Adds a coroutine for thread `tid` at the back of that thread's queue at priority
    /// `prio`, marks `prio` in the bitmap, and raises the process and thread priorities to
    /// `prio` where it is higher. The coroutine record holds `prio`, `pid` and `tid` as its
    /// priority, process and thread.
    pub fn spawn(&mut self, pid: usize, tid: usize, prio: usize, kind: CoroutineKind) -> (cid: usize)
        requires
            old(self).wf(),
            tid < MAX_THREAD_NUM,
            prio < old(self).ready_queue@[tid as int]@.len(),
            prio < usize::BITS,
            old(self).cid_counter <= usize::MAX / 2,
        ensures
            final(self).wf(),
            cid == old(self).cid_counter,
            final(self).cid_counter == old(self).cid_counter + 1,
            final(self).tasks@ == old(self).tasks@.insert(
                cid,
                Coroutine {
                    pid,
                    tid,
                    cid: CidHandle(cid),
                    kind,
                    inner: CoroutineInner { prio, waker: CoroutineWaker(CidHandle(cid)) },
                },
            ),
            Self::queued(*old(self), *final(self), tid as int, prio as int, cid),
            bit_updated(old(self).bitmap, final(self).bitmap, prio, true),
            final(self).max_prio == if prio < old(self).max_prio { prio } else { old(self).max_prio },
            final(self).thread_prio@ == old(self).thread_prio@.update(
                tid as int,
                if prio < old(self).thread_prio@[tid as int] { prio } else { old(self).thread_prio@[tid as int] },
            ),
            final(self).pending_set@ == old(self).pending_set@,
            final(self).currents@ == old(self).currents@,
            final(self).waits@ == old(self).waits@,
    {
        let task = Coroutine::new(prio, pid, tid, kind, &mut self.cid_counter);
        let cid = task.cid;
        self.ready_queue[tid][prio].push_back(cid.0);
        self.tasks.insert(cid.0, task);
        self.bitmap.update(prio, true);
        if prio < self.max_prio {
            self.max_prio = prio;
        }
        if prio < self.thread_prio[tid] {
            self.thread_prio.set(tid, prio);
        }
        cid.0
    }

    /// Drops coroutine `cid` from the executor; its queue entries stay where they are.
    pub fn del_coroutine(&mut self, cid: CidHandle)
        ensures
            final(self).tasks@ == old(self).tasks@.remove(cid.0),
            final(self).ready_queue@ == old(self).ready_queue@,
            final(self).pending_set@ == old(self).pending_set@,
            final(self).bitmap == old(self).bitmap,
            final(self).max_prio == old(self).max_prio,
            final(self).thread_prio@ == old(self).thread_prio@,
            final(self).currents@ == old(self).currents@,
            final(self).waits@ == old(self).waits@,
            final(self).cid_counter == old(self).cid_counter,
    {
        self.tasks.remove(&cid.0);
    }

    /// Records coroutine id `cid` as pending on thread `tid`.
    pub fn pending_coroutine(&mut self, tid: usize, cid: usize)
        requires
            old(self).wf(),
            tid < MAX_THREAD_NUM,
        ensures
            final(self).wf(),
            final(self).pending_set@[tid as int]@ == old(self).pending_set@[tid as int]@.insert(cid),
            forall|t: int| 0 <= t < MAX_THREAD_NUM && t != tid ==> #[trigger] final(self).pending_set@[t] == old(self).pending_set@[t],
            final(self).tasks@ == old(self).tasks@,
            final(self).ready_queue@ == old(self).ready_queue@,
            final(self).bitmap == old(self).bitmap,
            final(self).max_prio == old(self).max_prio,
            final(self).thread_prio@ == old(self).thread_prio@,
            final(self).currents@ == old(self).currents@,
            final(self).waits@ == old(self).waits@,
            final(self).cid_counter == old(self).cid_counter,
    {
        self.pending_set[tid].insert(cid);
    }

    /// Puts coroutine `cid` at the back of the queue of thread `tid` at its priority `p`,
    /// marks `p`, raises the thread and process priorities to `p` where it is higher, drops
    /// `cid` from the thread's pending set, and returns the thread's priority.
    pub fn pull_to_ready(&mut self, tid: usize, cid: CidHandle) -> (r: usize)
        requires
            old(self).wf(),
            tid < MAX_THREAD_NUM,
            old(self).tasks@.contains_key(cid.0),
            old(self).tasks@[cid.0].inner.prio < old(self).ready_queue@[tid as int]@.len(),
            old(self).tasks@[cid.0].inner.prio < usize::BITS,
        ensures
            final(self).wf(),
            ({
                let p = old(self).tasks@[cid.0].inner.prio;
                &&& Self::queued(*old(self), *final(self), tid as int, p as int, cid.0)
                &&& bit_updated(old(self).bitmap, final(self).bitmap, p, true)
                &&& final(self).max_prio == if p < old(self).max_prio { p } else { old(self).max_prio }
                &&& final(self).thread_prio@ == old(self).thread_prio@.update(
                    tid as int,
                    if p < old(self).thread_prio@[tid as int] { p } else { old(self).thread_prio@[tid as int] },
                )
            }),
            r == final(self).thread_prio@[tid as int],
            final(self).pending_set@[tid as int]@ == old(self).pending_set@[tid as int]@.remove(cid.0),
            forall|t: int| 0 <= t < MAX_THREAD_NUM && t != tid ==> #[trigger] final(self).pending_set@[t] == old(self).pending_set@[t],
            final(self).tasks@ == old(self).tasks@,
            final(self).currents@ == old(self).currents@,
            final(self).waits@ == old(self).waits@,
            final(self).cid_counter == old(self).cid_counter,
    {
        let prio = self.tasks.get(&cid.0).unwrap().inner.prio;
        self.ready_queue[tid][prio].push_back(cid.0);
        self.bitmap.update(prio, true);
        if prio < self.thread_prio[tid] {
            self.thread_prio.set(tid, prio);
        }
        if prio < self.max_prio {
            self.max_prio = prio;
        }
        self.pending_set[tid].remove(&cid.0);
        self.thread_prio[tid]
    }

    /// Whether thread `tid` holds coroutine id `cid` as pending.
    pub fn is_pending(&self, tid: usize, cid: usize) -> (b: bool)
        requires
            self.wf(),
            tid < MAX_THREAD_NUM,
        ensures
            b == self.pending_set@[tid as int]@.contains(cid),
    {
        self.pending_set[tid].contains(&cid)
    }

    /// Whether the executor holds no coroutine at all.
    pub fn is_empty(&self) -> (b: bool)
        ensures
            b == self.tasks@.is_empty(),
    {
        self.tasks.is_empty()
    }

    /// Takes what thread `tid` runs next. When nothing is queued in the process (its priority
    /// is `PRIO_NUM`), the thread's current coroutine is cleared and nothing is returned.
    /// Otherwise the front of the thread's queue at the thread's priority is taken off and
    /// becomes the thread's current coroutine, and its record is returned; when that queue is
    /// left empty, the process priority's mark is cleared and the process priority becomes
    /// the lowest marked one.
    pub fn fetch_coroutine(&mut self, tid: usize) -> (r: Option<Coroutine>)
        requires
            old(self).wf(),
            tid < MAX_THREAD_NUM,
            old(self).max_prio != PRIO_NUM ==> {
                let tp = old(self).thread_prio@[tid as int];
                &&& tp < old(self).ready_queue@[tid as int]@.len()
                &&& old(self).queue(tid as int, tp as int).len() > 0
                &&& old(self).tasks@.contains_key(old(self).queue(tid as int, tp as int)[0])
                &&& old(self).max_prio < usize::BITS
            },
        ensures
            final(self).wf(),
            old(self).max_prio == PRIO_NUM ==> {
                &&& r is None
                &&& final(self).currents@ == old(self).currents@.update(tid as int, None)
                &&& final(self).ready_queue@ == old(self).ready_queue@
                &&& final(self).bitmap == old(self).bitmap
                &&& final(self).max_prio == old(self).max_prio
            },
            old(self).max_prio != PRIO_NUM ==> {
                let tp = old(self).thread_prio@[tid as int];
                let q = old(self).queue(tid as int, tp as int);
                let c = q[0];
                &&& r == Some(old(self).tasks@[c])
                &&& final(self).currents@ == old(self).currents@.update(tid as int, Some(CidHandle(c)))
                &&& final(self).ready_queue@.len() == old(self).ready_queue@.len()
                &&& forall|t: int| 0 <= t < MAX_THREAD_NUM ==> #[trigger] final(self).ready_queue@[t]@.len() == old(self).ready_queue@[t]@.len()
                &&& forall|t: int, p: int|
                    0 <= t < MAX_THREAD_NUM && 0 <= p < old(self).ready_queue@[t]@.len() ==> #[trigger] final(self).queue(t, p) == if t == tid && p == tp {
                        q.drop_first()
                    } else {
                        old(self).queue(t, p)
                    }
                &&& q.len() == 1 ==> bit_updated(old(self).bitmap, final(self).bitmap, old(self).max_prio, false)
                    && final(self).max_prio == final(self).bitmap.lowest()
                &&& q.len() > 1 ==> final(self).bitmap == old(self).bitmap && final(self).max_prio == old(self).max_prio
            },
            final(self).tasks@ == old(self).tasks@,
            final(self).pending_set@ == old(self).pending_set@,
            final(self).thread_prio@ == old(self).thread_prio@,
            final(self).waits@ == old(self).waits@,
            final(self).cid_counter == old(self).cid_counter,
    {
        let prio = self.max_prio;
        if prio == PRIO_NUM {
            self.currents.set(tid, None);
            return None;
        }
        let thread_p = self.thread_prio[tid];
        let cid = self.ready_queue[tid][thread_p].pop_front().unwrap();
        let task = *self.tasks.get(&cid).unwrap();
        if self.ready_queue[tid][thread_p].len() == 0 {
            self.bitmap.update(prio, false);
            self.max_prio = self.bitmap.get_priority();
        }
        self.currents.set(tid, Some(CidHandle(cid)));
        Some(task)
    }

    /// The end of running coroutine `cid` once on thread `tid`: a finished coroutine
    /// (`ready`) is dropped from the executor, an unfinished one is recorded as pending on the
    /// thread. Nothing else changes.
    pub fn run_finish(&mut self, tid: usize, cid: CidHandle, ready: bool)
        requires
            old(self).wf(),
            tid < MAX_THREAD_NUM,
        ensures
            final(self).wf(),
            final(self).tasks@ == if ready { old(self).tasks@.remove(cid.0) } else { old(self).tasks@ },
            final(self).pending_set@ == if ready {
                old(self).pending_set@
            } else {
                old(self).pending_set@.update(
                    tid as int,
                    final(self).pending_set@[tid as int],
                )
            },
            !ready ==> final(self).pending_set@[tid as int]@ == old(self).pending_set@[tid as int]@.insert(cid.0),
            final(self).ready_queue@ == old(self).ready_queue@,
            final(self).bitmap == old(self).bitmap,
            final(self).max_prio == old(self).max_prio,
            final(self).thread_prio@ == old(self).thread_prio@,
            final(self).currents@ == old(self).currents@,
            final(self).waits@ == old(self).waits@,
            final(self).cid_counter == old(self).cid_counter,
    {
        if ready {
            self.del_coroutine(cid);
        } else {
            self.pending_coroutine(tid, cid.0);
            proof {
                assert(self.pending_set@ =~= old(self).pending_set@.update(tid as int, self.pending_set@[tid as int]));
            }
        }
    }
}

/// A queue hands coroutines out in the order they were queued: two coroutines queued one
/// after the other into an empty queue stand there first and second.
pub proof fn law_queue_keeps_order(rt0: Runtime, rt1: Runtime, rt2: Runtime, tid: int, p: int, a: usize, b: usize)
    requires
        0 <= tid < rt0.ready_queue@.len(),
        0 <= p < rt0.ready_queue@[tid]@.len(),
        rt0.queue(tid, p).len() == 0,
        Runtime::queued(rt0, rt1, tid, p, a),
        Runtime::queued(rt1, rt2, tid, p, b),
    ensures
        rt2.queue(tid, p) == seq![a, b],
        rt2.queue(tid, p)[0] == a,
{
    assert(rt1.queue(tid, p) == rt0.queue(tid, p).push(a));
    assert(rt2.queue(tid, p) == rt1.queue(tid, p).push(b));
    assert(rt2.queue(tid, p) =~= seq![a, b]);
}

/// Queueing is first in, first out for any number of coroutines: queueing `c` leaves every
/// coroutine already in the queue where it stood and puts `c` behind all of them, so it is
/// taken after each of them.
pub proof fn law_queueing_appends(pre: Runtime, post: Runtime, tid: int, p: int, c: usize)
    requires
        0 <= tid < pre.ready_queue@.len(),
        0 <= p < pre.ready_queue@[tid]@.len(),
        Runtime::queued(pre, post, tid, p, c),
    ensures
        post.queue(tid, p).len() == pre.queue(tid, p).len() + 1,
        post.queue(tid, p).last() == c,
        forall|i: int| 0 <= i < pre.queue(tid, p).len() ==> #[trigger] post.queue(tid, p)[i] == pre.queue(tid, p)[i],
{
}

/// Queueing three coroutines one after the other into any queue, they stand behind what was
/// there in the order they were queued.
pub proof fn law_queue_order_of_three(rt0: Runtime, rt1: Runtime, rt2: Runtime, rt3: Runtime, tid: int, p: int, a: usize, b: usize, c: usize)
    requires
        0 <= tid < rt0.ready_queue@.len(),
        0 <= p < rt0.ready_queue@[tid]@.len(),
        Runtime::queued(rt0, rt1, tid, p, a),
        Runtime::queued(rt1, rt2, tid, p, b),
        Runtime::queued(rt2, rt3, tid, p, c),
    ensures
        rt3.queue(tid, p) == rt0.queue(tid, p) + seq![a, b, c],
{
    assert(rt3.queue(tid, p) =~= rt0.queue(tid, p) + seq![a, b, c]);
}

} // verus!
