use vstd::prelude::*;
use std::collections::{BTreeMap, BTreeSet};
use crate::bitmap::{BitMap, bit_updated};
use crate::config::{MAX_THREAD_NUM, PRIO_NUM};
use crate::coroutine::{CidHandle, Coroutine, CoroutineInner, CoroutineKind, CoroutineWaker};
use crate::least::{first_of, is_least};

verus! {

broadcast use {vstd::std_specs::btree::group_btree_axioms, vstd::laws_cmp::group_laws_cmp};

/// The executor of one process: its coroutines, the per-thread ready sets of each priority,
/// the per-thread pending sets, and the priority bitmaps that summarise them.
pub struct Runtime {
    /// The coroutine last fetched on each thread.
    pub currents: Vec<Option<CidHandle>>,
    /// The coroutines, by id.
    pub tasks: BTreeMap<usize, Coroutine>,
    /// The ready set of thread `t` at priority `p` sits at `t * PRIO_NUM + p - 1`.
    pub ready_queue: Vec<BTreeSet<usize>>,
    /// The ids of the pending coroutines of each thread.
    pub pending_set: Vec<BTreeSet<usize>>,
    /// Priority `p` is marked when some thread has a ready coroutine of priority `p`.
    pub bitmap: BitMap,
    /// Per-thread priority bitmaps.
    pub threadmap: Vec<BitMap>,
    /// The highest priority (lowest number) ready in the process, `PRIO_NUM` when none is.
    pub max_prio: usize,
    /// The priority that each thread runs next.
    pub thread_prio: Vec<usize>,
    /// The executor's waiting thread ids.
    pub waits: Vec<usize>,
    /// The next coroutine id to hand out.
    pub cid_counter: usize,
}

/// Position of the ready set of thread `t` at priority `p`.
pub open spec fn slot(t: int, p: int) -> int {
    t * PRIO_NUM + p - 1
}

/// `new` is `old` with `c` taken out of the set at position `at`.
pub open spec fn removed_at(old: Seq<BTreeSet<usize>>, new: Seq<BTreeSet<usize>>, at: int, c: usize) -> bool {
    &&& new.len() == old.len()
    &&& forall|i: int|
        0 <= i < new.len() ==> #[trigger] new[i]@ == if i == at {
            old[i]@.remove(c)
        } else {
            old[i]@
        }
}

/// `new` is `old` with `c` put into the set at position `at`.
pub open spec fn inserted_at(old: Seq<BTreeSet<usize>>, new: Seq<BTreeSet<usize>>, at: int, c: usize) -> bool {
    &&& new.len() == old.len()
    &&& forall|i: int|
        0 <= i < new.len() ==> #[trigger] new[i]@ == if i == at {
            old[i]@.insert(c)
        } else {
            old[i]@
        }
}

impl Runtime {
    /// The ready set of thread `t` at priority `p`.
    pub open spec fn ready(&self, t: int, p: int) -> Set<usize> {
        self.ready_queue@[slot(t, p)]@
    }

    /// Whether no thread has a ready coroutine of priority `p`.
    pub open spec fn prio_empty(&self, p: int) -> bool {
        forall|t: int| 0 <= t < MAX_THREAD_NUM ==> #[trigger] self.ready(t, p).is_empty()
    }

    proof fn lemma_same_ready(a: &Runtime, b: &Runtime)
        requires
            a.ready_queue@ == b.ready_queue@,
        ensures
            forall|p: int| #![trigger a.prio_empty(p)] #![trigger b.prio_empty(p)] a.prio_empty(p) == b.prio_empty(p),
            a.tasks@ == b.tasks@ ==> (a.prio_link() <==> b.prio_link()),
    {
        assert forall|t: int, p: int| #![auto] a.ready(t, p) == b.ready(t, p) by {}
        assert forall|p: int| #![trigger a.prio_empty(p)] #![trigger b.prio_empty(p)] a.prio_empty(p) == b.prio_empty(p) by {
            assert forall|t: int| #![auto] a.ready(t, p) == b.ready(t, p) by {}
        }
    }

    /// A stored coroutine stands only in ready sets of its own priority.
    pub open spec fn prio_link(&self) -> bool {
        forall|t: int, p: usize, c: usize|
            0 <= t < MAX_THREAD_NUM && 1 <= p <= PRIO_NUM && #[trigger] self.ready(t, p as int).contains(c)
                && self.tasks@.contains_key(c) ==> self.tasks@[c].inner.prio == p
    }

    /// Whether `c` sits in some ready set.
    pub open spec fn in_ready(&self, c: usize) -> bool {
        exists|i: int| 0 <= i < self.ready_queue@.len() && #[trigger] self.ready_queue@[i]@.contains(c)
    }

    /// Whether thread `t` holds coroutine `c` as pending.
    pub open spec fn pending(&self, t: int, c: usize) -> bool {
        self.pending_set@[t]@.contains(c)
    }

    /// The lengths of the executor's arrays.
    pub open spec fn shape(&self) -> bool {
        &&& self.currents@.len() == MAX_THREAD_NUM
        &&& self.ready_queue@.len() == MAX_THREAD_NUM * PRIO_NUM
        &&& self.pending_set@.len() == MAX_THREAD_NUM
        &&& self.threadmap@.len() == MAX_THREAD_NUM
        &&& self.thread_prio@.len() == MAX_THREAD_NUM
    }

    /// The well-formedness of the executor: what every operation keeps, as long as the
    /// priorities it is given lie between 1 and `PRIO_NUM`.
    pub open spec fn wf(&self) -> bool {
        &&& self.shape()
        // the process bitmap marks exactly the priorities that some thread has ready
        &&& forall|p: usize| 1 <= p <= PRIO_NUM ==> (#[trigger] self.bitmap.has(p) <==> !self.prio_empty(p as int))
        &&& forall|p: usize| (p == 0 || PRIO_NUM < p < usize::BITS) ==> !#[trigger] self.bitmap.has(p)
        &&& self.max_prio == self.bitmap.lowest()
        // each thread's bitmap marks exactly the priorities that the thread has ready,
        // and the thread runs the lowest of them
        &&& forall|t: int, p: usize|
            0 <= t < MAX_THREAD_NUM && 1 <= p <= PRIO_NUM
                ==> (#[trigger] self.threadmap@[t].has(p) <==> !self.ready(t, p as int).is_empty())
        &&& forall|t: int, p: usize|
            0 <= t < MAX_THREAD_NUM && (p == 0 || PRIO_NUM < p < usize::BITS)
                ==> !#[trigger] self.threadmap@[t].has(p)
        &&& forall|t: int| 0 <= t < MAX_THREAD_NUM ==> #[trigger] self.thread_prio@[t] == self.threadmap@[t].lowest()
        &&& self.prio_link()
        // coroutines are stored under their own id, with a real priority, and ids are fresh
        &&& forall|k: usize| #[trigger] self.tasks@.contains_key(k) ==> {
            &&& k < self.cid_counter
            &&& self.tasks@[k].cid.0 == k
            &&& 1 <= self.tasks@[k].inner.prio <= PRIO_NUM
        }
        &&& forall|i: int, c: usize|
            0 <= i < self.ready_queue@.len() && #[trigger] self.ready_queue@[i]@.contains(c) ==> c < self.cid_counter
        &&& forall|t: int, c: usize|
            0 <= t < MAX_THREAD_NUM && #[trigger] self.pending_set@[t]@.contains(c) ==> c < self.cid_counter
    }

    /// Spawning a coroutine of priority `prio` for thread `tid` took `pre` to `post` and returned `cid`.
    pub open spec fn spawned(pre: Runtime, post: Runtime, prio: usize, pid: usize, tid: usize, kind: CoroutineKind, cid: usize) -> bool {
        &&& cid == pre.cid_counter
        &&& post.cid_counter == pre.cid_counter + 1
        &&& pre.wf() ==> !pre.tasks@.contains_key(cid) && !pre.in_ready(cid)
        &&& post.tasks@ =~= pre.tasks@.insert(
            cid,
            Coroutine {
                pid,
                tid,
                cid: CidHandle(cid),
                kind,
                inner: CoroutineInner { prio, waker: CoroutineWaker(CidHandle(cid)) },
            }
        )
        &&& inserted_at(pre.ready_queue@, post.ready_queue@, slot(tid as int, prio as int), cid)
        &&& bit_updated(pre.bitmap, post.bitmap, prio, true)
        &&& post.threadmap@.len() == MAX_THREAD_NUM
        &&& bit_updated(pre.threadmap@[tid as int], post.threadmap@[tid as int], prio, true)
        &&& forall|t: int| 0 <= t < MAX_THREAD_NUM && t != tid ==> #[trigger] post.threadmap@[t] == pre.threadmap@[t]
        &&& post.max_prio == if prio < pre.max_prio { prio } else { pre.max_prio }
        &&& post.thread_prio@ =~= pre.thread_prio@.update(
            tid as int,
            if prio < pre.thread_prio@[tid as int] { prio } else { pre.thread_prio@[tid as int] }
        )
        &&& post.pending_set@ == pre.pending_set@
        &&& post.currents@ == pre.currents@
        &&& post.waits@ == pre.waits@
    }

    /// Deleting coroutine `cid` on thread `tid` took `pre` to `post`.
    pub open spec fn deleted(pre: Runtime, post: Runtime, tid: usize, cid: CidHandle) -> bool {
        &&& ({
            let p = pre.tasks@[cid.0].inner.prio;
            &&& removed_at(pre.ready_queue@, post.ready_queue@, slot(tid as int, p as int), cid.0)
            &&& bit_updated(pre.bitmap, post.bitmap, p,
                    if post.prio_empty(p as int) { false } else { pre.bitmap.has(p) })
            &&& bit_updated(pre.threadmap@[tid as int], post.threadmap@[tid as int], p,
                    if post.ready(tid as int, p as int).is_empty() { false } else {
                        pre.threadmap@[tid as int].has(p) })
        })
        &&& post.tasks@ =~= pre.tasks@.remove(cid.0)
        &&& post.threadmap@.len() == MAX_THREAD_NUM
        &&& forall|t: int| 0 <= t < MAX_THREAD_NUM && t != tid ==> #[trigger] post.threadmap@[t] == pre.threadmap@[t]
        &&& post.max_prio == post.bitmap.lowest()
        &&& post.thread_prio@ =~= pre.thread_prio@.update(tid as int, post.threadmap@[tid as int].lowest())
        &&& post.pending_set@ == pre.pending_set@
        &&& post.currents@ == pre.currents@
        &&& post.waits@ == pre.waits@
        &&& post.cid_counter == pre.cid_counter
    }

    /// Making coroutine `cid` pending on thread `tid` took `pre` to `post`.
    pub open spec fn pended(pre: Runtime, post: Runtime, tid: usize, cid: CidHandle) -> bool {
        &&& ({
            let p = pre.tasks@[cid.0].inner.prio;
            &&& removed_at(pre.ready_queue@, post.ready_queue@, slot(tid as int, p as int), cid.0)
            &&& bit_updated(pre.bitmap, post.bitmap, p,
                    if post.prio_empty(p as int) { false } else { pre.bitmap.has(p) })
            &&& bit_updated(pre.threadmap@[tid as int], post.threadmap@[tid as int], p,
                    if post.ready(tid as int, p as int).is_empty() { false } else {
                        pre.threadmap@[tid as int].has(p) })
        })
        &&& post.tasks@ == pre.tasks@
        &&& post.threadmap@.len() == MAX_THREAD_NUM
        &&& forall|t: int| 0 <= t < MAX_THREAD_NUM && t != tid ==> #[trigger] post.threadmap@[t] == pre.threadmap@[t]
        &&& post.max_prio == post.bitmap.lowest()
        &&& post.thread_prio@ =~= pre.thread_prio@.update(tid as int, post.threadmap@[tid as int].lowest())
        &&& post.pending_set@.len() == MAX_THREAD_NUM
        &&& post.pending_set@[tid as int]@ =~= pre.pending_set@[tid as int]@.insert(cid.0)
        &&& forall|t: int| 0 <= t < MAX_THREAD_NUM && t != tid ==> #[trigger] post.pending_set@[t] == pre.pending_set@[t]
        &&& post.currents@ == pre.currents@
        &&& post.waits@ == pre.waits@
        &&& post.cid_counter == pre.cid_counter
    }

    /// Pulling coroutine `cid` back to ready on thread `tid` took `pre` to `post` and returned `r`.
    pub open spec fn readied(pre: Runtime, post: Runtime, tid: usize, cid: CidHandle, r: usize) -> bool {
        &&& ({
            let p = pre.tasks@[cid.0].inner.prio;
            &&& inserted_at(pre.ready_queue@, post.ready_queue@, slot(tid as int, p as int), cid.0)
            &&& bit_updated(pre.bitmap, post.bitmap, p, true)
            &&& bit_updated(pre.threadmap@[tid as int], post.threadmap@[tid as int], p, true)
            &&& post.max_prio == if p < pre.max_prio { p } else { pre.max_prio }
            &&& post.thread_prio@ =~= pre.thread_prio@.update(
                tid as int,
                if p < pre.thread_prio@[tid as int] { p } else { pre.thread_prio@[tid as int] },
            )
        })
        &&& r == post.thread_prio@[tid as int]
        &&& post.tasks@ == pre.tasks@
        &&& post.threadmap@.len() == MAX_THREAD_NUM
        &&& forall|t: int| 0 <= t < MAX_THREAD_NUM && t != tid ==> #[trigger] post.threadmap@[t] == pre.threadmap@[t]
        &&& post.pending_set@.len() == MAX_THREAD_NUM
        &&& post.pending_set@[tid as int]@ =~= pre.pending_set@[tid as int]@.remove(cid.0)
        &&& forall|t: int| 0 <= t < MAX_THREAD_NUM && t != tid ==> #[trigger] post.pending_set@[t] == pre.pending_set@[t]
        &&& post.currents@ == pre.currents@
        &&& post.waits@ == pre.waits@
        &&& post.cid_counter == pre.cid_counter
    }

    /// The set that thread `tid` fetches from: its ready set at its own priority while
    /// anything is ready in the process, and nothing otherwise.
    pub open spec fn fetch_set(&self, tid: int) -> Set<usize> {
        let at = slot(tid, self.thread_prio@[tid] as int);
        if self.max_prio == PRIO_NUM || !(0 <= at < self.ready_queue@.len()) {
            Set::empty()
        } else {
            self.ready_queue@[at]@
        }
    }

    /// Fetching on thread `tid` took `pre` to `post` and returned `r`.
    pub open spec fn fetched(pre: Runtime, post: Runtime, tid: usize, r: Option<Coroutine>) -> bool {
        let q = pre.fetch_set(tid as int);
        &&& post.currents@.len() == pre.currents@.len()
        &&& forall|t: int| 0 <= t < post.currents@.len() && t != tid ==> #[trigger] post.currents@[t] == pre.currents@[t]
        &&& q.is_empty() ==> r is None && post.currents@[tid as int] is None
        &&& !q.is_empty() ==> (post.currents@[tid as int] matches Some(c) && {
            &&& is_least(q, c.0)
            &&& r == if pre.tasks@.contains_key(c.0) { Some(pre.tasks@[c.0]) } else { None }
        })
        &&& post.tasks@ == pre.tasks@
        &&& post.ready_queue@ == pre.ready_queue@
        &&& post.pending_set@ == pre.pending_set@
        &&& post.bitmap == pre.bitmap
        &&& post.threadmap@ == pre.threadmap@
        &&& post.max_prio == pre.max_prio
        &&& post.thread_prio@ == pre.thread_prio@
        &&& post.waits@ == pre.waits@
        &&& post.cid_counter == pre.cid_counter
    }

    /// An empty executor: nothing ready, every priority at `PRIO_NUM`.
    pub fn new() -> (rt: Runtime)
        ensures
            rt.wf(),
            rt.tasks@ == Map::<usize, Coroutine>::empty(),
            forall|i: int| 0 <= i < MAX_THREAD_NUM * PRIO_NUM ==> #[trigger] rt.ready_queue@[i]@.is_empty(),
            forall|t: int| 0 <= t < MAX_THREAD_NUM ==> #[trigger] rt.pending_set@[t]@.is_empty(),
            forall|t: int| 0 <= t < MAX_THREAD_NUM ==> #[trigger] rt.currents@[t] is None,
            forall|t: int| 0 <= t < MAX_THREAD_NUM ==> #[trigger] rt.thread_prio@[t] == PRIO_NUM,
            rt.max_prio == PRIO_NUM,
            forall|p: usize| p < usize::BITS ==> !#[trigger] rt.bitmap.has(p),
            forall|t: int, p: usize| 0 <= t < MAX_THREAD_NUM && p < usize::BITS ==> !#[trigger] rt.threadmap@[t].has(p),
            rt.cid_counter == 0,
            rt.waits@.len() == 0,
    {
        let mut currents: Vec<Option<CidHandle>> = Vec::new();
        let mut pending_set: Vec<BTreeSet<usize>> = Vec::new();
        let mut threadmap: Vec<BitMap> = Vec::new();
        let mut thread_prio: Vec<usize> = Vec::new();
        let mut t: usize = 0;
        while t < MAX_THREAD_NUM
            invariant
                t <= MAX_THREAD_NUM,
                currents@.len() == t,
                pending_set@.len() == t,
                threadmap@.len() == t,
                thread_prio@.len() == t,
                forall|j: int| 0 <= j < t ==> #[trigger] currents@[j] is None,
                forall|j: int| 0 <= j < t ==> #[trigger] pending_set@[j]@ == Set::<usize>::empty(),
                forall|j: int| 0 <= j < t ==> #[trigger] thread_prio@[j] == PRIO_NUM,
                forall|j: int, p: usize| 0 <= j < t && p < usize::BITS ==> !#[trigger] threadmap@[j].has(p),
            decreases MAX_THREAD_NUM - t,
        {
            currents.push(None);
            pending_set.push(BTreeSet::new());
            threadmap.push(BitMap::new());
            thread_prio.push(PRIO_NUM);
            t = t + 1;
        }
        let mut ready_queue: Vec<BTreeSet<usize>> = Vec::new();
        let mut i: usize = 0;
        while i < MAX_THREAD_NUM * PRIO_NUM
            invariant
                i <= MAX_THREAD_NUM * PRIO_NUM,
                ready_queue@.len() == i,
                forall|j: int| 0 <= j < i ==> #[trigger] ready_queue@[j]@ == Set::<usize>::empty(),
            decreases MAX_THREAD_NUM * PRIO_NUM - i,
        {
            ready_queue.push(BTreeSet::new());
            i = i + 1;
        }
        let bitmap = BitMap::new();
        let rt = Runtime {
            currents,
            tasks: BTreeMap::new(),
            ready_queue,
            pending_set,
            bitmap,
            threadmap,
            max_prio: PRIO_NUM,
            thread_prio,
            waits: Vec::new(),
            cid_counter: 0,
        };
        proof {
            assert(!exists|k: usize| k < PRIO_NUM && #[trigger] rt.bitmap.has(k));
            assert forall|p: usize| 1 <= p <= PRIO_NUM implies (#[trigger] rt.bitmap.has(p) <==> !rt.prio_empty(p as int)) by {
                assert forall|t: int| 0 <= t < MAX_THREAD_NUM implies #[trigger] rt.ready(t, p as int).is_empty() by {
                    assert(0 <= slot(t, p as int) < MAX_THREAD_NUM * PRIO_NUM);
                }
            }
        }
        rt
    }

    /// An empty executor whose process priority and thread priorities all start at `idle`
    /// (at `PRIO_NUM` it is the executor that `new` makes).
    pub fn with_idle_prio(idle: usize) -> (rt: Runtime)
        ensures
            idle == PRIO_NUM ==> rt.wf(),
            rt.shape(),
            rt.tasks@ == Map::<usize, Coroutine>::empty(),
            forall|i: int| 0 <= i < MAX_THREAD_NUM * PRIO_NUM ==> #[trigger] rt.ready_queue@[i]@.is_empty(),
            forall|t: int| 0 <= t < MAX_THREAD_NUM ==> #[trigger] rt.pending_set@[t]@.is_empty(),
            forall|t: int| 0 <= t < MAX_THREAD_NUM ==> #[trigger] rt.currents@[t] is None,
            forall|t: int| 0 <= t < MAX_THREAD_NUM ==> #[trigger] rt.thread_prio@[t] == idle,
            rt.max_prio == idle,
            forall|p: usize| p < usize::BITS ==> !#[trigger] rt.bitmap.has(p),
            forall|t: int, p: usize| 0 <= t < MAX_THREAD_NUM && p < usize::BITS ==> !#[trigger] rt.threadmap@[t].has(p),
            rt.cid_counter == 0,
            rt.waits@.len() == 0,
    {
        let mut rt = Runtime::new();
        let ghost fresh = rt;
        rt.max_prio = idle;
        let mut t: usize = 0;
        while t < MAX_THREAD_NUM
            invariant
                t <= MAX_THREAD_NUM,
                rt.thread_prio@.len() == MAX_THREAD_NUM,
                forall|j: int| 0 <= j < t ==> #[trigger] rt.thread_prio@[j] == idle,
                forall|j: int| t <= j < MAX_THREAD_NUM ==> #[trigger] rt.thread_prio@[j] == PRIO_NUM,
                rt.max_prio == idle,
                rt.currents == fresh.currents,
                rt.tasks == fresh.tasks,
                rt.ready_queue == fresh.ready_queue,
                rt.pending_set == fresh.pending_set,
                rt.bitmap == fresh.bitmap,
                rt.threadmap == fresh.threadmap,
                rt.waits == fresh.waits,
                rt.cid_counter == fresh.cid_counter,
            decreases MAX_THREAD_NUM - t,
        {
            rt.thread_prio.set(t, idle);
            t = t + 1;
        }
        proof {
            if idle == PRIO_NUM {
                assert(rt.thread_prio@ =~= fresh.thread_prio@);
                Self::lemma_same_ready(&fresh, &rt);
            }
        }
        rt
    }

    /// Whether the executor holds no coroutine at all.
    pub fn is_empty(&self) -> (b: bool)
        ensures
            b == self.tasks@.is_empty(),
    {
        self.tasks.is_empty()
    }

    /// Whether thread `tid` holds coroutine `cid` as pending.
    pub fn is_pending(&self, tid: usize, cid: usize) -> (b: bool)
        requires
            self.shape(),
            tid < MAX_THREAD_NUM,
        ensures
            b == self.pending(tid as int, cid),
    {
        self.pending_set[tid].contains(&cid)
    }

    /// Adds a coroutine of priority `prio` to the ready set at position
    /// `tid * PRIO_NUM + prio - 1` (the set of thread `tid` at `prio` when `prio` lies between
    /// 1 and `PRIO_NUM`), marks `prio` in the process bitmap and in the thread's bitmap,
    /// raises the process and thread priorities to `prio` where it is higher, and returns
    /// the new coroutine's id.
    pub fn spawn(&mut self, prio: usize, pid: usize, tid: usize, kind: CoroutineKind) -> (cid: usize)
        requires
            old(self).shape(),
            tid < MAX_THREAD_NUM,
            1 <= tid * PRIO_NUM + prio,
            tid * PRIO_NUM + prio - 1 < MAX_THREAD_NUM * PRIO_NUM,
            prio < usize::BITS,
            old(self).cid_counter <= usize::MAX / 2,
        ensures
            final(self).shape(),
            old(self).wf() && 1 <= prio <= PRIO_NUM ==> final(self).wf(),
            Self::spawned(*old(self), *final(self), prio, pid, tid, kind, cid),
    {
        let task = Coroutine::new(prio, pid, tid, kind, &mut self.cid_counter);
        let cid = task.cid;
        let idx = tid * PRIO_NUM + prio - 1;
        self.ready_queue[idx].insert(cid.0);
        self.tasks.insert(cid.0, task);
        self.bitmap.update(prio, true);
        let mut tm = self.threadmap[tid];
        tm.update(prio, true);
        self.threadmap.set(tid, tm);
        if prio < self.max_prio {
            self.max_prio = prio;
        }
        if prio < self.thread_prio[tid] {
            self.thread_prio.set(tid, prio);
        }
        proof {
            if old(self).wf() && 1 <= prio <= PRIO_NUM {
                Self::lemma_mark_keeps_maps(old(self), &*self, tid as int, prio, cid.0);
                assert forall|t: int, p: usize, c: usize|
                    0 <= t < MAX_THREAD_NUM && 1 <= p <= PRIO_NUM && #[trigger] self.ready(t, p as int).contains(c)
                        && self.tasks@.contains_key(c) implies self.tasks@[c].inner.prio == p by {
                    if c != cid.0 {
                        assert(slot(t, p as int) == t * PRIO_NUM + p - 1);
                        assert(old(self).ready_queue@[slot(t, p as int)]@.contains(c));
                        assert(old(self).ready(t, p as int).contains(c));
                    } else if !(t == tid && p == prio) {
                        assert(slot(t, p as int) != slot(tid as int, prio as int));
                        assert(old(self).ready_queue@[slot(t, p as int)]@.contains(c));
                        assert(c < old(self).cid_counter);
                    }
                }
            }
        }
        cid.0
    }

    /// Whether every thread's ready set at priority `p` is empty, computed.
    fn prio_all_empty(&self, p: usize) -> (b: bool)
        requires
            self.ready_queue@.len() == MAX_THREAD_NUM * PRIO_NUM,
            1 <= p <= PRIO_NUM,
        ensures
            b == self.prio_empty(p as int),
    {
        let mut empty = true;
        let mut i: usize = 0;
        while i < MAX_THREAD_NUM
            invariant
                self.ready_queue@.len() == MAX_THREAD_NUM * PRIO_NUM,
                1 <= p <= PRIO_NUM,
                i <= MAX_THREAD_NUM,
                empty == forall|t: int| 0 <= t < i ==> #[trigger] self.ready(t, p as int).is_empty(),
            decreases MAX_THREAD_NUM - i,
        {
            let e = self.ready_queue[i * PRIO_NUM + p - 1].is_empty();
            proof {
                assert(slot(i as int, p as int) == i * PRIO_NUM + p - 1);
                if !e {
                    assert(!self.ready(i as int, p as int).is_empty());
                }
            }
            empty = empty && e;
            i = i + 1;
        }
        empty
    }

    /// Takes coroutine `cid` (of priority `p`) out of the ready set of thread `tid` at `p`,
    /// clears `p` in the thread's bitmap when the thread has nothing ready at `p` any more and
    /// in the process bitmap when no thread has, and recomputes the process and thread
    /// priorities from the bitmaps. Shared by deleting and pending.
    fn unready(&mut self, tid: usize, cid: usize, p: usize)
        requires
            old(self).shape(),
            tid < MAX_THREAD_NUM,
            1 <= p <= PRIO_NUM,
        ensures
            final(self).shape(),
            old(self).wf() ==> final(self).wf(),
            removed_at(old(self).ready_queue@, final(self).ready_queue@, slot(tid as int, p as int), cid),
            bit_updated(old(self).bitmap, final(self).bitmap, p,
                if final(self).prio_empty(p as int) { false } else { old(self).bitmap.has(p) }),
            final(self).max_prio == final(self).bitmap.lowest(),
            bit_updated(old(self).threadmap@[tid as int], final(self).threadmap@[tid as int], p,
                if final(self).ready(tid as int, p as int).is_empty() { false } else {
                    old(self).threadmap@[tid as int].has(p) }),
            forall|t: int| 0 <= t < MAX_THREAD_NUM && t != tid ==> #[trigger] final(self).threadmap@[t] == old(self).threadmap@[t],
            final(self).thread_prio@ =~= old(self).thread_prio@.update(tid as int, final(self).threadmap@[tid as int].lowest()),
            final(self).tasks@ == old(self).tasks@,
            final(self).pending_set@ == old(self).pending_set@,
            final(self).currents@ == old(self).currents@,
            final(self).waits@ == old(self).waits@,
            final(self).cid_counter == old(self).cid_counter,
    {
        let idx = tid * PRIO_NUM + p - 1;
        self.ready_queue[idx].remove(&cid);
        if self.ready_queue[idx].is_empty() {
            let mut tm = self.threadmap[tid];
            tm.update(p, false);
            self.threadmap.set(tid, tm);
        }
        let empty = self.prio_all_empty(p);
        let ghost mid = *self;
        if empty {
            self.bitmap.update(p, false);
        }
        self.max_prio = self.bitmap.get_priority();
        let tp = self.threadmap[tid].get_priority();
        self.thread_prio.set(tid, tp);
        proof {
            Self::lemma_same_ready(&mid, &*self);
            assert(slot(tid as int, p as int) == idx);
            if old(self).wf() {
                Self::lemma_unready_keeps_wf(old(self), &*self, tid as int, cid, p);
            }
        }
    }

    /// Taking a coroutine out of the ready set of thread `tid` at `p`, and updating the
    /// bitmaps and priorities as `unready` does, keeps the executor well formed.
    proof fn lemma_unready_keeps_wf(old_rt: &Runtime, new_rt: &Runtime, tid: int, c: usize, p: usize)
        requires
            old_rt.wf(),
            new_rt.shape(),
            0 <= tid < MAX_THREAD_NUM,
            1 <= p <= PRIO_NUM,
            removed_at(old_rt.ready_queue@, new_rt.ready_queue@, slot(tid, p as int), c),
            bit_updated(old_rt.bitmap, new_rt.bitmap, p,
                if new_rt.prio_empty(p as int) { false } else { old_rt.bitmap.has(p) }),
            new_rt.max_prio == new_rt.bitmap.lowest(),
            bit_updated(old_rt.threadmap@[tid], new_rt.threadmap@[tid], p,
                if new_rt.ready(tid, p as int).is_empty() { false } else { old_rt.threadmap@[tid].has(p) }),
            forall|t: int| 0 <= t < MAX_THREAD_NUM && t != tid ==> #[trigger] new_rt.threadmap@[t] == old_rt.threadmap@[t],
            new_rt.thread_prio@ =~= old_rt.thread_prio@.update(tid, new_rt.threadmap@[tid].lowest()),
            new_rt.tasks@ == old_rt.tasks@,
            new_rt.pending_set@ == old_rt.pending_set@,
            new_rt.cid_counter == old_rt.cid_counter,
        ensures
            new_rt.wf(),
    {
        assert forall|t: int, q: usize| 0 <= t < MAX_THREAD_NUM && 1 <= q <= PRIO_NUM && (t != tid || q != p)
            implies #[trigger] new_rt.ready(t, q as int) == old_rt.ready(t, q as int) by {
            assert(slot(t, q as int) != slot(tid, p as int));
        }
        // a set that is not empty after the removal was not empty before it
        assert(!new_rt.ready(tid, p as int).is_empty() ==> !old_rt.ready(tid, p as int).is_empty()) by {
            if !new_rt.ready(tid, p as int).is_empty() {
                let x = new_rt.ready(tid, p as int).choose();
                assert(new_rt.ready(tid, p as int).contains(x)) by {
                    if !new_rt.ready(tid, p as int).contains(x) {
                        assert(new_rt.ready(tid, p as int) =~= Set::empty());
                    }
                }
                assert(old_rt.ready(tid, p as int).contains(x));
            }
        }
        assert forall|q: usize| 1 <= q <= PRIO_NUM implies (#[trigger] new_rt.bitmap.has(q)
            <==> !new_rt.prio_empty(q as int)) by {
            if q != p {
                assert(old_rt.bitmap.has(q) <==> !old_rt.prio_empty(q as int));
                if !old_rt.prio_empty(q as int) {
                    let t = choose|t: int| 0 <= t < MAX_THREAD_NUM && !#[trigger] old_rt.ready(t, q as int).is_empty();
                    assert(new_rt.ready(t, q as int) == old_rt.ready(t, q as int));
                }
                if !new_rt.prio_empty(q as int) {
                    let t = choose|t: int| 0 <= t < MAX_THREAD_NUM && !#[trigger] new_rt.ready(t, q as int).is_empty();
                    assert(new_rt.ready(t, q as int) == old_rt.ready(t, q as int));
                }
            } else if !new_rt.prio_empty(q as int) {
                let t = choose|t: int| 0 <= t < MAX_THREAD_NUM && !#[trigger] new_rt.ready(t, q as int).is_empty();
                if t != tid {
                    assert(new_rt.ready(t, q as int) == old_rt.ready(t, q as int));
                }
                assert(!old_rt.ready(t, q as int).is_empty());
                assert(old_rt.bitmap.has(q));
            }
        }
        assert forall|t: int, q: usize| 0 <= t < MAX_THREAD_NUM && 1 <= q <= PRIO_NUM
            implies (#[trigger] new_rt.threadmap@[t].has(q) <==> !new_rt.ready(t, q as int).is_empty()) by {
            assert(old_rt.threadmap@[t].has(q) <==> !old_rt.ready(t, q as int).is_empty());
        }
        assert forall|t: int, q: usize| 0 <= t < MAX_THREAD_NUM && (q == 0 || PRIO_NUM < q < usize::BITS)
            implies !#[trigger] new_rt.threadmap@[t].has(q) by {
            assert(!old_rt.threadmap@[t].has(q));
        }
        assert forall|t: int| 0 <= t < MAX_THREAD_NUM implies #[trigger] new_rt.thread_prio@[t]
            == new_rt.threadmap@[t].lowest() by {
            if t != tid {
                assert(old_rt.thread_prio@[t] == old_rt.threadmap@[t].lowest());
            }
        }
        assert forall|i: int, x: usize| 0 <= i < new_rt.ready_queue@.len() && #[trigger] new_rt.ready_queue@[i]@.contains(x)
            implies x < new_rt.cid_counter by {
            assert(old_rt.ready_queue@[i]@.contains(x));
        }
        assert forall|t: int, q: usize, x: usize|
            0 <= t < MAX_THREAD_NUM && 1 <= q <= PRIO_NUM && #[trigger] new_rt.ready(t, q as int).contains(x)
                && new_rt.tasks@.contains_key(x) implies new_rt.tasks@[x].inner.prio == q by {
            assert(old_rt.ready_queue@[slot(t, q as int)]@.contains(x));
            assert(old_rt.ready(t, q as int).contains(x));
        }
    }

    /// Marking priority `p` in the process bitmap and in the bitmap of thread `tid`, after
    /// putting coroutine `c` into the ready set of that thread at `p`, keeps both bitmaps
    /// matching the ready sets, and their lowest marks follow the process and thread
    /// priorities lowered to `p`.
    proof fn lemma_mark_keeps_maps(old_rt: &Runtime, new_rt: &Runtime, tid: int, p: usize, c: usize)
        requires
            old_rt.wf(),
            0 <= tid < MAX_THREAD_NUM,
            1 <= p <= PRIO_NUM,
            inserted_at(old_rt.ready_queue@, new_rt.ready_queue@, slot(tid, p as int), c),
            bit_updated(old_rt.bitmap, new_rt.bitmap, p, true),
            new_rt.threadmap@.len() == MAX_THREAD_NUM,
            bit_updated(old_rt.threadmap@[tid], new_rt.threadmap@[tid], p, true),
            forall|t: int| 0 <= t < MAX_THREAD_NUM && t != tid ==> #[trigger] new_rt.threadmap@[t] == old_rt.threadmap@[t],
        ensures
            forall|q: usize| 1 <= q <= PRIO_NUM ==> (#[trigger] new_rt.bitmap.has(q) <==> !new_rt.prio_empty(q as int)),
            forall|q: usize| (q == 0 || PRIO_NUM < q < usize::BITS) ==> !#[trigger] new_rt.bitmap.has(q),
            new_rt.bitmap.lowest() == if p < old_rt.max_prio { p } else { old_rt.max_prio },
            forall|t: int, q: usize|
                0 <= t < MAX_THREAD_NUM && 1 <= q <= PRIO_NUM
                    ==> (#[trigger] new_rt.threadmap@[t].has(q) <==> !new_rt.ready(t, q as int).is_empty()),
            forall|t: int, q: usize|
                0 <= t < MAX_THREAD_NUM && (q == 0 || PRIO_NUM < q < usize::BITS)
                    ==> !#[trigger] new_rt.threadmap@[t].has(q),
            new_rt.threadmap@[tid].lowest() == if p < old_rt.thread_prio@[tid] { p } else { old_rt.thread_prio@[tid] },
            forall|t: int| 0 <= t < MAX_THREAD_NUM && t != tid ==> #[trigger] new_rt.threadmap@[t].lowest()
                == old_rt.thread_prio@[t],
    {
        crate::bitmap::lemma_lowest_after_mark(old_rt.bitmap, new_rt.bitmap, p);
        crate::bitmap::lemma_lowest_after_mark(old_rt.threadmap@[tid], new_rt.threadmap@[tid], p);
        assert(!Set::<usize>::empty().contains(c));
        assert(new_rt.ready(tid, p as int).contains(c));
        assert(!new_rt.ready(tid, p as int).is_empty());
        assert forall|t: int, q: usize| 0 <= t < MAX_THREAD_NUM && 1 <= q <= PRIO_NUM && (t != tid || q != p)
            implies #[trigger] new_rt.ready(t, q as int) == old_rt.ready(t, q as int) by {
            assert(slot(t, q as int) != slot(tid, p as int));
        }
        assert forall|q: usize| 1 <= q <= PRIO_NUM implies (#[trigger] new_rt.bitmap.has(q)
            <==> !new_rt.prio_empty(q as int)) by {
            if q != p {
                assert(old_rt.bitmap.has(q) <==> !old_rt.prio_empty(q as int));
                if !old_rt.prio_empty(q as int) {
                    let t = choose|t: int| 0 <= t < MAX_THREAD_NUM && !#[trigger] old_rt.ready(t, q as int).is_empty();
                    assert(new_rt.ready(t, q as int) == old_rt.ready(t, q as int));
                }
                if !new_rt.prio_empty(q as int) {
                    let t = choose|t: int| 0 <= t < MAX_THREAD_NUM && !#[trigger] new_rt.ready(t, q as int).is_empty();
                    assert(new_rt.ready(t, q as int) == old_rt.ready(t, q as int));
                }
            } else {
                assert(!new_rt.prio_empty(q as int));
            }
        }
        assert forall|t: int, q: usize| 0 <= t < MAX_THREAD_NUM && 1 <= q <= PRIO_NUM
            implies (#[trigger] new_rt.threadmap@[t].has(q) <==> !new_rt.ready(t, q as int).is_empty()) by {
            assert(old_rt.threadmap@[t].has(q) <==> !old_rt.ready(t, q as int).is_empty());
        }
        assert forall|t: int, q: usize| 0 <= t < MAX_THREAD_NUM && (q == 0 || PRIO_NUM < q < usize::BITS)
            implies !#[trigger] new_rt.threadmap@[t].has(q) by {
            assert(!old_rt.threadmap@[t].has(q));
        }
        assert(old_rt.thread_prio@[tid] == old_rt.threadmap@[tid].lowest());
        assert forall|t: int| 0 <= t < MAX_THREAD_NUM && t != tid implies #[trigger] new_rt.threadmap@[t].lowest()
            == old_rt.thread_prio@[t] by {
            assert(old_rt.thread_prio@[t] == old_rt.threadmap@[t].lowest());
        }
    }

    /// Takes coroutine `cid` out of the ready set of thread `tid` at its priority and out of
    /// the executor; clears that priority in the thread's bitmap when the thread has nothing
    /// ready there any more, and in the process bitmap when no thread has; and recomputes the
    /// process and thread priorities from the bitmaps.
    pub fn del_coroutine(&mut self, tid: usize, cid: CidHandle)
        requires
            old(self).shape(),
            tid < MAX_THREAD_NUM,
            old(self).tasks@.contains_key(cid.0),
            1 <= old(self).tasks@[cid.0].inner.prio <= PRIO_NUM,
        ensures
            final(self).shape(),
            old(self).wf() ==> final(self).wf(),
            Self::deleted(*old(self), *final(self), tid, cid),
    {
        let p = self.tasks.get(&cid.0).unwrap().inner.prio;
        self.unready(tid, cid.0, p);
        let ghost mid = *self;
        self.tasks.remove(&cid.0);
        proof {
            Self::lemma_same_ready(&mid, &*self);
            if old(self).wf() {
                assert forall|k: usize| #[trigger] self.tasks@.contains_key(k) implies k < self.cid_counter by {
                    assert(mid.tasks@.contains_key(k));
                }
                assert forall|t: int, q: usize, x: usize|
                    0 <= t < MAX_THREAD_NUM && 1 <= q <= PRIO_NUM && #[trigger] self.ready(t, q as int).contains(x)
                        && self.tasks@.contains_key(x) implies self.tasks@[x].inner.prio == q by {
                    assert(mid.ready(t, q as int).contains(x));
                    assert(mid.tasks@.contains_key(x));
                }
            }
        }
    }

    /// Moves coroutine `cid` from the ready set of thread `tid` at its priority `p` to the
    /// thread's pending set. As in deleting, the thread's bitmap loses `p` when the thread has
    /// nothing ready at `p` any more, the process bitmap loses `p` when no thread has, and the
    /// process and thread priorities are recomputed from the bitmaps.
    pub fn pending_coroutine(&mut self, tid: usize, cid: CidHandle)
        requires
            old(self).shape(),
            tid < MAX_THREAD_NUM,
            old(self).tasks@.contains_key(cid.0),
            1 <= old(self).tasks@[cid.0].inner.prio <= PRIO_NUM,
        ensures
            final(self).shape(),
            old(self).wf() ==> final(self).wf(),
            Self::pended(*old(self), *final(self), tid, cid),
    {
        let p = self.tasks.get(&cid.0).unwrap().inner.prio;
        self.unready(tid, cid.0, p);
        let ghost mid = *self;
        self.pending_set[tid].insert(cid.0);
        proof {
            Self::lemma_same_ready(&mid, &*self);
            if old(self).wf() {
                assert forall|t: int, c: usize| 0 <= t < MAX_THREAD_NUM && #[trigger] self.pending_set@[t]@.contains(c)
                    implies c < self.cid_counter by {
                    if t != tid || c != cid.0 {
                        assert(mid.pending_set@[t]@.contains(c));
                    }
                }
            }
        }
    }

    /// Moves coroutine `cid` back into the ready set of thread `tid` at its priority `p`
    /// (the set at position `tid * PRIO_NUM + p - 1`): marks `p` in the process bitmap and in
    /// the thread's bitmap, raises the thread and process priorities to `p` where it is
    /// higher, drops `cid` from the thread's pending set, and returns the thread's priority.
    pub fn pull_to_ready(&mut self, tid: usize, cid: CidHandle) -> (r: usize)
        requires
            old(self).shape(),
            tid < MAX_THREAD_NUM,
            old(self).tasks@.contains_key(cid.0),
            1 <= tid * PRIO_NUM + old(self).tasks@[cid.0].inner.prio,
            tid * PRIO_NUM + old(self).tasks@[cid.0].inner.prio - 1 < MAX_THREAD_NUM * PRIO_NUM,
            old(self).tasks@[cid.0].inner.prio < usize::BITS,
        ensures
            final(self).shape(),
            old(self).wf() ==> final(self).wf(),
            Self::readied(*old(self), *final(self), tid, cid, r),
    {
        let prio = self.tasks.get(&cid.0).unwrap().inner.prio;
        self.ready_queue[tid * PRIO_NUM + prio - 1].insert(cid.0);
        self.bitmap.update(prio, true);
        let mut tm = self.threadmap[tid];
        tm.update(prio, true);
        self.threadmap.set(tid, tm);
        if prio < self.thread_prio[tid] {
            self.thread_prio.set(tid, prio);
        }
        if prio < self.max_prio {
            self.max_prio = prio;
        }
        self.pending_set[tid].remove(&cid.0);
        proof {
            if old(self).wf() {
                Self::lemma_mark_keeps_maps(old(self), &*self, tid as int, prio, cid.0);
                assert forall|t: int, c: usize| 0 <= t < MAX_THREAD_NUM && #[trigger] self.pending_set@[t]@.contains(c)
                    implies c < self.cid_counter by {
                    assert(old(self).pending_set@[t]@.contains(c));
                }
                assert forall|i: int, c: usize| 0 <= i < self.ready_queue@.len() && #[trigger] self.ready_queue@[i]@.contains(c)
                    implies c < self.cid_counter by {
                    if c != cid.0 {
                        assert(old(self).ready_queue@[i]@.contains(c));
                    }
                }
                assert forall|t: int, q: usize, c: usize|
                    0 <= t < MAX_THREAD_NUM && 1 <= q <= PRIO_NUM && #[trigger] self.ready(t, q as int).contains(c)
                        && self.tasks@.contains_key(c) implies self.tasks@[c].inner.prio == q by {
                    if !(c == cid.0 && t == tid && q == prio) {
                        if !(t == tid && q == prio) {
                            assert(slot(t, q as int) != slot(tid as int, prio as int));
                        }
                        assert(old(self).ready_queue@[slot(t, q as int)]@.contains(c));
                        assert(old(self).ready(t, q as int).contains(c));
                    }
                }
            }
        }
        self.thread_prio[tid]
    }

    /// Picks what thread `tid` runs next. While something is ready in the process (its
    /// priority is below `PRIO_NUM`), the thread looks at its own ready set at its own
    /// priority `p` (the set at position `tid * PRIO_NUM + p - 1`). When that set holds a
    /// coroutine, the least id in it becomes the thread's current coroutine and the
    /// coroutine stored under that id, if any, is returned. Otherwise (nothing ready in the
    /// process, or nothing ready for this thread at its priority) the thread's current
    /// coroutine is cleared and nothing is returned. The ready sets are left as they are.
    pub fn fetch_coroutine(&mut self, tid: usize) -> (r: Option<Coroutine>)
        requires
            old(self).shape(),
            tid < MAX_THREAD_NUM,
            old(self).max_prio != PRIO_NUM ==> 1 <= tid * PRIO_NUM + old(self).thread_prio@[tid as int] <= usize::MAX,
        ensures
            final(self).shape(),
            old(self).wf() ==> final(self).wf(),
            Self::fetched(*old(self), *final(self), tid, r),
    {
        if self.max_prio == PRIO_NUM {
            self.currents.set(tid, None);
            proof {
                Self::lemma_same_ready(old(self), &*self);
            }
            return None;
        }
        let thread_p = self.thread_prio[tid];
        let at = tid * PRIO_NUM + thread_p - 1;
        let mut first: Option<usize> = None;
        if at < self.ready_queue.len() {
            first = first_of(&self.ready_queue[at]);
        }
        proof {
            assert(slot(tid as int, thread_p as int) == at);
        }
        match first {
            Some(cid) => {
                let task = match self.tasks.get(&cid) {
                    Some(t) => Some(*t),
                    None => None,
                };
                self.currents.set(tid, Some(CidHandle(cid)));
                proof {
                    Self::lemma_same_ready(old(self), &*self);
                }
                task
            },
            None => {
                self.currents.set(tid, None);
                proof {
                    Self::lemma_same_ready(old(self), &*self);
                }
                None
            },
        }
    }
}

/// The process priority is the highest priority (lowest number below `PRIO_NUM`) at which
/// some thread has a ready coroutine, and `PRIO_NUM` when there is none: every operation
/// keeps the executor well formed, and a well-formed executor has this property.
pub proof fn law_max_prio_is_highest_ready(rt: Runtime)
    requires
        rt.wf(),
    ensures
        1 <= rt.max_prio <= PRIO_NUM,
        rt.max_prio < PRIO_NUM ==> !rt.prio_empty(rt.max_prio as int),
        forall|p: usize| 1 <= p < rt.max_prio ==> #[trigger] rt.prio_empty(p as int),
{
    rt.bitmap.lemma_lowest_spec();
    assert(!rt.bitmap.has(0));
    assert forall|p: usize| 1 <= p < rt.max_prio implies #[trigger] rt.prio_empty(p as int) by {
        assert(!rt.bitmap.has(p));
    }
    if rt.max_prio < PRIO_NUM {
        assert(rt.bitmap.has(rt.max_prio));
    }
}

/// The priority of each thread is the highest priority (lowest number below `PRIO_NUM`) at
/// which that thread has a ready coroutine, and `PRIO_NUM` when it has none: every operation
/// keeps the executor well formed, and a well-formed executor has this property.
pub proof fn law_thread_prio_is_highest_ready(rt: Runtime, t: int)
    requires
        rt.wf(),
        0 <= t < MAX_THREAD_NUM,
    ensures
        1 <= rt.thread_prio@[t] <= PRIO_NUM,
        rt.thread_prio@[t] < PRIO_NUM ==> !rt.ready(t, rt.thread_prio@[t] as int).is_empty(),
        forall|p: usize| 1 <= p < rt.thread_prio@[t] ==> #[trigger] rt.ready(t, p as int).is_empty(),
{
    let m = rt.threadmap@[t];
    m.lemma_lowest_spec();
    assert(rt.thread_prio@[t] == m.lowest());
    assert(!m.has(0));
    assert forall|p: usize| 1 <= p < rt.thread_prio@[t] implies #[trigger] rt.ready(t, p as int).is_empty() by {
        assert(!m.has(p));
    }
    if rt.thread_prio@[t] < PRIO_NUM {
        assert(m.has(rt.thread_prio@[t]));
    }
}

/// What a fetch hands out is what the thread should run: a coroutine of the thread's own
/// priority, standing in the thread's ready set at that priority, with nothing ready on the
/// thread at any higher priority, and the least id of that set.
pub proof fn law_fetch_runs_the_thread_best(pre: Runtime, post: Runtime, tid: usize, r: Option<Coroutine>)
    requires
        pre.wf(),
        tid < MAX_THREAD_NUM,
        Runtime::fetched(pre, post, tid, r),
    ensures
        r matches Some(c) ==> {
            &&& c.inner.prio == pre.thread_prio@[tid as int]
            &&& is_least(pre.ready(tid as int, c.inner.prio as int), c.cid.0)
            &&& forall|p: usize| 1 <= p < c.inner.prio ==> #[trigger] pre.ready(tid as int, p as int).is_empty()
        },
{
    law_thread_prio_is_highest_ready(pre, tid as int);
    if let Some(c) = r {
        let q = pre.fetch_set(tid as int);
        if q.is_empty() {
            assert(r is None);
        }
        let k = post.currents@[tid as int]->0;
        assert(is_least(q, k.0));
        assert(pre.tasks@.contains_key(k.0));
        assert(c == pre.tasks@[k.0]);
        let tp = pre.thread_prio@[tid as int];
        assert(q == pre.ready(tid as int, tp as int));
        assert(pre.ready(tid as int, tp as int).contains(k.0));
        assert(c.inner.prio == tp);
        assert(c.cid.0 == k.0);
    }
}

/// Polling on one thread runs priorities in order: when the coroutine just fetched is
/// finished (deleted) or put aside (made pending) and the thread fetches again, with nothing
/// spawned or pulled back in between, the next coroutine's priority is not higher than the
/// first one's.
pub proof fn law_poll_order_never_rises(
    rt0: Runtime,
    rt1: Runtime,
    rt2: Runtime,
    rt3: Runtime,
    tid: usize,
    c1: Coroutine,
    c2: Coroutine,
    finished: bool,
)
    requires
        rt0.wf(),
        rt2.wf(),
        tid < MAX_THREAD_NUM,
        Runtime::fetched(rt0, rt1, tid, Some(c1)),
        finished ==> Runtime::deleted(rt1, rt2, tid, c1.cid),
        !finished ==> Runtime::pended(rt1, rt2, tid, c1.cid),
        Runtime::fetched(rt2, rt3, tid, Some(c2)),
    ensures
        c1.inner.prio <= c2.inner.prio,
{
    law_fetch_runs_the_thread_best(rt0, rt1, tid, Some(c1));
    law_fetch_runs_the_thread_best(rt2, rt3, tid, Some(c2));
    let p2 = c2.inner.prio;
    if p2 < c1.inner.prio {
        assert(1 <= p2) by {
            law_thread_prio_is_highest_ready(rt2, tid as int);
        }
        assert(rt0.ready(tid as int, p2 as int).is_empty());
        let q2 = rt2.ready(tid as int, p2 as int);
        assert(q2.contains(c2.cid.0));
        let at = slot(tid as int, p2 as int);
        assert(0 <= at < rt0.ready_queue@.len());
        assert(rt1.ready_queue@ == rt0.ready_queue@);
        assert(rt2.ready_queue@[at]@.contains(c2.cid.0));
        assert(rt1.ready_queue@[at]@.contains(c2.cid.0));
        assert(rt0.ready(tid as int, p2 as int).contains(c2.cid.0));
    }
}

/// Putting a coroutine aside as pending takes it out of the ready sets of its thread: at
/// its priority the ready set is the old one without it, whatever else that set holds, and
/// in a well-formed executor it stands in no ready set of that thread at all. Deleting it
/// does the same.
pub proof fn law_put_aside_leaves_ready(pre: Runtime, post: Runtime, tid: usize, cid: CidHandle, finished: bool)
    requires
        pre.shape(),
        tid < MAX_THREAD_NUM,
        pre.tasks@.contains_key(cid.0),
        1 <= pre.tasks@[cid.0].inner.prio <= PRIO_NUM,
        finished ==> Runtime::deleted(pre, post, tid, cid),
        !finished ==> Runtime::pended(pre, post, tid, cid),
    ensures
        post.ready(tid as int, pre.tasks@[cid.0].inner.prio as int)
            == pre.ready(tid as int, pre.tasks@[cid.0].inner.prio as int).remove(cid.0),
        !post.ready(tid as int, pre.tasks@[cid.0].inner.prio as int).contains(cid.0),
        pre.wf() ==> forall|p: usize| 1 <= p <= PRIO_NUM ==> !#[trigger] post.ready(tid as int, p as int).contains(cid.0),
{
    let p = pre.tasks@[cid.0].inner.prio;
    let at = slot(tid as int, p as int);
    assert(0 <= at < pre.ready_queue@.len());
    assert(post.ready_queue@[at]@ == pre.ready_queue@[at]@.remove(cid.0));
    if pre.wf() {
        assert forall|q: usize| 1 <= q <= PRIO_NUM implies !#[trigger] post.ready(tid as int, q as int).contains(cid.0) by {
            if q != p {
                assert(slot(tid as int, q as int) != at);
                assert(post.ready(tid as int, q as int) == pre.ready(tid as int, q as int));
                if pre.ready(tid as int, q as int).contains(cid.0) {
                    assert(pre.tasks@[cid.0].inner.prio == q);
                }
            }
        }
    }
}

/// A coroutine spawned on a thread that has nothing ready at its priority, and whose own
/// priority is not higher than it, is what that thread fetches next.
pub proof fn law_spawn_then_fetch(
    rt0: Runtime,
    rt1: Runtime,
    rt2: Runtime,
    prio: usize,
    pid: usize,
    tid: usize,
    kind: CoroutineKind,
    cid: usize,
    r: Option<Coroutine>,
)
    requires
        rt0.wf(),
        rt1.wf(),
        tid < MAX_THREAD_NUM,
        1 <= prio < PRIO_NUM,
        rt0.thread_prio@[tid as int] >= prio,
        rt0.ready(tid as int, prio as int).is_empty(),
        Runtime::spawned(rt0, rt1, prio, pid, tid, kind, cid),
        Runtime::fetched(rt1, rt2, tid, r),
    ensures
        rt2.currents@[tid as int] == Some(CidHandle(cid)),
        r == Some(
            Coroutine {
                pid,
                tid,
                cid: CidHandle(cid),
                kind,
                inner: CoroutineInner { prio, waker: CoroutineWaker(CidHandle(cid)) },
            },
        ),
{
    let q = rt1.ready(tid as int, prio as int);
    assert(rt1.ready_queue@[slot(tid as int, prio as int)]@ == rt0.ready_queue@[slot(tid as int, prio as int)]@.insert(cid));
    assert(q =~= Set::<usize>::empty().insert(cid));
    assert(q.contains(cid));
    assert(rt1.max_prio != PRIO_NUM);
    assert(rt1.thread_prio@[tid as int] == prio);
    assert(!q.is_empty()) by {
        assert(!Set::<usize>::empty().contains(cid));
    }
    let c = rt2.currents@[tid as int]->0;
    assert(is_least(q, c.0));
    assert(c.0 == cid);
    assert(rt1.tasks@.contains_key(cid));
}

/// Making a ready coroutine pending and then pulling it back to ready on the same thread
/// restores the ready sets, the process and thread bitmaps, and the process and thread
/// priorities. The coroutine is pending in between, and afterwards it is not.
pub proof fn law_pending_then_ready(
    rt0: Runtime,
    rt1: Runtime,
    rt2: Runtime,
    tid: usize,
    cid: CidHandle,
    r: usize,
)
    requires
        rt0.wf(),
        tid < MAX_THREAD_NUM,
        rt0.tasks@.contains_key(cid.0),
        rt0.ready(tid as int, rt0.tasks@[cid.0].inner.prio as int).contains(cid.0),
        Runtime::pended(rt0, rt1, tid, cid),
        Runtime::readied(rt1, rt2, tid, cid, r),
    ensures
        rt1.pending(tid as int, cid.0),
        !rt2.pending(tid as int, cid.0),
        rt2.ready_queue@.len() == rt0.ready_queue@.len(),
        forall|i: int| 0 <= i < rt0.ready_queue@.len() ==> #[trigger] rt2.ready_queue@[i]@ == rt0.ready_queue@[i]@,
        forall|i: usize| i < usize::BITS ==> #[trigger] rt2.bitmap.has(i) == rt0.bitmap.has(i),
        rt2.max_prio == rt0.max_prio,
        rt2.threadmap@.len() == rt0.threadmap@.len(),
        forall|t: int, i: usize| 0 <= t < MAX_THREAD_NUM && i < usize::BITS
            ==> #[trigger] rt2.threadmap@[t].has(i) == rt0.threadmap@[t].has(i),
        rt2.thread_prio@ == rt0.thread_prio@,
        r == rt0.thread_prio@[tid as int],
{
    let p = rt0.tasks@[cid.0].inner.prio;
    let at = slot(tid as int, p as int);
    assert(rt1.pending_set@[tid as int]@.contains(cid.0));
    assert forall|i: int| 0 <= i < rt0.ready_queue@.len() implies #[trigger] rt2.ready_queue@[i]@ == rt0.ready_queue@[i]@ by {
        if i == at {
            assert(rt2.ready_queue@[i]@ =~= rt0.ready_queue@[i]@);
        }
    }
    assert(!Set::<usize>::empty().contains(cid.0));
    assert(!rt0.ready(tid as int, p as int).is_empty());
    assert(rt0.bitmap.has(p));
    assert(rt0.threadmap@[tid as int].has(p));
    assert forall|i: usize| i < usize::BITS implies #[trigger] rt2.bitmap.has(i) == rt0.bitmap.has(i) by {
        if i != p {
            assert(rt1.bitmap.has(i) == rt0.bitmap.has(i));
        }
    }
    crate::bitmap::lemma_lowest_same(rt2.bitmap, rt0.bitmap);
    assert forall|t: int, i: usize| 0 <= t < MAX_THREAD_NUM && i < usize::BITS
        implies #[trigger] rt2.threadmap@[t].has(i) == rt0.threadmap@[t].has(i) by {
        if t == tid && i != p {
            assert(rt1.threadmap@[t].has(i) == rt0.threadmap@[t].has(i));
        }
    }
    // the thread's priority: pending recomputes it from the bitmap without `p`, and pulling
    // back lowers it to `p` again, which is what the bitmap with `p` gives
    let m0 = rt0.threadmap@[tid as int];
    let m1 = rt1.threadmap@[tid as int];
    let m2 = rt2.threadmap@[tid as int];
    crate::bitmap::lemma_lowest_after_mark(m1, m2, p);
    crate::bitmap::lemma_lowest_same(m2, m0);
    assert(rt0.thread_prio@[tid as int] == m0.lowest());
    assert(rt2.thread_prio@ =~= rt0.thread_prio@);
}

/// Coroutine ids count up: two spawns in a row hand out consecutive ids, so no id is
/// handed out twice.
pub proof fn law_spawn_ids_count_up(
    rt0: Runtime,
    rt1: Runtime,
    rt2: Runtime,
    prio1: usize,
    prio2: usize,
    pid1: usize,
    pid2: usize,
    tid1: usize,
    tid2: usize,
    kind1: CoroutineKind,
    kind2: CoroutineKind,
    c1: usize,
    c2: usize,
)
    requires
        Runtime::spawned(rt0, rt1, prio1, pid1, tid1, kind1, c1),
        Runtime::spawned(rt1, rt2, prio2, pid2, tid2, kind2, c2),
    ensures
        c2 == c1 + 1,
        c1 != c2,
        rt2.tasks@.contains_key(c1) && rt2.tasks@.contains_key(c2),
{
}

} // verus!
