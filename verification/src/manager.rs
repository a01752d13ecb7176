use vstd::prelude::*;
use std::collections::{BTreeMap, VecDeque};
use crate::sharedscheduler::{max_prio_pid, max_prio_tid, picks, SharedProcessPrioArray, SharedThreadPrioArray};
use crate::config::{MAX_PROC_NUM, MAX_THREAD_NUM};

verus! {

broadcast use {vstd::std_specs::btree::group_btree_axioms, vstd::laws_cmp::group_laws_cmp};

/// The scheduling state of a kernel task.
#[derive(Clone, Copy, Debug, PartialEq, Eq, Structural)]
pub enum TaskStatus {
    Ready,
    Running,
    Blocked,
}

/// A kernel task as the task manager sees it: the process and thread it runs, its status,
/// and the task itself.
pub struct QueuedTask<T> {
    pub pid: usize,
    pub tid: usize,
    pub status: TaskStatus,
    pub task: T,
}

/// `q` turned left by `k` places: its first `k` items moved to the back, in order.
pub open spec fn rotated<A>(q: Seq<A>, k: int) -> Seq<A> {
    q.subrange(k, q.len() as int) + q.subrange(0, k)
}

/// The place that `k` turns of a queue of `n` items bring to the front, for `1 <= k <= n`.
pub open spec fn turn(k: int, n: int) -> int {
    if k == n { 0 } else { k }
}

/// Whether task `t` runs thread `tid` of process `pid`.
pub open spec fn runs<T>(t: QueuedTask<T>, pid: usize, tid: usize) -> bool {
    t.pid == pid && t.tid == tid
}

/// Fetching from the kernel's queue `pre_q` left `post_q` and returned `r`, with the
/// process array going from `pre_procs` to `post_procs` and the thread array `threads`.
pub open spec fn task_fetched<T>(
    pre_procs: Seq<usize>,
    post_procs: Seq<usize>,
    threads: Seq<usize>,
    pre_q: Seq<QueuedTask<T>>,
    post_q: Seq<QueuedTask<T>>,
    r: Option<QueuedTask<T>>,
) -> bool {
    let pid = post_procs[MAX_PROC_NUM as int];
    let tid = post_procs[MAX_PROC_NUM + 1];
    let q = pre_q;
    &&& picks(pre_procs, 0, MAX_PROC_NUM as int,
        ((pre_procs[MAX_PROC_NUM as int] + 1) % (MAX_PROC_NUM as int)), pid as int)
    &&& picks(threads, pid * MAX_THREAD_NUM, MAX_THREAD_NUM as int,
        (pre_procs[MAX_PROC_NUM + 1] % MAX_THREAD_NUM) as int, tid as int)
    &&& post_procs == pre_procs.update(MAX_PROC_NUM as int, pid).update(MAX_PROC_NUM + 1, tid)
    &&& q.len() == 0 ==> r is None && post_q == q
    &&& q.len() > 0 && (exists|k: int| 0 <= k < q.len() && runs(#[trigger] q[k], pid, tid)) ==> exists|k: int|
        0 <= k < q.len() && runs(#[trigger] q[k], pid, tid) && (forall|j: int| 0 <= j < k ==> !runs(#[trigger] q[j], pid, tid))
            && r == Some(q[k]) && post_q == rotated(q, k).drop_first()
    &&& q.len() > 0 && !(exists|k: int| 0 <= k < q.len() && runs(#[trigger] q[k], pid, tid)) ==> r == Some(q[0])
        && post_q == q.drop_first()
}

/// The kernel's queue of ready tasks.
pub struct TaskManager<T> {
    pub ready_queue: VecDeque<QueuedTask<T>>,
}

impl<T> TaskManager<T> {
    /// An empty queue.
    pub fn new() -> (m: Self)
        ensures
            m.ready_queue@ == Seq::<QueuedTask<T>>::empty(),
    {
        Self { ready_queue: VecDeque::new() }
    }

    /// Puts `task` at the back of the queue.
    pub fn add(&mut self, task: QueuedTask<T>)
        ensures
            final(self).ready_queue@ == old(self).ready_queue@.push(task),
    {
        self.ready_queue.push_back(task);
    }

    /// Takes the task to run next: the first task, in queue order, that runs the thread that
    /// the shared arrays pick (the process by `max_prio_pid`, then its thread by
    /// `max_prio_tid`); the tasks in front of it move to the back, in order. When no task runs
    /// that thread, the front task is taken. `None` when the queue is empty.
    #[verifier::loop_isolation(false)]
    pub fn fetch_coroutine(
        &mut self,
        procs: &mut SharedProcessPrioArray,
        threads: &SharedThreadPrioArray,
    ) -> (r: Option<QueuedTask<T>>)
        requires
            old(procs).wf(),
            threads.wf(),
            old(procs).data@[MAX_PROC_NUM as int] < usize::MAX,
        ensures
            task_fetched(old(procs).data@, final(procs).data@, threads.data@, old(self).ready_queue@, final(self).ready_queue@, r),
    {
        let pid = max_prio_pid(procs);
        let tid = max_prio_tid(procs, threads, pid);
        let num = self.ready_queue.len();
        if num == 0 {
            return None;
        }
        let ghost q = self.ready_queue@;
        let mut cnt: usize = 0;
        while cnt < num
            invariant
                num == q.len(),
                cnt <= num,
                self.ready_queue@ == rotated(q, cnt as int),
                forall|j: int| 0 <= j < cnt ==> !runs(#[trigger] q[j], pid, tid),
            decreases num - cnt,
        {
            let task = self.ready_queue.pop_front().unwrap();
            proof {
                assert(task == q[cnt as int]);
            }
            if task.pid == pid && task.tid == tid {
                proof {
                    assert(self.ready_queue@ =~= rotated(q, cnt as int).drop_first());
                    let k = cnt as int;
                    assert(0 <= k < q.len() && runs(q[k], pid, tid) && (forall|j: int| 0 <= j < k ==> !runs(#[trigger] q[j], pid, tid))
                        && Some(task) == Some(q[k]) && self.ready_queue@ == rotated(q, k).drop_first());
                }
                return Some(task);
            }
            self.ready_queue.push_back(task);
            cnt = cnt + 1;
            proof {
                assert(self.ready_queue@ =~= rotated(q, cnt as int));
            }
        }
        proof {
            assert(rotated(q, num as int) =~= q);
        }
        let task = self.ready_queue.pop_front().unwrap();
        Some(task)
    }

    /// Turns the queue left until a task of process `pid` is at the front, stopping early
    /// when the task that was at the front comes back (or a task of its process does). A
    /// queue of fewer than two tasks is left as it is.
    pub fn prioritize(&mut self, pid: usize)
        ensures
            ({
                let q = old(self).ready_queue@;
                let n = q.len() as int;
                &&& n <= 1 ==> final(self).ready_queue@ == q
                &&& n > 1 ==> exists|k: int| 1 <= k <= n && {
                    let t = #[trigger] q[turn(k, n)];
                    &&& (t.pid == pid || t.pid == q[0].pid)
                    &&& forall|j: int| 1 <= j < k ==> (#[trigger] q[j]).pid != pid && q[j].pid != q[0].pid
                    &&& final(self).ready_queue@ == rotated(q, turn(k, n))
                }
            }),
    {
        let n = self.ready_queue.len();
        if n == 0 || n == 1 {
            return;
        }
        let ghost q = self.ready_queue@;
        let front_pid = self.ready_queue[0].pid;
        let t = self.ready_queue.pop_front().unwrap();
        self.ready_queue.push_back(t);
        let mut k: usize = 1;
        proof {
            assert(self.ready_queue@ =~= rotated(q, 1));
        }
        loop
            invariant
                n == q.len(),
                n > 1,
                front_pid == q[0].pid,
                1 <= k <= n,
                self.ready_queue@ == rotated(q, turn(k as int, n as int)),
                forall|j: int| 1 <= j < k ==> (#[trigger] q[j]).pid != pid && q[j].pid != front_pid,
            ensures
                1 <= k <= n,
                (q[turn(k as int, n as int)].pid == pid || q[turn(k as int, n as int)].pid == front_pid),
                forall|j: int| 1 <= j < k ==> (#[trigger] q[j]).pid != pid && q[j].pid != front_pid,
                self.ready_queue@ == rotated(q, turn(k as int, n as int)),
            decreases n - k,
        {
            let f = self.ready_queue[0].pid;
            proof {
                if k == n {
                    assert(self.ready_queue@ =~= q);
                }
            }
            if f == pid || f == front_pid {
                break;
            }
            let t = self.ready_queue.pop_front().unwrap();
            self.ready_queue.push_back(t);
            proof {
                assert(k < n);
                assert(self.ready_queue@ =~= rotated(q, turn(k as int + 1, n as int)));
            }
            k = k + 1;
        }
    }
}

/// Puts `task` at the back of the kernel's ready queue.
pub fn add_task<T>(manager: &mut TaskManager<T>, task: QueuedTask<T>)
    ensures
        final(manager).ready_queue@ == old(manager).ready_queue@.push(task),
{
    manager.add(task);
}

/// Marks `task` ready and puts it at the back of the kernel's ready queue.
pub fn wakeup_task<T>(manager: &mut TaskManager<T>, task: QueuedTask<T>)
    ensures
        final(manager).ready_queue@ == old(manager).ready_queue@.push(
            QueuedTask { pid: task.pid, tid: task.tid, status: TaskStatus::Ready, task: task.task },
        ),
{
    let mut task = task;
    task.status = TaskStatus::Ready;
    add_task(manager, task);
}

/// Takes the task to run next from the kernel's ready queue, as `TaskManager::fetch_coroutine`
/// does.
pub fn fetch_task_coroutine<T>(
    manager: &mut TaskManager<T>,
    procs: &mut SharedProcessPrioArray,
    threads: &SharedThreadPrioArray,
) -> (r: Option<QueuedTask<T>>)
    requires
        old(procs).wf(),
        threads.wf(),
        old(procs).data@[MAX_PROC_NUM as int] < usize::MAX,
    ensures
        task_fetched(old(procs).data@, final(procs).data@, threads.data@, old(manager).ready_queue@, final(manager).ready_queue@, r),
{
    manager.fetch_coroutine(procs, threads)
}

/// The process control block registered for `pid`, if any.
pub fn pid2process<V>(map: &BTreeMap<usize, V>, pid: usize) -> (r: Option<&V>)
    ensures
        match r {
            Some(v) => map@.contains_key(pid) && *v == map@[pid],
            None => !map@.contains_key(pid),
        },
{
    map.get(&pid)
}

/// Registers `process` for `pid`, replacing what was registered for it.
pub fn insert_into_pid2process<V>(map: &mut BTreeMap<usize, V>, pid: usize, process: V)
    ensures
        final(map)@ == old(map)@.insert(pid, process),
{
    map.insert(pid, process);
}

/// Removes what is registered for `pid`; something must be registered for it.
pub fn remove_from_pid2process<V>(map: &mut BTreeMap<usize, V>, pid: usize)
    requires
        old(map)@.contains_key(pid),
    ensures
        final(map)@ == old(map)@.remove(pid),
{
    let _removed = map.remove(&pid);
}

/// Turning the queue never loses or adds a task: a queue turned left by any number of places
/// up to its length holds the same tasks, as many times each.
pub proof fn law_rotation_keeps_tasks<A>(q: Seq<A>, k: int)
    requires
        0 <= k <= q.len(),
    ensures
        rotated(q, k).to_multiset() =~= q.to_multiset(),
{
    broadcast use vstd::seq_lib::lemma_multiset_commutative;
    let a = q.subrange(0, k);
    let b = q.subrange(k, q.len() as int);
    assert(q =~= a + b);
    vstd::seq_lib::lemma_seq_union_to_multiset_commutative(b, a);
}

/// Fetching a task takes it out of the queue and keeps all the others: the task returned
/// and the tasks left make up the queue before, as many times each.
pub proof fn law_fetch_keeps_other_tasks<T>(q: Seq<QueuedTask<T>>, post: Seq<QueuedTask<T>>, k: int, r: QueuedTask<T>)
    requires
        0 <= k < q.len(),
        r == q[k],
        post == rotated(q, k).drop_first(),
    ensures
        post.to_multiset().insert(r) =~= q.to_multiset(),
{
    law_rotation_keeps_tasks(q, k);
    let rq = rotated(q, k);
    assert(rq[0] == q[k]);
    assert(rq =~= seq![rq[0]] + post);
    broadcast use vstd::seq_lib::lemma_multiset_commutative;
    vstd::seq_lib::lemma_seq_union_to_multiset_commutative(seq![rq[0]], post);
    assert((post + seq![rq[0]]) =~= post.push(rq[0]));
    post.to_multiset_ensures();
}

/// The kernel runs the task of the process and thread that the shared arrays pick: when
/// `pid` and `tid` are the picks from the arrays before fetching, the task returned is the
/// first task in the queue that runs them, wherever it stands; when no task runs them, the
/// front task is returned; only an empty queue gives nothing. The tasks left are the tasks
/// before, less the one returned.
pub proof fn law_fetch_runs_the_picked_thread<T>(
    pre_procs: Seq<usize>,
    post_procs: Seq<usize>,
    threads: Seq<usize>,
    q: Seq<QueuedTask<T>>,
    post_q: Seq<QueuedTask<T>>,
    r: Option<QueuedTask<T>>,
    pid: usize,
    tid: usize,
)
    requires
        task_fetched(pre_procs, post_procs, threads, q, post_q, r),
        picks(pre_procs, 0, MAX_PROC_NUM as int, ((pre_procs[MAX_PROC_NUM as int] + 1) % (MAX_PROC_NUM as int)), pid as int),
        picks(threads, pid * MAX_THREAD_NUM, MAX_THREAD_NUM as int, (pre_procs[MAX_PROC_NUM + 1] % MAX_THREAD_NUM) as int, tid as int),
    ensures
        forall|k: int| 0 <= k < q.len() && #[trigger] runs(q[k], pid, tid) && (forall|j: int| 0 <= j < k ==> !runs(#[trigger] q[j], pid, tid))
            ==> r == Some(q[k]),
        q.len() > 0 && (forall|k: int| 0 <= k < q.len() ==> !runs(#[trigger] q[k], pid, tid)) ==> r == Some(q[0]),
        q.len() == 0 <==> r is None,
        r matches Some(x) ==> post_q.to_multiset().insert(x) =~= q.to_multiset(),
{
    let start = (pre_procs[MAX_PROC_NUM as int] + 1) % (MAX_PROC_NUM as int);
    crate::sharedscheduler::law_pick_is_unique(pre_procs, 0, MAX_PROC_NUM as int, start, pid as int, post_procs[MAX_PROC_NUM as int] as int);
    let tstart = (pre_procs[MAX_PROC_NUM + 1] % MAX_THREAD_NUM) as int;
    crate::sharedscheduler::law_pick_is_unique(threads, pid * MAX_THREAD_NUM, MAX_THREAD_NUM as int, tstart, tid as int, post_procs[MAX_PROC_NUM + 1] as int);
    assert(post_procs[MAX_PROC_NUM as int] == pid);
    assert(post_procs[MAX_PROC_NUM + 1] == tid);
    if q.len() > 0 {
        if exists|k: int| 0 <= k < q.len() && runs(#[trigger] q[k], pid, tid) {
            let k0 = choose|k: int| 0 <= k < q.len() && runs(#[trigger] q[k], pid, tid)
                && (forall|j: int| 0 <= j < k ==> !runs(#[trigger] q[j], pid, tid)) && r == Some(q[k])
                && post_q == rotated(q, k).drop_first();
            assert forall|k: int| 0 <= k < q.len() && #[trigger] runs(q[k], pid, tid) && (forall|j: int| 0 <= j < k ==> !runs(#[trigger] q[j], pid, tid))
                implies r == Some(q[k]) by {
                if k < k0 {
                    assert(!runs(q[k], pid, tid));
                } else if k0 < k {
                    assert(!runs(q[k0], pid, tid));
                }
            }
            law_fetch_keeps_other_tasks(q, post_q, k0, q[k0]);
        } else {
            assert(rotated(q, 0) =~= q);
            law_fetch_keeps_other_tasks(q, post_q, 0, q[0]);
        }
    }
}

} // verus!
