use vstd::prelude::*;
use crate::config::{MAX_PROC_NUM, MAX_THREAD_NUM, PRIO_NUM};
use crate::coroutine::{Coroutine, CidHandle, CoroutineKind};
use crate::runtime::Runtime;

verus! {

/// The highest priority of each process, shared between kernel and user space.
/// Slots `0..MAX_PROC_NUM` hold the processes' priorities; slot `MAX_PROC_NUM` holds the
/// process picked last and slot `MAX_PROC_NUM + 1` the thread picked last.
pub struct SharedProcessPrioArray {
    pub data: Vec<usize>,
}

impl SharedProcessPrioArray {
    /// Every slot at `PRIO_NUM`.
    pub fn new() -> (a: Self)
        ensures
            a.data@ == Seq::new((MAX_PROC_NUM + 2) as nat, |i: int| PRIO_NUM),
    {
        let mut data: Vec<usize> = Vec::new();
        let mut i: usize = 0;
        while i < MAX_PROC_NUM + 2
            invariant
                i <= MAX_PROC_NUM + 2,
                data@ == Seq::new(i as nat, |j: int| PRIO_NUM),
            decreases MAX_PROC_NUM + 2 - i,
        {
            data.push(PRIO_NUM);
            i = i + 1;
        }
        Self { data }
    }

    /// The array has a slot for every process and for the two last picks.
    pub open spec fn wf(&self) -> bool {
        self.data@.len() == MAX_PROC_NUM + 2
    }
}

/// The highest priority of each thread of each process: thread `t` of process `p` sits at
/// `p * MAX_THREAD_NUM + t`.
pub struct SharedThreadPrioArray {
    pub data: Vec<usize>,
}

impl SharedThreadPrioArray {
    /// Every slot at `PRIO_NUM`.
    pub fn new() -> (a: Self)
        ensures
            a.data@ == Seq::new((MAX_THREAD_NUM * MAX_PROC_NUM) as nat, |i: int| PRIO_NUM),
    {
        let mut data: Vec<usize> = Vec::new();
        let mut i: usize = 0;
        while i < MAX_THREAD_NUM * MAX_PROC_NUM
            invariant
                i <= MAX_THREAD_NUM * MAX_PROC_NUM,
                data@ == Seq::new(i as nat, |j: int| PRIO_NUM),
            decreases MAX_THREAD_NUM * MAX_PROC_NUM - i,
        {
            data.push(PRIO_NUM);
            i = i + 1;
        }
        Self { data }
    }

    /// The array has a slot for every thread of every process.
    pub open spec fn wf(&self) -> bool {
        self.data@.len() == MAX_THREAD_NUM * MAX_PROC_NUM
    }
}

/// Stores `prio` as the priority of process `idx`.
pub fn update_process_prio(procs: &mut SharedProcessPrioArray, idx: usize, prio: usize)
    requires
        idx < old(procs).data@.len(),
    ensures
        final(procs).data@ == old(procs).data@.update(idx as int, prio),
{
    procs.data.set(idx, prio);
}

/// Stores `prio` as the priority of thread `idy` of process `idx`.
pub fn update_thread_prio(threads: &mut SharedThreadPrioArray, idx: usize, idy: usize, prio: usize)
    requires
        idx * MAX_THREAD_NUM + idy < old(threads).data@.len(),
    ensures
        final(threads).data@ == old(threads).data@.update(idx * MAX_THREAD_NUM + idy, prio),
{
    let _len = threads.data.len();
    threads.data.set(idx * MAX_THREAD_NUM + idy, prio);
}

/// `r` is the slot that the selection over `data[base .. base + n]` picks when it starts at
/// slot `start`: one of the least values, namely `start` when `start` holds one, and
/// otherwise the first slot that holds one.
pub open spec fn picks(data: Seq<usize>, base: int, n: int, start: int, r: int) -> bool {
    &&& 0 <= r < n
    &&& forall|i: int| 0 <= i < n ==> data[base + r] <= #[trigger] data[base + i]
    &&& (forall|i: int| 0 <= i < n ==> data[base + start] <= #[trigger] data[base + i]) ==> r == start
    &&& !(forall|i: int| 0 <= i < n ==> data[base + start] <= #[trigger] data[base + i]) ==> forall|i: int|
        0 <= i < r ==> data[base + r] < #[trigger] data[base + i]
}

/// `pid` is the process that `max_prio_pid` picks from the process array `pre`, starting
/// after the process picked last, and `post` is `pre` with that pick stored back.
pub open spec fn pid_picked(pre: Seq<usize>, post: Seq<usize>, pid: usize) -> bool {
    &&& picks(pre, 0, MAX_PROC_NUM as int, ((pre[MAX_PROC_NUM as int] + 1) % (MAX_PROC_NUM as int)), pid as int)
    &&& post == pre.update(MAX_PROC_NUM as int, pid)
}

/// `tid` is the thread of process `pid` that `max_prio_tid` picks from the thread array
/// `threads`, starting from the thread picked last as the process array `pre` records it,
/// and `post` is `pre` with that pick stored back.
pub open spec fn tid_picked(pre: Seq<usize>, post: Seq<usize>, threads: Seq<usize>, pid: usize, tid: usize) -> bool {
    &&& picks(threads, pid * MAX_THREAD_NUM, MAX_THREAD_NUM as int, (pre[MAX_PROC_NUM + 1] % MAX_THREAD_NUM) as int, tid as int)
    &&& post == pre.update(MAX_PROC_NUM + 1, tid)
}

/// `check_prio` for thread `tid` of process `pid` took the process array from `pre` to
/// `post` and answered `r`: the process pick is made and stored; when it is another process
/// the answer is true; otherwise the thread pick is made and stored too, and the answer is
/// whether it is another thread.
pub open spec fn prio_checked(pre: Seq<usize>, post: Seq<usize>, threads: Seq<usize>, pid: usize, tid: usize, r: bool) -> bool {
    let p = post[MAX_PROC_NUM as int];
    &&& picks(pre, 0, MAX_PROC_NUM as int, ((pre[MAX_PROC_NUM as int] + 1) % (MAX_PROC_NUM as int)), p as int)
    &&& pid != p ==> r && post == pre.update(MAX_PROC_NUM as int, p)
    &&& pid == p ==> {
        let t = post[MAX_PROC_NUM + 1];
        &&& picks(threads, pid * MAX_THREAD_NUM, MAX_THREAD_NUM as int, (pre[MAX_PROC_NUM + 1] % MAX_THREAD_NUM) as int, t as int)
        &&& post == pre.update(MAX_PROC_NUM as int, p).update(MAX_PROC_NUM + 1, t)
        &&& r == (tid != t)
    }
}

/// Scans `data[base .. base + n]` from the start slot `start`, moving to each slot that
/// holds a strictly smaller value than the best seen so far.
fn select_min(data: &Vec<usize>, base: usize, n: usize, start: usize) -> (r: usize)
    requires
        start < n,
        base + n <= data@.len(),
    ensures
        picks(data@, base as int, n as int, start as int, r as int),
{
    let _len = data.len();
    let mut best = data[base + start];
    let mut pick = start;
    let mut i: usize = 0;
    while i < n
        invariant
            start < n,
            base + n <= data@.len(),
            data@.len() <= usize::MAX,
            i <= n,
            pick < n,
            best == data@[base + pick],
            best <= data@[base + start],
            forall|j: int| 0 <= j < i ==> best <= #[trigger] data@[base + j],
            pick != start ==> pick < i && best < data@[base + start] && forall|j: int|
                0 <= j < pick ==> best < #[trigger] data@[base + j],
        decreases n - i,
    {
        let prio = data[base + i];
        if prio < best {
            best = prio;
            pick = i;
        }
        i = i + 1;
    }
    proof {
        if pick != start {
            assert(data@[base + pick] < data@[base + start]);
        }
    }
    pick
}

/// Picks the process to run: starting from the process after the one picked last, the
/// process of highest priority (lowest number) over all processes; the one picked last is
/// stored back in the array.
pub fn max_prio_pid(procs: &mut SharedProcessPrioArray) -> (pid: usize)
    requires
        old(procs).wf(),
        old(procs).data@[MAX_PROC_NUM as int] < usize::MAX,
    ensures
        pid_picked(old(procs).data@, final(procs).data@, pid),
{
    let last = procs.data[MAX_PROC_NUM];
    let start = (last + 1) % MAX_PROC_NUM;
    let pid = select_min(&procs.data, 0, MAX_PROC_NUM, start);
    procs.data.set(MAX_PROC_NUM, pid);
    pid
}

/// Picks the thread of process `pid` to run: starting from the thread picked last, the
/// thread of highest priority among the process's threads; the one picked is stored back
/// in the process array.
pub fn max_prio_tid(procs: &mut SharedProcessPrioArray, threads: &SharedThreadPrioArray, pid: usize) -> (tid: usize)
    requires
        old(procs).wf(),
        threads.wf(),
        pid < MAX_PROC_NUM,
    ensures
        tid_picked(old(procs).data@, final(procs).data@, threads.data@, pid, tid),
{
    let last = procs.data[MAX_PROC_NUM + 1];
    let start = last % MAX_THREAD_NUM;
    proof {
        assert(pid * MAX_THREAD_NUM + MAX_THREAD_NUM <= MAX_THREAD_NUM * MAX_PROC_NUM) by (nonlinear_arith)
            requires pid < MAX_PROC_NUM;
    }
    let tid = select_min(&threads.data, pid * MAX_THREAD_NUM, MAX_THREAD_NUM, start);
    procs.data.set(MAX_PROC_NUM + 1, tid);
    tid
}

/// Adds a coroutine to the executor and publishes the executor's new process priority and
/// the new priority of thread `tid` in the shared arrays. Returns the coroutine's id.
pub fn spawn(
    rt: &mut Runtime,
    procs: &mut SharedProcessPrioArray,
    threads: &mut SharedThreadPrioArray,
    prio: usize,
    pid: usize,
    tid: usize,
    kind: CoroutineKind,
) -> (cid: usize)
    requires
        old(rt).shape(),
        old(procs).wf(),
        old(threads).wf(),
        pid < MAX_PROC_NUM,
        tid < MAX_THREAD_NUM,
        1 <= tid * PRIO_NUM + prio,
        tid * PRIO_NUM + prio - 1 < MAX_THREAD_NUM * PRIO_NUM,
        prio < usize::BITS,
        old(rt).cid_counter <= usize::MAX / 2,
    ensures
        final(rt).shape(),
        old(rt).wf() && 1 <= prio <= PRIO_NUM ==> final(rt).wf(),
        Runtime::spawned(*old(rt), *final(rt), prio, pid, tid, kind, cid),
        final(procs).data@ == old(procs).data@.update(pid as int, final(rt).max_prio),
        final(threads).data@ == old(threads).data@.update(
            pid * MAX_THREAD_NUM + tid,
            final(rt).thread_prio@[tid as int],
        ),
{
    let cid = rt.spawn(prio, pid, tid, kind);
    let prio = rt.max_prio;
    update_process_prio(procs, pid, prio);
    let thread_p = rt.thread_prio[tid];
    update_thread_prio(threads, pid, tid, thread_p);
    cid
}

/// What a round of polling does next.
pub enum PollStep {
    /// The executor holds no coroutine: polling ends.
    Done,
    /// Run this coroutine's future once.
    Run(Coroutine),
    /// Nothing to run on this thread now: yield.
    Idle,
}

/// The coroutine that a polling step runs, if any.
pub open spec fn step_task(s: PollStep) -> Option<Coroutine> {
    match s {
        PollStep::Run(c) => Some(c),
        _ => None,
    }
}

/// The head of one round of polling on thread `tid`: ends when the executor holds no
/// coroutine, and otherwise fetches what the thread runs next.
pub fn poll_begin(rt: &mut Runtime, tid: usize) -> (step: PollStep)
    requires
        old(rt).shape(),
        tid < MAX_THREAD_NUM,
        old(rt).max_prio != PRIO_NUM ==> 1 <= tid * PRIO_NUM + old(rt).thread_prio@[tid as int] <= usize::MAX,
    ensures
        final(rt).shape(),
        old(rt).wf() ==> final(rt).wf(),
        old(rt).tasks@.is_empty() ==> step is Done && *final(rt) == *old(rt),
        !old(rt).tasks@.is_empty() ==> step !is Done && Runtime::fetched(*old(rt), *final(rt), tid, step_task(step)),
{
    if rt.is_empty() {
        return PollStep::Done;
    }
    match rt.fetch_coroutine(tid) {
        Some(task) => PollStep::Run(task),
        None => PollStep::Idle,
    }
}

/// The end of running coroutine `cid` once on thread `tid` of process `pid`: a finished
/// coroutine (`ready`) is deleted, an unfinished one is made pending; then the executor's
/// process priority and the thread's priority are published in the shared arrays.
pub fn poll_finish(
    rt: &mut Runtime,
    procs: &mut SharedProcessPrioArray,
    threads: &mut SharedThreadPrioArray,
    pid: usize,
    tid: usize,
    cid: CidHandle,
    ready: bool,
)
    requires
        old(rt).shape(),
        old(procs).wf(),
        old(threads).wf(),
        pid < MAX_PROC_NUM,
        tid < MAX_THREAD_NUM,
        old(rt).tasks@.contains_key(cid.0),
        1 <= old(rt).tasks@[cid.0].inner.prio <= PRIO_NUM,
    ensures
        final(rt).shape(),
        old(rt).wf() ==> final(rt).wf(),
        ready ==> Runtime::deleted(*old(rt), *final(rt), tid, cid),
        !ready ==> Runtime::pended(*old(rt), *final(rt), tid, cid),
        final(procs).data@ == old(procs).data@.update(pid as int, final(rt).max_prio),
        final(threads).data@ == old(threads).data@.update(
            pid * MAX_THREAD_NUM + tid,
            final(rt).thread_prio@[tid as int],
        ),
{
    if ready {
        rt.del_coroutine(tid, cid);
    } else {
        rt.pending_coroutine(tid, cid);
    }
    let prio = rt.max_prio;
    update_process_prio(procs, pid, prio);
    let thread_p = rt.thread_prio[tid];
    update_thread_prio(threads, pid, tid, thread_p);
}

/// The check after each round of polling on thread `tid` of process `pid`: picks the
/// process to run and then the thread of `pid` to run, and says whether to yield because
/// another process was picked (first) and because another thread was picked (second).
pub fn poll_yields(
    procs: &mut SharedProcessPrioArray,
    threads: &SharedThreadPrioArray,
    pid: usize,
    tid: usize,
) -> (r: (bool, bool))
    requires
        old(procs).wf(),
        threads.wf(),
        pid < MAX_PROC_NUM,
        old(procs).data@[MAX_PROC_NUM as int] < usize::MAX,
    ensures
        ({
            let p = final(procs).data@[MAX_PROC_NUM as int];
            let t = final(procs).data@[MAX_PROC_NUM + 1];
            &&& picks(old(procs).data@, 0, MAX_PROC_NUM as int,
                ((old(procs).data@[MAX_PROC_NUM as int] + 1) % (MAX_PROC_NUM as int)), p as int)
            &&& picks(threads.data@, pid * MAX_THREAD_NUM, MAX_THREAD_NUM as int,
                (old(procs).data@[MAX_PROC_NUM + 1] % MAX_THREAD_NUM) as int, t as int)
            &&& final(procs).data@ == old(procs).data@.update(MAX_PROC_NUM as int, p).update(MAX_PROC_NUM + 1, t)
            &&& r == (pid != p, tid != t)
        }),
{
    let max_pid = max_prio_pid(procs);
    let yield_process = pid != max_pid;
    let max_tid = max_prio_tid(procs, threads, pid);
    let yield_thread = tid != max_tid;
    (yield_process, yield_thread)
}

/// Whether thread `tid` of process `pid` should give way: true when another process is
/// picked to run, or else when another thread of `pid` is picked to run.
pub fn check_prio(
    procs: &mut SharedProcessPrioArray,
    threads: &SharedThreadPrioArray,
    pid: usize,
    tid: usize,
) -> (r: bool)
    requires
        old(procs).wf(),
        threads.wf(),
        old(procs).data@[MAX_PROC_NUM as int] < usize::MAX,
    ensures
        prio_checked(old(procs).data@, final(procs).data@, threads.data@, pid, tid, r),
{
    let max_pid = max_prio_pid(procs);
    if pid != max_pid {
        return true;
    }
    let max_tid = max_prio_tid(procs, threads, pid);
    if tid != max_tid {
        return true;
    }
    false
}

/// The id of the coroutine that thread `tid` fetched last.
pub fn current_cid(rt: &Runtime, tid: usize) -> (cid: usize)
    requires
        rt.shape(),
        tid < MAX_THREAD_NUM,
        rt.currents@[tid as int] is Some,
    ensures
        rt.currents@[tid as int] == Some(CidHandle(cid)),
{
    match rt.currents[tid] {
        Some(c) => c.get_val(),
        None => 0,
    }
}

/// Whether coroutine `cid` is pending on thread `tid`.
pub fn get_pending_status(rt: &Runtime, tid: usize, cid: usize) -> (b: bool)
    requires
        rt.shape(),
        tid < MAX_THREAD_NUM,
    ensures
        b == rt.pending(tid as int, cid),
{
    rt.is_pending(tid, cid)
}

/// The process that the kernel runs next, as `max_prio_pid` picks it.
pub fn lib_max_prio_pid(procs: &mut SharedProcessPrioArray) -> (pid: usize)
    requires
        old(procs).wf(),
        old(procs).data@[MAX_PROC_NUM as int] < usize::MAX,
    ensures
        pid_picked(old(procs).data@, final(procs).data@, pid),
{
    max_prio_pid(procs)
}

/// A fixed greeting naming where the shared scheduler library lives.
pub fn lib_demo() -> (s: &'static str)
    ensures
        s@ == "This is from lib_so/sharedshedule/\n"@,
{
    "This is from lib_so/sharedshedule/\n"
}

/// The selection is determined: over given slots and from a given start, only one slot
/// satisfies `picks`, so the process (or thread) picked is a function of the priorities
/// and of the last pick.
pub proof fn law_pick_is_unique(data: Seq<usize>, base: int, n: int, start: int, r1: int, r2: int)
    requires
        0 <= start < n,
        picks(data, base, n, start, r1),
        picks(data, base, n, start, r2),
    ensures
        r1 == r2,
{
    assert(data[base + r1] <= data[base + r2]);
    assert(data[base + r2] <= data[base + r1]);
    if !(forall|i: int| 0 <= i < n ==> data[base + start] <= #[trigger] data[base + i]) {
        if r1 < r2 {
            assert(data[base + r2] < data[base + r1]);
        } else if r2 < r1 {
            assert(data[base + r1] < data[base + r2]);
        }
    }
}

/// Asking whether thread `tid` of process `pid` should give way is picking the process to
/// run and, when that is `pid`, the thread of `pid` to run: the answer is false exactly
/// when `pid` and `tid` are what the kernel picks from the same arrays, and the process
/// array ends as those picks leave it.
pub proof fn law_check_prio_is_the_kernel_pick(
    d0: Seq<usize>,
    threads: Seq<usize>,
    pid: usize,
    tid: usize,
    r: bool,
    d1: Seq<usize>,
    p: usize,
    d2: Seq<usize>,
    t: usize,
    d3: Seq<usize>,
)
    requires
        d0.len() == MAX_PROC_NUM + 2,
        prio_checked(d0, d1, threads, pid, tid, r),
        pid_picked(d0, d2, p),
        pid == p ==> tid_picked(d2, d3, threads, pid, t),
    ensures
        pid != p ==> r && d1 == d2,
        pid == p ==> (r <==> tid != t) && d1 == d3,
{
    let start = (d0[MAX_PROC_NUM as int] + 1) % (MAX_PROC_NUM as int);
    law_pick_is_unique(d0, 0, MAX_PROC_NUM as int, start, d1[MAX_PROC_NUM as int] as int, p as int);
    if pid == p {
        assert(d2[MAX_PROC_NUM + 1] == d0[MAX_PROC_NUM + 1]);
        let tstart = (d0[MAX_PROC_NUM + 1] % MAX_THREAD_NUM) as int;
        law_pick_is_unique(threads, pid * MAX_THREAD_NUM, MAX_THREAD_NUM as int, tstart, d1[MAX_PROC_NUM + 1] as int, t as int);
    }
}

/// The library's `lib_max_prio_pid` picks what `max_prio_pid` picks from the same array,
/// and leaves the array as it does.
pub proof fn law_lib_max_prio_pid_is_max_prio_pid(d0: Seq<usize>, a: usize, d1: Seq<usize>, b: usize, d2: Seq<usize>)
    requires
        pid_picked(d0, d1, a),
        pid_picked(d0, d2, b),
    ensures
        a == b,
        d1 == d2,
{
    let start = (d0[MAX_PROC_NUM as int] + 1) % (MAX_PROC_NUM as int);
    law_pick_is_unique(d0, 0, MAX_PROC_NUM as int, start, a as int, b as int);
}

} // verus!
