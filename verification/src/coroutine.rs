use vstd::prelude::*;

verus! {

/// A coroutine id.
#[derive(Clone, Copy, Debug, PartialEq, Eq, Structural)]
pub struct CidHandle(pub usize);

impl CidHandle {
    /// Hands out the next coroutine id from `counter` and advances the counter.
    ///
    /// The counter stands for the process-wide id counter; ids above `usize::MAX / 2`
    /// are refused ("too many tasks"), so the counter must not have passed that bound.
    pub fn generate(counter: &mut usize) -> (cid: CidHandle)
        requires
            *old(counter) <= usize::MAX / 2,
        ensures
            cid.0 == *old(counter),
            *final(counter) == *old(counter) + 1,
    {
        let id = *counter;
        *counter = id + 1;
        CidHandle(id)
    }

    /// The id with value `v`.
    pub fn from_val(v: usize) -> (cid: Self)
        ensures
            cid.0 == v,
    {
        Self(v)
    }

    /// The value of this id.
    pub fn get_val(&self) -> (v: usize)
        ensures
            v == self.0,
    {
        self.0
    }
}

/// The waker handed to a coroutine when it is polled; it names the coroutine it wakes.
#[derive(Clone, Copy, Debug, PartialEq, Eq, Structural)]
pub struct CoroutineWaker(pub CidHandle);

impl CoroutineWaker {
    /// The waker of coroutine `cid`.
    pub fn new(cid: CidHandle) -> (w: CoroutineWaker)
        ensures
            w.0 == cid,
    {
        CoroutineWaker(cid)
    }
}

/// What a coroutine is for.
#[derive(Clone, Copy, Debug, PartialEq, Eq, Structural)]
pub enum CoroutineKind {
    /// A kernel scheduling coroutine.
    KernSche,
    /// A kernel system-call coroutine.
    KernSyscall,
    /// A user coroutine.
    UserNorm,
}

/// The mutable part of a coroutine: its priority and its waker.
/// (The future itself is held by the executor that polls it, keyed by the coroutine id.)
#[derive(Clone, Copy, Debug, PartialEq, Eq, Structural)]
pub struct CoroutineInner {
    /// Priority: 1 is the highest, `PRIO_NUM` the lowest.
    pub prio: usize,
    /// The waker of this coroutine.
    pub waker: CoroutineWaker,
}

/// A coroutine as the scheduler sees it.
#[derive(Clone, Copy, Debug, PartialEq, Eq, Structural)]
pub struct Coroutine {
    /// The process it belongs to.
    pub pid: usize,
    /// The thread it belongs to.
    pub tid: usize,
    /// Its id.
    pub cid: CidHandle,
    /// What it is for.
    pub kind: CoroutineKind,
    /// Its priority and waker.
    pub inner: CoroutineInner,
}

impl Coroutine {
    /// A new coroutine with the next id from `counter`, whose waker names that id.
    pub fn new(prio: usize, pid: usize, tid: usize, kind: CoroutineKind, counter: &mut usize) -> (c:
        Coroutine)
        requires
            *old(counter) <= usize::MAX / 2,
        ensures
            c.cid.0 == *old(counter),
            *final(counter) == *old(counter) + 1,
            c.pid == pid,
            c.tid == tid,
            c.kind == kind,
            c.inner.prio == prio,
            c.inner.waker == CoroutineWaker(c.cid),
    {
        let cid = CidHandle::generate(counter);
        Coroutine { pid, tid, cid, kind, inner: CoroutineInner { prio, waker: CoroutineWaker::new(cid) } }
    }

    /// Whether this coroutine must not be polled now; no coroutine is ever held back.
    pub fn should_block(&self) -> (b: bool)
        ensures
            !b,
    {
        false
    }
}

} // verus!
