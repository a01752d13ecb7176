use std::collections::VecDeque;
use shared_scheduler::config::{MAX_THREAD_NUM, PRIO_NUM};
use shared_scheduler::coroutine::{CidHandle, CoroutineKind};
use shared_scheduler::fifo_runtime::Runtime;

fn with_queues(tid: usize) -> Runtime {
    let mut rt = Runtime::new();
    rt.ready_queue[tid] = vec![VecDeque::new(); PRIO_NUM + 1];
    rt
}

#[test]
fn fifo_new_has_no_queues() {
    let rt = Runtime::new();
    assert!(rt.is_empty());
    assert_eq!(rt.ready_queue.len(), MAX_THREAD_NUM);
    assert!(rt.ready_queue.iter().all(|q| q.is_empty()));
    assert_eq!(rt.max_prio, PRIO_NUM);
}

#[test]
fn fifo_spawn_builds_record_from_its_arguments() {
    let mut rt = with_queues(1);
    let c = rt.spawn(7, 1, 3, CoroutineKind::UserNorm);
    let t = rt.tasks[&c];
    assert_eq!((t.inner.prio, t.pid, t.tid), (3, 7, 1));
    assert_eq!(t.cid, CidHandle(c));
    assert_eq!(rt.max_prio, 3);
    assert_eq!(rt.thread_prio[1], 3);
    assert_eq!(rt.ready_queue[1][3], VecDeque::from(vec![c]));
}

#[test]
fn fifo_fetch_is_first_in_first_out() {
    let mut rt = with_queues(0);
    let a = rt.spawn(0, 0, 2, CoroutineKind::UserNorm);
    let b = rt.spawn(0, 0, 2, CoroutineKind::UserNorm);
    assert_eq!(rt.fetch_coroutine(0).unwrap().cid, CidHandle(a));
    assert_eq!(rt.max_prio, 2);
    assert_eq!(rt.fetch_coroutine(0).unwrap().cid, CidHandle(b));
    // the queue at the process priority ran dry: the mark goes, nothing else is marked
    assert_eq!(rt.max_prio, PRIO_NUM);
    assert_eq!(rt.fetch_coroutine(0), None);
    assert_eq!(rt.currents[0], None);
}

#[test]
fn fifo_pending_and_delete() {
    let mut rt = with_queues(0);
    let a = rt.spawn(0, 0, 2, CoroutineKind::UserNorm);
    rt.pending_coroutine(0, a);
    assert!(rt.is_pending(0, a));
    rt.del_coroutine(CidHandle(a));
    assert!(rt.is_empty());
    assert_eq!(rt.ready_queue[0][2].len(), 1);
}

#[test]
fn fifo_pull_to_ready_uses_record_priority() {
    let mut rt = with_queues(0);
    let a = rt.spawn(4, 0, 2, CoroutineKind::UserNorm);
    assert_eq!(rt.tasks[&a].inner.prio, 2);
    rt.pending_coroutine(0, a);
    let tp = rt.pull_to_ready(0, CidHandle(a));
    assert_eq!(tp, 2);
    assert!(!rt.is_pending(0, a));
    // pending leaves the queue entry in place, so the coroutine now stands there twice
    assert_eq!(rt.ready_queue[0][2], VecDeque::from(vec![a, a]));
}

#[test]
fn fifo_run_finish_deletes_or_pends() {
    let mut rt = with_queues(0);
    let a = rt.spawn(0, 0, 1, CoroutineKind::UserNorm);
    let b = rt.spawn(0, 0, 1, CoroutineKind::UserNorm);
    let t = rt.fetch_coroutine(0).unwrap();
    assert_eq!(t.cid, CidHandle(a));
    rt.run_finish(0, t.cid, false);
    assert!(rt.is_pending(0, a));
    assert!(rt.tasks.contains_key(&a));
    let t = rt.fetch_coroutine(0).unwrap();
    assert_eq!(t.cid, CidHandle(b));
    rt.run_finish(0, t.cid, true);
    assert!(!rt.tasks.contains_key(&b));
    assert!(!rt.is_pending(0, b));
    assert_eq!(rt.max_prio, PRIO_NUM);
}
