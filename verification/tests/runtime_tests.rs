use shared_scheduler::bitmap::BitMap;
use shared_scheduler::config::{MAX_THREAD_NUM, PRIO_NUM};
use shared_scheduler::coroutine::{CidHandle, Coroutine, CoroutineInner, CoroutineKind, CoroutineWaker};
use shared_scheduler::runtime::Runtime;

fn marked(b: BitMap, p: usize) -> bool {
    (b.0 >> p) & 1 == 1
}

#[test]
fn bitmap_marks_and_finds_lowest() {
    let mut b = BitMap::new();
    assert_eq!(b.get_priority(), PRIO_NUM);
    b.update(5, true);
    b.update(3, true);
    assert_eq!(b.get_priority(), 3);
    b.update(3, false);
    assert_eq!(b.get_priority(), 5);
    b.update(PRIO_NUM, true);
    b.update(5, false);
    assert_eq!(b.get_priority(), PRIO_NUM);
    assert_eq!(b.0, 1usize << PRIO_NUM);
}

#[test]
fn cid_handle_round_trip() {
    let mut counter = 7usize;
    let c = CidHandle::generate(&mut counter);
    assert_eq!(c, CidHandle(7));
    assert_eq!(counter, 8);
    assert_eq!(CidHandle::from_val(42).get_val(), 42);
    assert_eq!(CoroutineWaker::new(c), CoroutineWaker(CidHandle(7)));
}

#[test]
fn coroutine_new_names_its_waker() {
    let mut counter = 3usize;
    let c = Coroutine::new(2, 10, 1, CoroutineKind::UserNorm, &mut counter);
    assert_eq!(c.cid, CidHandle(3));
    assert_eq!(c.pid, 10);
    assert_eq!(c.tid, 1);
    assert_eq!(c.inner, CoroutineInner { prio: 2, waker: CoroutineWaker(CidHandle(3)) });
    assert!(!c.should_block());
}

#[test]
fn new_runtime_is_empty() {
    let mut rt = Runtime::new();
    assert!(rt.is_empty());
    assert_eq!(rt.max_prio, PRIO_NUM);
    assert_eq!(rt.thread_prio.len(), MAX_THREAD_NUM);
    assert_eq!(rt.fetch_coroutine(0), None);
    assert_eq!(rt.currents[0], None);
}

#[test]
fn spawn_hands_out_fresh_ids_and_raises_priority() {
    let mut rt = Runtime::new();
    let a = rt.spawn(4, 1, 0, CoroutineKind::UserNorm);
    let b = rt.spawn(1, 1, 0, CoroutineKind::UserNorm);
    let c = rt.spawn(3, 1, 0, CoroutineKind::UserNorm);
    assert_eq!((a, b, c), (0, 1, 2));
    assert_eq!(rt.max_prio, 1);
    assert_eq!(rt.thread_prio[0], 1);
    assert!(!rt.is_empty());
    assert!(marked(rt.bitmap, 1) && marked(rt.bitmap, 3) && marked(rt.bitmap, 4));
}

#[test]
fn fetch_runs_highest_priority_then_lowest_id() {
    let mut rt = Runtime::new();
    rt.spawn(2, 1, 0, CoroutineKind::UserNorm);
    rt.spawn(2, 1, 0, CoroutineKind::UserNorm);
    rt.spawn(1, 1, 0, CoroutineKind::UserNorm);
    let t = rt.fetch_coroutine(0).unwrap();
    assert_eq!(t.cid, CidHandle(2));
    assert_eq!(rt.currents[0], Some(CidHandle(2)));
    // fetching does not take it out of the ready set
    assert_eq!(rt.fetch_coroutine(0).unwrap().cid, CidHandle(2));
    rt.del_coroutine(0, CidHandle(2));
    assert_eq!(rt.max_prio, 2);
    assert_eq!(rt.thread_prio[0], 2);
    assert_eq!(rt.fetch_coroutine(0).unwrap().cid, CidHandle(0));
    rt.del_coroutine(0, CidHandle(0));
    assert_eq!(rt.fetch_coroutine(0).unwrap().cid, CidHandle(1));
    rt.del_coroutine(0, CidHandle(1));
    assert!(rt.is_empty());
    assert_eq!(rt.max_prio, PRIO_NUM);
    assert_eq!(rt.fetch_coroutine(0), None);
    assert_eq!(rt.currents[0], None);
}

#[test]
fn spawn_then_fetch_on_idle_thread() {
    let mut rt = Runtime::new();
    let cid = rt.spawn(3, 9, 2, CoroutineKind::KernSche);
    let t = rt.fetch_coroutine(2).unwrap();
    assert_eq!(
        t,
        Coroutine {
            pid: 9,
            tid: 2,
            cid: CidHandle(cid),
            kind: CoroutineKind::KernSche,
            inner: CoroutineInner { prio: 3, waker: CoroutineWaker(CidHandle(cid)) },
        }
    );
}

#[test]
fn pending_then_ready_restores_process_state() {
    let mut rt = Runtime::new();
    rt.spawn(2, 1, 0, CoroutineKind::UserNorm);
    let c = rt.spawn(1, 1, 0, CoroutineKind::UserNorm);
    let bits_before = rt.bitmap.0;
    let thread_bits_before = rt.threadmap[0].0;
    assert!(!rt.is_pending(0, c));
    rt.pending_coroutine(0, CidHandle(c));
    assert!(rt.is_pending(0, c));
    assert_eq!(rt.max_prio, 2);
    assert_eq!(rt.thread_prio[0], 2);
    let tp = rt.pull_to_ready(0, CidHandle(c));
    assert!(!rt.is_pending(0, c));
    assert_eq!(tp, 1);
    assert_eq!(rt.thread_prio[0], 1);
    assert_eq!(rt.max_prio, 1);
    assert_eq!(rt.bitmap.0, bits_before);
    assert_eq!(rt.threadmap[0].0, thread_bits_before);
    assert_eq!(rt.fetch_coroutine(0).unwrap().cid, CidHandle(c));
}

#[test]
fn pending_clears_the_thread_bit_of_an_emptied_set() {
    // A thread whose only priority-1 coroutine goes pending drops priority 1 from its own
    // bitmap and runs its priority-2 coroutine next.
    let mut rt = Runtime::new();
    let x = rt.spawn(2, 1, 0, CoroutineKind::UserNorm);
    let c = rt.spawn(1, 1, 0, CoroutineKind::UserNorm);
    rt.pending_coroutine(0, CidHandle(c));
    assert!(!marked(rt.threadmap[0], 1));
    assert!(marked(rt.threadmap[0], 2));
    assert_eq!(rt.thread_prio[0], 2);
    assert_eq!(rt.max_prio, 2);
    assert_eq!(rt.fetch_coroutine(0).unwrap().cid, CidHandle(x));
    assert_eq!(rt.currents[0], Some(CidHandle(x)));
}

#[test]
fn thread_with_nothing_ready_fetches_nothing() {
    // Another thread has a ready coroutine, so the process priority is 1, but thread 0 has
    // nothing ready: it gets no coroutine, not one of another thread's.
    let mut rt = Runtime::new();
    rt.spawn(1, 1, 3, CoroutineKind::UserNorm);
    let b = rt.spawn(1, 1, 3, CoroutineKind::UserNorm);
    assert_eq!(b, 1);
    rt.currents[0] = Some(CidHandle(7));
    assert_eq!(rt.max_prio, 1);
    assert_eq!(rt.thread_prio[0], PRIO_NUM);
    assert_eq!(rt.fetch_coroutine(0), None);
    assert_eq!(rt.currents[0], None);
    assert_eq!(rt.fetch_coroutine(3).unwrap().cid, CidHandle(0));
}

#[test]
fn other_threads_keep_the_process_priority() {
    let mut rt = Runtime::new();
    let a = rt.spawn(1, 1, 0, CoroutineKind::UserNorm);
    rt.spawn(1, 1, 3, CoroutineKind::UserNorm);
    rt.del_coroutine(0, CidHandle(a));
    assert_eq!(rt.max_prio, 1);
    assert_eq!(rt.thread_prio[0], PRIO_NUM);
    assert_eq!(rt.thread_prio[3], 1);
}

#[test]
fn spawn_past_the_last_priority_lands_in_the_next_thread() {
    let mut rt = Runtime::new();
    let c = rt.spawn(PRIO_NUM + 1, 1, 0, CoroutineKind::UserNorm);
    // position 0 * PRIO_NUM + (PRIO_NUM + 1) - 1 is thread 1's set at priority 1
    assert!(rt.ready_queue[PRIO_NUM].contains(&c));
    assert!(marked(rt.bitmap, PRIO_NUM + 1));
    assert_eq!(rt.max_prio, PRIO_NUM);
    assert_eq!(rt.fetch_coroutine(1), None);
}

#[test]
fn pulling_back_marks_the_thread_priority() {
    let mut rt = Runtime::new();
    let x = rt.spawn(5, 1, 0, CoroutineKind::UserNorm);
    let a = rt.spawn(3, 1, 0, CoroutineKind::UserNorm);
    let c = rt.spawn(1, 1, 0, CoroutineKind::UserNorm);
    assert_eq!((x, a, c), (0, 1, 2));
    rt.pending_coroutine(0, CidHandle(c));
    assert!(!marked(rt.threadmap[0], 1));
    assert_eq!(rt.thread_prio[0], 3);
    rt.pull_to_ready(0, CidHandle(c));
    assert!(marked(rt.threadmap[0], 1));
    rt.del_coroutine(0, CidHandle(a));
    assert_eq!(rt.max_prio, 1);
    assert_eq!(rt.thread_prio[0], 1);
    assert!(rt.ready_queue[0].contains(&c));
    // the thread runs its ready priority-1 coroutine next
    assert_eq!(rt.fetch_coroutine(0).unwrap().cid, CidHandle(c));
}

#[test]
fn polling_order_never_rises_on_a_thread() {
    let mut rt = Runtime::new();
    rt.spawn(3, 1, 0, CoroutineKind::UserNorm);
    rt.spawn(1, 1, 0, CoroutineKind::UserNorm);
    rt.spawn(2, 1, 0, CoroutineKind::UserNorm);
    let mut seen = Vec::new();
    while let Some(t) = rt.fetch_coroutine(0) {
        seen.push(t.inner.prio);
        if t.inner.prio == 1 {
            rt.pending_coroutine(0, t.cid);
        } else {
            rt.del_coroutine(0, t.cid);
        }
    }
    assert_eq!(seen, vec![1, 2, 3]);
    assert_eq!(rt.max_prio, PRIO_NUM);
}
