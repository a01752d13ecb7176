use shared_scheduler::config::{MAX_PROC_NUM, MAX_THREAD_NUM, PRIO_NUM};
use shared_scheduler::coroutine::{CidHandle, CoroutineKind};
use shared_scheduler::runtime::Runtime;
use shared_scheduler::sharedscheduler::{
    check_prio, current_cid, get_pending_status, lib_demo, lib_max_prio_pid, max_prio_pid, max_prio_tid,
    poll_begin, poll_finish, poll_yields, spawn, update_process_prio, update_thread_prio, PollStep,
    SharedProcessPrioArray, SharedThreadPrioArray,
};

#[test]
fn arrays_start_at_lowest_priority() {
    let p = SharedProcessPrioArray::new();
    let t = SharedThreadPrioArray::new();
    assert_eq!(p.data.len(), MAX_PROC_NUM + 2);
    assert!(p.data.iter().all(|&x| x == PRIO_NUM));
    assert_eq!(t.data.len(), MAX_THREAD_NUM * MAX_PROC_NUM);
    assert!(t.data.iter().all(|&x| x == PRIO_NUM));
}

#[test]
fn max_prio_pid_starts_after_last_pick_on_ties() {
    let mut p = SharedProcessPrioArray::new();
    // the slot of the last pick starts at PRIO_NUM, so the scan starts at PRIO_NUM + 1
    assert_eq!(max_prio_pid(&mut p), (PRIO_NUM + 1) % MAX_PROC_NUM);
    assert_eq!(p.data[MAX_PROC_NUM], (PRIO_NUM + 1) % MAX_PROC_NUM);
    assert_eq!(max_prio_pid(&mut p), (PRIO_NUM + 2) % MAX_PROC_NUM);
}

#[test]
fn max_prio_pid_prefers_highest_priority_then_first() {
    let mut p = SharedProcessPrioArray::new();
    update_process_prio(&mut p, 5, 2);
    update_process_prio(&mut p, 3, 2);
    update_process_prio(&mut p, 7, 4);
    assert_eq!(max_prio_pid(&mut p), 3);
    // the last pick is 3, the scan starts at 4, which does not hold a least value
    assert_eq!(max_prio_pid(&mut p), 3);
    update_process_prio(&mut p, 4, 2);
    assert_eq!(max_prio_pid(&mut p), 4);
    assert_eq!(lib_max_prio_pid(&mut p), 5);
}

#[test]
fn max_prio_tid_scans_the_process_threads() {
    let mut p = SharedProcessPrioArray::new();
    let mut t = SharedThreadPrioArray::new();
    update_thread_prio(&mut t, 2, 6, 1);
    update_thread_prio(&mut t, 3, 1, 1);
    assert_eq!(t.data[2 * MAX_THREAD_NUM + 6], 1);
    // the last thread pick starts at PRIO_NUM
    assert_eq!(max_prio_tid(&mut p, &t, 2), 6);
    assert_eq!(p.data[MAX_PROC_NUM + 1], 6);
    assert_eq!(max_prio_tid(&mut p, &t, 3), 1);
    assert_eq!(max_prio_tid(&mut p, &t, 4), 1);
}

#[test]
fn check_prio_says_whether_to_give_way() {
    let mut p = SharedProcessPrioArray::new();
    let t = SharedThreadPrioArray::new();
    update_process_prio(&mut p, 1, 1);
    assert!(check_prio(&mut p, &t, 0, 0));
    // process 1 is picked; its threads tie, and the scan starts at the stored thread pick
    let stored = p.data[MAX_PROC_NUM + 1] % MAX_THREAD_NUM;
    assert!(!check_prio(&mut p, &t, 1, stored));
    assert!(check_prio(&mut p, &t, 1, (stored + 1) % MAX_THREAD_NUM));
}

#[test]
fn spawn_publishes_priorities() {
    let mut rt = Runtime::new();
    let mut p = SharedProcessPrioArray::new();
    let mut t = SharedThreadPrioArray::new();
    let c = spawn(&mut rt, &mut p, &mut t, 3, 2, 1, CoroutineKind::UserNorm);
    assert_eq!(c, 0);
    assert_eq!(p.data[2], 3);
    assert_eq!(t.data[2 * MAX_THREAD_NUM + 1], 3);
    spawn(&mut rt, &mut p, &mut t, 1, 2, 1, CoroutineKind::UserNorm);
    assert_eq!(p.data[2], 1);
    assert_eq!(t.data[2 * MAX_THREAD_NUM + 1], 1);
}

#[test]
fn polling_runs_every_coroutine_in_priority_order() {
    let mut rt = Runtime::new();
    let mut p = SharedProcessPrioArray::new();
    let mut t = SharedThreadPrioArray::new();
    let (pid, tid) = (0usize, 0usize);
    spawn(&mut rt, &mut p, &mut t, 4, pid, tid, CoroutineKind::UserNorm);
    spawn(&mut rt, &mut p, &mut t, 1, pid, tid, CoroutineKind::UserNorm);
    spawn(&mut rt, &mut p, &mut t, 3, pid, tid, CoroutineKind::UserNorm);
    let mut order = Vec::new();
    loop {
        match poll_begin(&mut rt, tid) {
            PollStep::Done => break,
            PollStep::Run(task) => {
                order.push(task.cid.0);
                assert_eq!(current_cid(&rt, tid), task.cid.0);
                poll_finish(&mut rt, &mut p, &mut t, pid, tid, task.cid, true);
            }
            PollStep::Idle => panic!("nothing ready while coroutines are left"),
        }
        let _ = poll_yields(&mut p, &t, pid, tid);
    }
    assert_eq!(order, vec![1, 2, 0]);
    assert_eq!(p.data[pid], PRIO_NUM);
}

#[test]
fn unfinished_coroutine_goes_pending() {
    let mut rt = Runtime::new();
    let mut p = SharedProcessPrioArray::new();
    let mut t = SharedThreadPrioArray::new();
    let c = spawn(&mut rt, &mut p, &mut t, 2, 0, 0, CoroutineKind::UserNorm);
    match poll_begin(&mut rt, 0) {
        PollStep::Run(task) => poll_finish(&mut rt, &mut p, &mut t, 0, 0, task.cid, false),
        _ => panic!("expected a coroutine to run"),
    }
    assert!(get_pending_status(&rt, 0, c));
    assert_eq!(p.data[0], PRIO_NUM);
    // the coroutine is still held, but nothing is ready
    assert!(matches!(poll_begin(&mut rt, 0), PollStep::Idle));
    rt.pull_to_ready(0, CidHandle(c));
    assert!(!get_pending_status(&rt, 0, c));
}

#[test]
fn poll_yields_reports_both_checks() {
    let mut p = SharedProcessPrioArray::new();
    let t = SharedThreadPrioArray::new();
    update_process_prio(&mut p, 0, 1);
    // process 0 is picked; its threads tie and the scan starts at thread PRIO_NUM
    assert_eq!(poll_yields(&mut p, &t, 0, 0), (false, true));
    assert_eq!(p.data[MAX_PROC_NUM], 0);
    assert_eq!(p.data[MAX_PROC_NUM + 1], PRIO_NUM % MAX_THREAD_NUM);
    assert_eq!(poll_yields(&mut p, &t, 0, PRIO_NUM % MAX_THREAD_NUM), (false, false));
    assert_eq!(poll_yields(&mut p, &t, 5, 0).0, true);
}

#[test]
fn lib_demo_names_the_library() {
    assert_eq!(lib_demo(), "This is from lib_so/sharedshedule/\n");
}

#[test]
fn check_prio_agrees_with_the_kernel_picks() {
    let mut t = SharedThreadPrioArray::new();
    update_thread_prio(&mut t, 2, 5, 1);
    let mut p = SharedProcessPrioArray::new();
    update_process_prio(&mut p, 2, 1);
    let mut q = SharedProcessPrioArray::new();
    update_process_prio(&mut q, 2, 1);
    let picked_pid = max_prio_pid(&mut q);
    let picked_tid = max_prio_tid(&mut q, &t, picked_pid);
    assert_eq!((picked_pid, picked_tid), (2, 5));
    assert!(!check_prio(&mut p, &t, 2, 5));
    assert_eq!(p.data, q.data);
    let mut p2 = SharedProcessPrioArray::new();
    update_process_prio(&mut p2, 2, 1);
    assert!(check_prio(&mut p2, &t, 2, 4));
    let mut p3 = SharedProcessPrioArray::new();
    update_process_prio(&mut p3, 2, 1);
    assert!(check_prio(&mut p3, &t, 3, 5));
    // a process that is not picked leaves the thread pick untouched
    assert_eq!(p3.data[MAX_PROC_NUM + 1], PRIO_NUM);
}

#[test]
fn lib_max_prio_pid_matches_max_prio_pid() {
    let mut a = SharedProcessPrioArray::new();
    let mut b = SharedProcessPrioArray::new();
    for (i, prio) in [(9usize, 3usize), (4, 2), (20, 2)] {
        update_process_prio(&mut a, i, prio);
        update_process_prio(&mut b, i, prio);
    }
    assert_eq!(lib_max_prio_pid(&mut a), max_prio_pid(&mut b));
    assert_eq!(a.data, b.data);
}

#[test]
fn idle_priority_executor_starts_at_the_given_priority() {
    let rt = Runtime::with_idle_prio(PRIO_NUM + 1);
    assert_eq!(rt.max_prio, PRIO_NUM + 1);
    assert!(rt.thread_prio.iter().all(|&p| p == PRIO_NUM + 1));
    assert!(rt.is_empty());
    let f = shared_scheduler::fifo_runtime::Runtime::with_idle_prio(0);
    assert_eq!(f.max_prio, 0);
    assert!(f.thread_prio.iter().all(|&p| p == 0));
}
