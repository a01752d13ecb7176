use std::collections::BTreeMap;
use shared_scheduler::config::{MAX_PROC_NUM, MAX_THREAD_NUM};
use shared_scheduler::manager::{
    add_task, fetch_task_coroutine, insert_into_pid2process, pid2process, remove_from_pid2process, wakeup_task,
    QueuedTask, TaskManager, TaskStatus,
};
use shared_scheduler::sharedscheduler::{update_process_prio, update_thread_prio, SharedProcessPrioArray, SharedThreadPrioArray};

fn task(pid: usize, tid: usize, name: &'static str) -> QueuedTask<&'static str> {
    QueuedTask { pid, tid, status: TaskStatus::Blocked, task: name }
}

fn names(m: &TaskManager<&'static str>) -> Vec<&'static str> {
    m.ready_queue.iter().map(|t| t.task).collect()
}

#[test]
fn fetch_takes_the_picked_thread_and_rotates() {
    let mut m = TaskManager::new();
    let mut p = SharedProcessPrioArray::new();
    let mut t = SharedThreadPrioArray::new();
    update_process_prio(&mut p, 2, 1);
    update_thread_prio(&mut t, 2, 1, 1);
    m.add(task(1, 0, "a"));
    m.add(task(2, 0, "b"));
    m.add(task(2, 1, "c"));
    m.add(task(3, 0, "d"));
    let r = m.fetch_coroutine(&mut p, &t).unwrap();
    assert_eq!(r.task, "c");
    assert_eq!(names(&m), vec!["d", "a", "b"]);
    assert_eq!(p.data[MAX_PROC_NUM], 2);
    assert_eq!(p.data[MAX_PROC_NUM + 1], 1);
}

#[test]
fn fetch_takes_the_front_when_nothing_matches() {
    let mut m = TaskManager::new();
    let mut p = SharedProcessPrioArray::new();
    let t = SharedThreadPrioArray::new();
    update_process_prio(&mut p, MAX_PROC_NUM - 1, 1);
    m.add(task(1, 0, "a"));
    m.add(task(2, 0, "b"));
    let r = fetch_task_coroutine(&mut m, &mut p, &t).unwrap();
    assert_eq!(r.task, "a");
    assert_eq!(names(&m), vec!["b"]);
}

#[test]
fn fetch_on_empty_queue_is_none() {
    let mut m: TaskManager<&'static str> = TaskManager::new();
    let mut p = SharedProcessPrioArray::new();
    let t = SharedThreadPrioArray::new();
    assert!(m.fetch_coroutine(&mut p, &t).is_none());
    assert_eq!(p.data[MAX_PROC_NUM + 1], 8 % MAX_THREAD_NUM);
}

#[test]
fn prioritize_brings_process_to_front() {
    let mut m = TaskManager::new();
    m.add(task(1, 0, "a"));
    m.add(task(2, 0, "b"));
    m.add(task(3, 0, "c"));
    m.add(task(4, 0, "d"));
    m.prioritize(3);
    assert_eq!(names(&m), vec!["c", "d", "a", "b"]);
    m.prioritize(9);
    assert_eq!(names(&m), vec!["c", "d", "a", "b"]);
}

#[test]
fn prioritize_stops_at_front_process() {
    let mut m = TaskManager::new();
    m.add(task(1, 0, "a"));
    m.add(task(2, 0, "b"));
    m.add(task(1, 1, "c"));
    m.add(task(3, 0, "d"));
    m.prioritize(3);
    assert_eq!(names(&m), vec!["c", "d", "a", "b"]);
}

#[test]
fn prioritize_leaves_short_queues() {
    let mut m = TaskManager::new();
    m.prioritize(1);
    assert!(m.ready_queue.is_empty());
    m.add(task(1, 0, "a"));
    m.prioritize(2);
    assert_eq!(names(&m), vec!["a"]);
}

#[test]
fn wakeup_marks_ready_and_queues() {
    let mut m = TaskManager::new();
    add_task(&mut m, task(1, 0, "a"));
    wakeup_task(&mut m, task(2, 0, "b"));
    assert_eq!(names(&m), vec!["a", "b"]);
    assert_eq!(m.ready_queue[0].status, TaskStatus::Blocked);
    assert_eq!(m.ready_queue[1].status, TaskStatus::Ready);
}

#[test]
fn pid_registry() {
    let mut map: BTreeMap<usize, &'static str> = BTreeMap::new();
    assert_eq!(pid2process(&map, 3), None);
    insert_into_pid2process(&mut map, 3, "init");
    assert_eq!(pid2process(&map, 3), Some(&"init"));
    insert_into_pid2process(&mut map, 3, "shell");
    assert_eq!(pid2process(&map, 3), Some(&"shell"));
    remove_from_pid2process(&mut map, 3);
    assert_eq!(pid2process(&map, 3), None);
}
