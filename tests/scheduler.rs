use stride_os::manager::{spawn_task, TaskManager};
use stride_os::task::{stride_lt, TaskControlBlock, TaskStatus, BIG_STRIDE, DEFAULT_PRIORITY};

/// Priority whose pass is `pass`.
fn prio(pass: u64) -> u64 {
    BIG_STRIDE / pass
}

#[test]
fn concrete_stride_scenario() {
    let mut m = TaskManager::new();
    let a = m.create_task(prio(10), 0);
    let b = m.create_task(prio(5), 0);
    let c = m.create_task(prio(10), 5);
    m.add(a);
    m.add(b);
    m.add(c);
    assert_eq!(m.run_next(), Some(a));
    assert_eq!(m.task(a).stride, 10);
    assert_eq!(m.task(a).status, TaskStatus::Running);
    assert_eq!(m.suspend_current_and_run_next(), Some(b));
    assert_eq!(m.task(b).stride, 5);
    assert_eq!(m.suspend_current_and_run_next(), Some(c));
    assert_eq!(m.task(c).stride, 15);
    assert_eq!(m.suspend_current_and_run_next(), Some(b));
    assert_eq!(m.suspend_current_and_run_next(), Some(a));
}

#[test]
fn equal_strides_first_enqueued_wins() {
    let mut m = TaskManager::new();
    let x = m.create_task(16, 7);
    let y = m.create_task(16, 7);
    m.add(y);
    m.add(x);
    assert_eq!(m.fetch(), Some(y));
    assert_eq!(m.fetch(), Some(x));
}

#[test]
fn fetch_on_empty_queue_is_idle() {
    let mut m = TaskManager::new();
    assert_eq!(m.fetch(), None);
    assert_eq!(m.queue_len(), 0);
    assert_eq!(m.run_next(), None);
    assert_eq!(m.current_task(), None);
}

#[test]
fn fetch_skips_tasks_that_are_not_ready() {
    let mut m = TaskManager::new();
    let a = m.create_task(16, 0);
    m.add(a);
    assert_eq!(m.run_next(), Some(a));
    m.add(a);
    assert_eq!(m.fetch(), None);
    assert_eq!(m.queue_len(), 1);
}

#[test]
fn fetch_takes_minimum_stride() {
    let mut m = TaskManager::new();
    let a = m.create_task(16, 300);
    let b = m.create_task(16, 100);
    let c = m.create_task(16, 200);
    m.add(a);
    m.add(b);
    m.add(c);
    assert_eq!(m.fetch(), Some(b));
    assert_eq!(m.fetch(), Some(c));
    assert_eq!(m.fetch(), Some(a));
    assert_eq!(m.fetch(), None);
}

#[test]
fn stride_order_survives_wraparound() {
    let mut m = TaskManager::new();
    let late = m.create_task(16, 3);
    let early = m.create_task(16, u64::MAX - 5);
    m.add(late);
    m.add(early);
    assert_eq!(m.run_next(), Some(early));
    assert_eq!(m.task(early).stride, (u64::MAX - 5).wrapping_add(BIG_STRIDE / 16));
    assert!(stride_lt(u64::MAX, 0));
    assert!(!stride_lt(0, u64::MAX));
    assert!(!stride_lt(4, 4));
}

#[test]
fn spawn_unresolved_program_changes_nothing() {
    let mut m = TaskManager::new();
    let init = m.create_task(16, 0);
    m.add(init);
    m.run_next();
    assert_eq!(spawn_task(&mut m, None), -1);
    assert_eq!(m.task_count(), 1);
    assert_eq!(m.queue_len(), 0);
    assert!(m.task(init).children.is_empty());
}

#[test]
fn spawn_adds_one_child_and_one_queue_entry() {
    let mut m = TaskManager::new();
    let init = m.create_task(16, 0);
    m.add(init);
    m.run_next();
    let image = [0x7fu8, b'E', b'L', b'F'];
    let pid = spawn_task(&mut m, Some(&image));
    assert_eq!(pid, 1);
    assert_eq!(m.task_count(), 2);
    assert_eq!(m.queue_len(), 1);
    assert_eq!(m.task(init).children, vec![1]);
    let child = m.task(1);
    assert_eq!(child.parent, Some(init));
    assert_eq!(child.status, TaskStatus::Ready);
    assert_eq!(child.stride, 0);
    assert_eq!(child.priority, DEFAULT_PRIORITY);
    assert_eq!(child.image_size, 4);
}

#[test]
fn spawn_without_running_task_has_no_parent() {
    let mut m = TaskManager::new();
    let pid = spawn_task(&mut m, Some(&[1u8, 2, 3]));
    assert_eq!(pid, 0);
    assert_eq!(m.task(0).parent, None);
    assert_eq!(m.queue_len(), 1);
}

#[test]
fn exited_task_is_never_fetched_again() {
    let mut m = TaskManager::new();
    let a = m.create_task(16, 0);
    let b = m.create_task(16, 50);
    m.add(a);
    m.add(b);
    assert_eq!(m.run_next(), Some(a));
    assert_eq!(m.exit_current_and_run_next(), Some(b));
    assert_eq!(m.task(a).status, TaskStatus::Zombie);
    m.add(a);
    assert_eq!(m.exit_current_and_run_next(), None);
    assert_eq!(m.task(a).status, TaskStatus::Zombie);
    assert_eq!(m.fetch(), None);
}

#[test]
fn dispatch_share_follows_priority() {
    let mut m = TaskManager::new();
    let low = m.create_task(100, 0);
    let high = m.create_task(200, 0);
    let top = m.create_task(400, 0);
    m.add(low);
    m.add(high);
    m.add(top);
    let mut counts = [0u32; 3];
    let mut next = m.run_next();
    for _ in 0..7000 {
        counts[next.unwrap()] += 1;
        next = m.suspend_current_and_run_next();
    }
    assert!(counts[low] >= 998 && counts[low] <= 1002);
    assert!(counts[high] >= 1998 && counts[high] <= 2002);
    assert!(counts[top] >= 3998 && counts[top] <= 4002);
}

#[test]
fn pass_is_inverse_to_priority() {
    let t = TaskControlBlock::new(0, 4, 0, 0);
    assert_eq!(t.pass(), BIG_STRIDE / 4);
    let u = TaskControlBlock::new(1, 2, 0, 0);
    assert_eq!(u.pass(), BIG_STRIDE / 2);
}

#[test]
fn counters_of_running_task() {
    let mut m = TaskManager::new();
    let a = m.create_task(16, 0);
    m.record_syscall(3);
    assert_eq!(m.task(a).syscall_times[3], 0);
    m.add(a);
    m.run_next();
    m.record_syscall(3);
    m.record_syscall(3);
    m.record_syscall(100_000);
    m.add_running_time(25);
    m.add_running_time(usize::MAX);
    assert_eq!(m.task(a).syscall_times[3], 2);
    assert_eq!(m.task(a).time, usize::MAX);
}

#[test]
fn set_priority_of_running_task() {
    let mut m = TaskManager::new();
    assert_eq!(m.set_priority(8), -1);
    let a = m.create_task(16, 0);
    m.add(a);
    m.run_next();
    assert_eq!(m.set_priority(1), -1);
    assert_eq!(m.task(a).priority, 16);
    assert_eq!(m.set_priority(8), 8);
    assert_eq!(m.task(a).priority, 8);
}
