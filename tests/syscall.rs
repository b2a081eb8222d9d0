use stride_os::manager::TaskManager;
use stride_os::syscall::{
    current_task_info, page_split, sys_exit, sys_mmap, sys_munmap, sys_sbrk, sys_yield, TimeVal,
};
use stride_os::task::TaskStatus;

#[test]
fn time_splits_into_seconds_and_micros() {
    let t = TimeVal::from_us(3_500_042);
    assert_eq!(t.sec, 3);
    assert_eq!(t.usec, 500_042);
    let z = TimeVal::from_us(999_999);
    assert_eq!(z.sec, 0);
    assert_eq!(z.usec, 999_999);
}

#[test]
fn record_that_straddles_a_page_is_split() {
    assert_eq!(page_split(4090, 16), (6, 10));
    assert_eq!(page_split(8192, 16), (16, 0));
    assert_eq!(page_split(4080, 16), (16, 0));
}

#[test]
fn mapping_results() {
    assert_eq!(sys_mmap(true), 0);
    assert_eq!(sys_mmap(false), -1);
    assert_eq!(sys_munmap(true), 0);
    assert_eq!(sys_munmap(false), -1);
}

#[test]
fn sbrk_returns_previous_break() {
    assert_eq!(sys_sbrk(Some(0x1000)), 0x1000);
    assert_eq!(sys_sbrk(None), -1);
}

#[test]
fn task_info_of_running_task() {
    let mut m = TaskManager::new();
    assert!(current_task_info(&m).is_none());
    let a = m.create_task(16, 0);
    m.add(a);
    m.run_next();
    m.record_syscall(169);
    m.add_running_time(12);
    let info = current_task_info(&m).unwrap();
    assert_eq!(info.status, TaskStatus::Running);
    assert_eq!(info.syscall_times[169], 1);
    assert_eq!(info.syscall_times[0], 0);
    assert_eq!(info.time, 12);
}

#[test]
fn yield_and_exit_hand_over_the_processor() {
    let mut m = TaskManager::new();
    let a = m.create_task(16, 0);
    let b = m.create_task(16, 0);
    m.add(a);
    m.add(b);
    m.run_next();
    assert_eq!(sys_yield(&mut m), 0);
    assert_eq!(m.current_task(), Some(b));
    assert_eq!(m.task(a).status, TaskStatus::Ready);
    assert_eq!(sys_exit(&mut m, 0), Some(a));
    assert_eq!(m.task(b).status, TaskStatus::Zombie);
    assert_eq!(sys_exit(&mut m, 0), None);
    assert_eq!(m.current_task(), None);
}
