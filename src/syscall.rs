//! System-call handlers for process management, and the records they
//! write into user memory.
use crate::manager::TaskManager;
use crate::task::{TaskStatus, MAX_SYSCALL_NUM};
use vstd::prelude::*;

verus! {

/// Size of a page of the address space, in bytes.
pub const PAGE_SIZE: usize = 4096;

/// Microseconds in one second.
pub const MICRO_PER_SEC: usize = 1_000_000;

/// A point in time as whole seconds and remaining microseconds.
pub struct TimeVal {
    pub sec: usize,
    pub usec: usize,
}

impl TimeVal {
    /// Splits a count of microseconds into seconds and microseconds.
    pub fn from_us(us: usize) -> (r: TimeVal)
        ensures
            r.sec == us / MICRO_PER_SEC,
            r.usec == us % MICRO_PER_SEC,
            r.usec < MICRO_PER_SEC,
            r.sec * MICRO_PER_SEC + r.usec == us,
    {
        TimeVal { sec: us / MICRO_PER_SEC, usec: us % MICRO_PER_SEC }
    }
}

/// What `task_info` reports of the calling task.
pub struct TaskInfo {
    /// Where the task is in its life cycle.
    pub status: TaskStatus,
    /// Number of calls of each system-call number.
    pub syscall_times: [u32; MAX_SYSCALL_NUM],
    /// Cumulative running time.
    pub time: usize,
}

/// The record of the running task, or nothing when none runs.
pub fn current_task_info(m: &TaskManager) -> (r: Option<TaskInfo>)
    requires
        m.wf(),
    ensures
        match m.running() {
            Some(c) => r matches Some(info) && info.status == m.tasks()[c as int].status
                && info.syscall_times@ == m.tasks()[c as int].syscall_times@ && info.time
                == m.tasks()[c as int].time,
            None => r is None,
        },
{
    match m.current_task() {
        Some(c) => {
            let t = m.task(c);
            Some(TaskInfo { status: t.status, syscall_times: t.syscall_times, time: t.time })
        },
        None => None,
    }
}

/// How a record of `size` bytes at user address `vaddr` falls on pages: the
/// number of bytes up to the end of the first page, and the number that
/// spill into the next one. Each part is translated and written on its own.
pub fn page_split(vaddr: usize, size: usize) -> (r: (usize, usize))
    requires
        size <= PAGE_SIZE,
    ensures
        r.0 + r.1 == size,
        r.0 == if size <= PAGE_SIZE - vaddr % PAGE_SIZE {
            size
        } else {
            (PAGE_SIZE - vaddr % PAGE_SIZE) as usize
        },
{
    let room = PAGE_SIZE - vaddr % PAGE_SIZE;
    if size <= room {
        (size, 0)
    } else {
        (room, size - room)
    }
}

/// The running task exits and the next task is dispatched; returns the
/// dispatched task, or nothing when the processor goes idle.
pub fn sys_exit(m: &mut TaskManager, _exit_code: i32) -> (r: Option<usize>)
    requires
        old(m).wf(),
    ensures
        final(m).wf(),
        old(m).zombies_kept(*final(m)),
        old(m).exited(*final(m), r),
{
    m.exit_current_and_run_next()
}

/// The running task gives up the processor to the next task; always 0.
pub fn sys_yield(m: &mut TaskManager) -> (r: isize)
    requires
        old(m).wf(),
    ensures
        r == 0,
        final(m).wf(),
        old(m).zombies_kept(*final(m)),
        exists|next: Option<usize>| #[trigger] old(m).yielded(*final(m), next),
{
    let next = m.suspend_current_and_run_next();
    assert(old(m).yielded(*m, next));
    0
}

/// Result of `mmap` from the address-space manager's verdict on the request.
pub fn sys_mmap(mapped: bool) -> (r: isize)
    ensures
        r == if mapped {
            0
        } else {
            -1
        },
{
    if mapped {
        0
    } else {
        -1
    }
}

/// Result of `munmap` from the address-space manager's verdict on the
/// request.
pub fn sys_munmap(unmapped: bool) -> (r: isize)
    ensures
        r == if unmapped {
            0
        } else {
            -1
        },
{
    if unmapped {
        0
    } else {
        -1
    }
}

/// Result of `sbrk` from the previous program break that the memory manager
/// reports, or nothing when it rejected the change.
pub fn sys_sbrk(old_brk: Option<usize>) -> (r: isize)
    requires
        old_brk matches Some(b) ==> b <= isize::MAX,
    ensures
        r == match old_brk {
            Some(b) => b as int,
            None => -1,
        },
{
    match old_brk {
        Some(b) => b as isize,
        None => -1,
    }
}

} // verus!
