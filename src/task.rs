//! The task control block and the quantities that stride scheduling reads.
use vstd::arithmetic::div_mod::lemma_div_is_ordered_by_denominator;
use vstd::prelude::*;

verus! {

/// Numerator of the pass increment: a task of priority `p` advances its
/// stride by `BIG_STRIDE / p` each time it is dispatched.
pub const BIG_STRIDE: u64 = 1_000_000;

/// Priority given to a task that is spawned.
pub const DEFAULT_PRIORITY: u64 = 16;

/// Smallest priority a task may have; it bounds the pass by `BIG_STRIDE / 2`.
pub const MIN_PRIORITY: u64 = 2;

/// Number of system-call numbers that are counted per task.
pub const MAX_SYSCALL_NUM: usize = 500;

/// Where a task is in its life cycle.
#[derive(Clone, Copy, Debug, PartialEq, Eq, Structural)]
pub enum TaskStatus {
    Ready,
    Running,
    Zombie,
}

/// The stride increment of a task of priority `priority`.
pub open spec fn pass_of(priority: u64) -> u64
    recommends
        priority > 0,
{
    (BIG_STRIDE / priority) as u64
}

/// `a + b` on the cyclic order of 64-bit stride values.
pub open spec fn stride_add(a: u64, b: u64) -> u64 {
    if a + b > u64::MAX {
        (a + b - 0x1_0000_0000_0000_0000) as u64
    } else {
        (a + b) as u64
    }
}

/// Stride `a` comes strictly before stride `b` on the cyclic order: the
/// distance from `b` forward to `a` is at least half the cycle.
pub open spec fn stride_before(a: u64, b: u64) -> bool {
    if a >= b {
        a - b >= 0x8000_0000_0000_0000
    } else {
        b - a <= 0x8000_0000_0000_0000
    }
}

/// Forward distance from `base` to `a` on the cycle of stride values: the
/// virtual time elapsed since `base`.
pub open spec fn elapsed(a: u64, base: u64) -> int {
    if a >= base {
        a - base
    } else {
        a + 0x1_0000_0000_0000_0000 - base
    }
}

/// While two strides lie less than half a cycle past a common base, the
/// cyclic order between them is the order of their elapsed virtual time,
/// even where one of them has wrapped past zero.
pub proof fn law_stride_order_is_elapsed_order(a: u64, b: u64, base: u64)
    requires
        elapsed(a, base) < 0x8000_0000_0000_0000,
        elapsed(b, base) < 0x8000_0000_0000_0000,
    ensures
        stride_before(a, b) <==> elapsed(a, base) < elapsed(b, base),
{
}

/// Advancing a stride moves its elapsed virtual time forward by the pass,
/// across the wrap as well.
pub proof fn law_stride_add_elapsed(a: u64, pass: u64, base: u64)
    requires
        elapsed(a, base) + pass < 0x1_0000_0000_0000_0000,
    ensures
        elapsed(stride_add(a, pass), base) == elapsed(a, base) + pass,
{
}

/// Dispatching a task of least elapsed virtual time and advancing it by a
/// pass no larger than `w` keeps every two elapsed times within `w` of each
/// other: no task falls behind the others by more than one largest pass.
pub proof fn law_spread_kept(v: Seq<int>, i: int, pass: int, w: int)
    requires
        0 <= i < v.len(),
        0 <= pass <= w,
        forall|j: int| 0 <= j < v.len() ==> v[i] <= #[trigger] v[j],
        forall|j: int, k: int| 0 <= j < v.len() && 0 <= k < v.len() ==> #[trigger] v[j] - #[trigger] v[k] <= w,
    ensures
        forall|j: int, k: int|
            0 <= j < v.len() && 0 <= k < v.len() ==> #[trigger] v.update(i, v[i] + pass)[j]
                - #[trigger] v.update(i, v[i] + pass)[k] <= w,
{
    let u = v.update(i, v[i] + pass);
    assert forall|j: int, k: int| 0 <= j < v.len() && 0 <= k < v.len() implies #[trigger] u[j]
        - #[trigger] u[k] <= w by {
        assert(v[j] - v[k] <= w);
        assert(v[k] - v[i] <= w);
        assert(v[j] - v[i] <= w);
    }
}

/// Executable form of `stride_before`.
pub fn stride_lt(a: u64, b: u64) -> (r: bool)
    ensures
        r == stride_before(a, b),
{
    a.wrapping_sub(b) >= 0x8000_0000_0000_0000
}

/// The record of one schedulable task.
pub struct TaskControlBlock {
    /// Identifier; also the task's slot in the arena of its manager.
    pub pid: usize,
    pub status: TaskStatus,
    /// Virtual time consumed so far, on the cyclic order.
    pub stride: u64,
    pub priority: u64,
    /// Identifier of the parent, held without ownership.
    pub parent: Option<usize>,
    /// Identifiers of the children, in order of creation.
    pub children: Vec<usize>,
    /// Length of the program image the task was created from.
    pub image_size: usize,
    /// Number of calls of each system-call number.
    pub syscall_times: [u32; MAX_SYSCALL_NUM],
    /// Cumulative running time.
    pub time: usize,
}

impl TaskControlBlock {
    pub open spec fn wf(&self) -> bool {
        self.priority >= MIN_PRIORITY
    }

    /// A fresh Ready task with no relatives and zeroed counters.
    pub fn new(pid: usize, priority: u64, stride: u64, image_size: usize) -> (r: Self)
        requires
            priority >= MIN_PRIORITY,
        ensures
            r.wf(),
            r.pid == pid,
            r.status == TaskStatus::Ready,
            r.stride == stride,
            r.priority == priority,
            r.parent == None::<usize>,
            r.children@ == Seq::<usize>::empty(),
            r.image_size == image_size,
            forall|i: int| 0 <= i < MAX_SYSCALL_NUM ==> #[trigger] r.syscall_times@[i] == 0,
            r.time == 0,
    {
        TaskControlBlock {
            pid,
            status: TaskStatus::Ready,
            stride,
            priority,
            parent: None,
            children: Vec::new(),
            image_size,
            syscall_times: [0u32; MAX_SYSCALL_NUM],
            time: 0,
        }
    }

    /// The stride increment that follows from the priority.
    pub fn pass(&self) -> (r: u64)
        requires
            self.wf(),
        ensures
            r == pass_of(self.priority),
            r <= BIG_STRIDE / 2,
    {
        proof {
            lemma_div_is_ordered_by_denominator(BIG_STRIDE as int, 2, self.priority as int);
        }
        BIG_STRIDE / self.priority
    }
}

} // verus!
