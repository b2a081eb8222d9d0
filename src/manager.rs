//! The task manager: an arena of task control blocks keyed by pid, the ready
//! queue, the running task, and stride-based selection.
use crate::task::{
    elapsed, law_stride_order_is_elapsed_order, pass_of, stride_add, stride_before, stride_lt,
    TaskControlBlock, TaskStatus, DEFAULT_PRIORITY, MAX_SYSCALL_NUM, MIN_PRIORITY,
};
use vstd::prelude::*;

verus! {

/// The fields of a task that scheduling does not touch are equal.
pub open spec fn same_record(a: TaskControlBlock, b: TaskControlBlock) -> bool {
    &&& a.pid == b.pid
    &&& a.priority == b.priority
    &&& a.parent == b.parent
    &&& a.children@ == b.children@
    &&& a.image_size == b.image_size
    &&& a.syscall_times@ == b.syscall_times@
    &&& a.time == b.time
}

/// The fields of a task other than its children are equal.
pub open spec fn same_except_children(a: TaskControlBlock, b: TaskControlBlock) -> bool {
    &&& a.pid == b.pid
    &&& a.status == b.status
    &&& a.stride == b.stride
    &&& a.priority == b.priority
    &&& a.parent == b.parent
    &&& a.image_size == b.image_size
    &&& a.syscall_times@ == b.syscall_times@
    &&& a.time == b.time
}

/// With no Ready entry in the queue, `fetch` takes nothing and the queue
/// keeps its entries.
pub proof fn law_idle_fetch(m: TaskManager, post: TaskManager, r: Option<usize>)
    requires
        m.wf(),
        forall|i: int| 0 <= i < m.queue().len() ==> !#[trigger] m.ready_at(i),
        m.fetched(post, r),
    ensures
        r is None,
        post.queue() == m.queue(),
{
    if let Some(pid) = r {
        let i = choose|i: int|
            #[trigger] m.selected(i) && m.queue()[i] == pid && post.queue() == m.queue().remove(i);
        assert(m.ready_at(i));
    }
}

/// A Ready entry among the first `n` whose elapsed virtual time since `base`
/// is least among them.
proof fn lemma_least_elapsed(m: TaskManager, base: u64, n: int) -> (k: int)
    requires
        0 <= n <= m.queue().len(),
        exists|i: int| 0 <= i < n && #[trigger] m.ready_at(i),
    ensures
        0 <= k < n,
        m.ready_at(k),
        forall|j: int|
            0 <= j < n && #[trigger] m.ready_at(j) ==> elapsed(m.stride_at(k), base) <= elapsed(
                m.stride_at(j),
                base,
            ),
    decreases n,
{
    if exists|i: int| 0 <= i < n - 1 && #[trigger] m.ready_at(i) {
        let k = lemma_least_elapsed(m, base, n - 1);
        if m.ready_at(n - 1) && elapsed(m.stride_at(n - 1), base) < elapsed(m.stride_at(k), base) {
            n - 1
        } else {
            k
        }
    } else {
        n - 1
    }
}

/// While the strides of all Ready entries lie less than half a cycle past a
/// common base, a minimal entry exists, and the one `fetch` takes has the
/// least elapsed virtual time of all Ready entries: the cyclic comparison
/// picks the true minimum across a wrap of the counter.
pub proof fn law_fetch_takes_least_elapsed(m: TaskManager, base: u64, i: int)
    requires
        m.wf(),
        m.has_ready(),
        forall|j: int|
            0 <= j < m.queue().len() && #[trigger] m.ready_at(j) ==> elapsed(m.stride_at(j), base)
                < 0x8000_0000_0000_0000,
        m.selected(i),
    ensures
        m.has_stride_min(),
        m.ready_at(i),
        forall|j: int|
            0 <= j < m.queue().len() && #[trigger] m.ready_at(j) ==> elapsed(m.stride_at(i), base)
                <= elapsed(m.stride_at(j), base),
{
    let n = m.queue().len() as int;
    let k = lemma_least_elapsed(m, base, n);
    assert forall|j: int| 0 <= j < n && #[trigger] m.ready_at(j) implies !stride_before(
        m.stride_at(j),
        m.stride_at(k),
    ) by {
        law_stride_order_is_elapsed_order(m.stride_at(j), m.stride_at(k), base);
    }
    assert(m.is_stride_min(k));
    assert forall|j: int| 0 <= j < n && #[trigger] m.ready_at(j) implies elapsed(
        m.stride_at(i),
        base,
    ) <= elapsed(m.stride_at(j), base) by {
        law_stride_order_is_elapsed_order(m.stride_at(j), m.stride_at(i), base);
        assert(!stride_before(m.stride_at(j), m.stride_at(i)));
    }
}

/// Of two Ready entries with equal strides, the later one is never the one
/// taken: the entry enqueued first goes first.
pub proof fn law_tie_break(m: TaskManager, i: int, j: int)
    requires
        m.wf(),
        0 <= i < j < m.queue().len(),
        m.ready_at(i),
        m.ready_at(j),
        m.stride_at(i) == m.stride_at(j),
    ensures
        !m.selected(j),
{
    if m.has_stride_min() && m.is_stride_min(j) {
        assert(m.is_stride_min(i));
    }
}

/// What `fetch` takes out of the queue was Ready.
pub proof fn law_fetch_takes_ready(m: TaskManager, post: TaskManager, pid: usize)
    requires
        m.wf(),
        m.fetched(post, Some(pid)),
    ensures
        pid < m.tasks().len(),
        m.tasks()[pid as int].status == TaskStatus::Ready,
{
    let i = choose|i: int|
        #[trigger] m.selected(i) && m.queue()[i] == pid && post.queue() == m.queue().remove(i);
    assert(m.ready_at(i));
}

/// A Zombie is never fetched, nor dispatched, whatever refers to it.
pub proof fn law_zombie_never_fetched(m: TaskManager, post: TaskManager, r: Option<usize>, p: usize)
    requires
        m.wf(),
        p < m.tasks().len(),
        m.tasks()[p as int].status == TaskStatus::Zombie,
        m.fetched(post, r) || m.dispatched(post, r),
    ensures
        r != Some(p),
{
    if r == Some(p) {
        let i = choose|i: int|
            #[trigger] m.selected(i) && m.queue()[i] == p && (post.queue() == m.queue().remove(i));
        assert(m.ready_at(i));
    }
}

/// Owner of all tasks and of the ready queue.
pub struct TaskManager {
    tasks: Vec<TaskControlBlock>,
    ready_queue: Vec<usize>,
    current: Option<usize>,
}

impl TaskManager {
    /// All tasks, indexed by pid.
    pub closed spec fn tasks(&self) -> Seq<TaskControlBlock> {
        self.tasks@
    }

    /// The ready queue, as pids in order of enqueueing.
    pub closed spec fn queue(&self) -> Seq<usize> {
        self.ready_queue@
    }

    /// The task that is running, if any.
    pub closed spec fn running(&self) -> Option<usize> {
        self.current
    }

    pub open spec fn wf(&self) -> bool {
        &&& forall|p: int|
            0 <= p < self.tasks().len() ==> (#[trigger] self.tasks()[p]).pid == p
                && self.tasks()[p].wf()
        &&& forall|i: int|
            0 <= i < self.queue().len() ==> #[trigger] self.queue()[i] < self.tasks().len()
        &&& self.running() matches Some(c) ==> c < self.tasks().len()
            && self.tasks()[c as int].status == TaskStatus::Running
    }

    /// The task at queue position `i` is Ready.
    pub open spec fn ready_at(&self, i: int) -> bool {
        self.tasks()[self.queue()[i] as int].status == TaskStatus::Ready
    }

    /// Stride of the task at queue position `i`.
    pub open spec fn stride_at(&self, i: int) -> u64 {
        self.tasks()[self.queue()[i] as int].stride
    }

    pub open spec fn has_ready(&self) -> bool {
        exists|i: int| 0 <= i < self.queue().len() && #[trigger] self.ready_at(i)
    }

    /// The entry at `i` is Ready and no Ready entry comes strictly before it
    /// on the cyclic stride order.
    pub open spec fn is_stride_min(&self, i: int) -> bool {
        &&& 0 <= i < self.queue().len()
        &&& self.ready_at(i)
        &&& forall|j: int|
            0 <= j < self.queue().len() && #[trigger] self.ready_at(j) ==> !stride_before(
                self.stride_at(j),
                self.stride_at(i),
            )
    }

    pub open spec fn has_stride_min(&self) -> bool {
        exists|i: int| #[trigger] self.is_stride_min(i)
    }

    /// The entry `fetch` takes: the earliest Ready entry of minimal stride;
    /// when the Ready strides wrap so that none is minimal, the earliest
    /// Ready entry.
    pub open spec fn selected(&self, i: int) -> bool {
        if self.has_stride_min() {
            self.is_stride_min(i) && forall|k: int| 0 <= k < i ==> !#[trigger] self.is_stride_min(k)
        } else {
            0 <= i < self.queue().len() && self.ready_at(i) && forall|k: int|
                0 <= k < i ==> !#[trigger] self.ready_at(k)
        }
    }

    /// `post` is `self` after `fetch` returned `r`.
    pub open spec fn fetched(&self, post: Self, r: Option<usize>) -> bool {
        &&& post.tasks() == self.tasks()
        &&& post.running() == self.running()
        &&& match r {
            None => !self.has_ready() && post.queue() == self.queue(),
            Some(pid) => exists|i: int|
                #[trigger] self.selected(i) && self.queue()[i] == pid && post.queue()
                    == self.queue().remove(i),
        }
    }

    /// `post` is `self` after the task chosen by `fetch` was dispatched: it
    /// runs, and its stride has advanced by its pass.
    pub open spec fn dispatched(&self, post: Self, r: Option<usize>) -> bool {
        &&& post.running() == r
        &&& post.tasks().len() == self.tasks().len()
        &&& match r {
            None => !self.has_ready() && post.queue() == self.queue() && post.tasks()
                == self.tasks(),
            Some(pid) => {
                &&& exists|i: int|
                    #[trigger] self.selected(i) && self.queue()[i] == pid && post.queue()
                        == self.queue().remove(i)
                &&& forall|p: int|
                    0 <= p < self.tasks().len() && p != pid ==> #[trigger] post.tasks()[p]
                        == self.tasks()[p]
                &&& same_record(post.tasks()[pid as int], self.tasks()[pid as int])
                &&& post.tasks()[pid as int].status == TaskStatus::Running
                &&& post.tasks()[pid as int].stride == stride_add(
                    self.tasks()[pid as int].stride,
                    pass_of(self.tasks()[pid as int].priority),
                )
            },
        }
    }

    /// `post` is `self` after the running task yielded and `r` was
    /// dispatched: the yielding task went Ready to the tail of the queue.
    pub open spec fn yielded(&self, post: Self, r: Option<usize>) -> bool {
        exists|mid: Self|
            {
                &&& mid.wf()
                &&& #[trigger] mid.dispatched(post, r)
                &&& mid.tasks().len() == self.tasks().len()
                &&& mid.running() == None::<usize>
                &&& match self.running() {
                    Some(c) => {
                        &&& mid.queue() == self.queue().push(c)
                        &&& mid.tasks()[c as int].status == TaskStatus::Ready
                        &&& mid.tasks()[c as int].stride == self.tasks()[c as int].stride
                        &&& same_record(mid.tasks()[c as int], self.tasks()[c as int])
                        &&& forall|p: int|
                            0 <= p < self.tasks().len() && p != c ==> #[trigger] mid.tasks()[p]
                                == self.tasks()[p]
                    },
                    None => mid.queue() == self.queue() && mid.tasks() == self.tasks(),
                }
            }
    }

    /// `post` is `self` after the running task exited and `r` was
    /// dispatched: the exiting task is a Zombie and was not enqueued.
    pub open spec fn exited(&self, post: Self, r: Option<usize>) -> bool {
        exists|mid: Self|
            {
                &&& mid.wf()
                &&& #[trigger] mid.dispatched(post, r)
                &&& mid.tasks().len() == self.tasks().len()
                &&& mid.running() == None::<usize>
                &&& mid.queue() == self.queue()
                &&& match self.running() {
                    Some(c) => {
                        &&& mid.tasks()[c as int].status == TaskStatus::Zombie
                        &&& mid.tasks()[c as int].stride == self.tasks()[c as int].stride
                        &&& same_record(mid.tasks()[c as int], self.tasks()[c as int])
                        &&& forall|p: int|
                            0 <= p < self.tasks().len() && p != c ==> #[trigger] mid.tasks()[p]
                                == self.tasks()[p]
                    },
                    None => mid.tasks() == self.tasks(),
                }
            }
    }

    /// Every task that was a Zombie in `self` is still one in `post`.
    pub open spec fn zombies_kept(&self, post: Self) -> bool {
        &&& post.tasks().len() >= self.tasks().len()
        &&& forall|p: int|
            0 <= p < self.tasks().len() && #[trigger] self.tasks()[p].status == TaskStatus::Zombie
                ==> post.tasks()[p].status == TaskStatus::Zombie
    }

    /// A manager with no tasks.
    pub fn new() -> (r: Self)
        ensures
            r.wf(),
            r.tasks() == Seq::<TaskControlBlock>::empty(),
            r.queue() == Seq::<usize>::empty(),
            r.running() == None::<usize>,
    {
        TaskManager { tasks: Vec::new(), ready_queue: Vec::new(), current: None }
    }

    /// Number of tasks ever created; the next pid.
    pub fn task_count(&self) -> (r: usize)
        ensures
            r == self.tasks().len(),
    {
        self.tasks.len()
    }

    /// The task with identifier `pid`.
    pub fn task(&self, pid: usize) -> (r: &TaskControlBlock)
        requires
            pid < self.tasks().len(),
        ensures
            *r == self.tasks()[pid as int],
    {
        &self.tasks[pid]
    }

    /// The running task, if any.
    pub fn current_task(&self) -> (r: Option<usize>)
        ensures
            r == self.running(),
    {
        self.current
    }

    /// Number of entries in the ready queue.
    pub fn queue_len(&self) -> (r: usize)
        ensures
            r == self.queue().len(),
    {
        self.ready_queue.len()
    }

    /// Creates a Ready task with no relatives, without enqueueing it, and
    /// returns its pid.
    pub fn create_task(&mut self, priority: u64, stride: u64) -> (r: usize)
        requires
            old(self).wf(),
            old(self).tasks().len() < usize::MAX,
            priority >= MIN_PRIORITY,
        ensures
            final(self).wf(),
            old(self).zombies_kept(*final(self)),
            r == old(self).tasks().len(),
            final(self).tasks().len() == old(self).tasks().len() + 1,
            final(self).tasks().subrange(0, r as int) == old(self).tasks(),
            final(self).tasks()[r as int].status == TaskStatus::Ready,
            final(self).tasks()[r as int].stride == stride,
            final(self).tasks()[r as int].priority == priority,
            final(self).tasks()[r as int].parent == None::<usize>,
            final(self).tasks()[r as int].children@ == Seq::<usize>::empty(),
            final(self).queue() == old(self).queue(),
            final(self).running() == old(self).running(),
    {
        let pid = self.tasks.len();
        let t = TaskControlBlock::new(pid, priority, stride, 0);
        self.tasks.push(t);
        assert(self.tasks@.subrange(0, pid as int) =~= old(self).tasks@);
        assert(forall|p: int| 0 <= p < pid ==> self.tasks()[p] == old(self).tasks()[p]);
        assert(self.queue() == old(self).queue());
        assert(self.tasks()[pid as int].pid == pid);
        pid
    }

    /// Appends `pid` to the tail of the ready queue, whatever its status.
    pub fn add(&mut self, pid: usize)
        requires
            old(self).wf(),
            pid < old(self).tasks().len(),
        ensures
            final(self).wf(),
            old(self).zombies_kept(*final(self)),
            final(self).queue() == old(self).queue().push(pid),
            final(self).tasks() == old(self).tasks(),
            final(self).running() == old(self).running(),
    {
        self.ready_queue.push(pid);
        assert(forall|i: int|
            0 <= i < old(self).queue().len() ==> self.queue()[i] == old(self).queue()[i]);
    }

    fn entry_ready(&self, i: usize) -> (r: bool)
        requires
            self.wf(),
            i < self.queue().len(),
        ensures
            r == self.ready_at(i as int),
    {
        self.tasks[self.ready_queue[i]].status == TaskStatus::Ready
    }

    fn entry_stride(&self, i: usize) -> (r: u64)
        requires
            self.wf(),
            i < self.queue().len(),
        ensures
            r == self.stride_at(i as int),
    {
        self.tasks[self.ready_queue[i]].stride
    }

    fn entry_is_stride_min(&self, i: usize) -> (r: bool)
        requires
            self.wf(),
            i < self.queue().len(),
            self.ready_at(i as int),
        ensures
            r == self.is_stride_min(i as int),
    {
        let s = self.entry_stride(i);
        let n = self.ready_queue.len();
        let mut j: usize = 0;
        while j < n
            invariant
                self.wf(),
                n == self.queue().len(),
                i < n,
                s == self.stride_at(i as int),
                j <= n,
                forall|k: int|
                    0 <= k < j && #[trigger] self.ready_at(k) ==> !stride_before(
                        self.stride_at(k),
                        s,
                    ),
            decreases n - j,
        {
            if self.entry_ready(j) && stride_lt(self.entry_stride(j), s) {
                return false;
            }
            j = j + 1;
        }
        true
    }

    /// Takes the selected entry out of the ready queue and returns its pid,
    /// or returns nothing and leaves the queue as it is when no entry is Ready.
    pub fn fetch(&mut self) -> (r: Option<usize>)
        requires
            old(self).wf(),
        ensures
            final(self).wf(),
            old(self).zombies_kept(*final(self)),
            old(self).fetched(*final(self), r),
            r is Some <==> old(self).has_ready(),
    {
        let n = self.ready_queue.len();
        let mut i: usize = 0;
        while i < n
            invariant
                self.wf(),
                *self == *old(self),
                n == self.queue().len(),
                i <= n,
                forall|k: int| 0 <= k < i ==> !#[trigger] self.is_stride_min(k),
            decreases n - i,
        {
            if self.entry_ready(i) && self.entry_is_stride_min(i) {
                assert(old(self).selected(i as int));
                assert(old(self).ready_at(i as int));
                let pid = self.ready_queue.remove(i);
                assert(old(self).queue()[i as int] == pid);
                assert(self.tasks() == old(self).tasks());
                assert(forall|k: int|
                    0 <= k < self.queue().len() ==> #[trigger] self.queue()[k]
                        == old(self).queue().remove(i as int)[k]);
                return Some(pid);
            }
            i = i + 1;
        }
        assert(!self.has_stride_min());
        let mut i: usize = 0;
        while i < n
            invariant
                self.wf(),
                *self == *old(self),
                n == self.queue().len(),
                i <= n,
                !self.has_stride_min(),
                forall|k: int| 0 <= k < i ==> !#[trigger] self.ready_at(k),
            decreases n - i,
        {
            if self.entry_ready(i) {
                assert(old(self).selected(i as int));
                assert(old(self).ready_at(i as int));
                let pid = self.ready_queue.remove(i);
                assert(old(self).queue()[i as int] == pid);
                assert(self.tasks() == old(self).tasks());
                assert(forall|k: int|
                    0 <= k < self.queue().len() ==> #[trigger] self.queue()[k]
                        == old(self).queue().remove(i as int)[k]);
                return Some(pid);
            }
            i = i + 1;
        }
        None
    }

    /// Takes the selected task out of the ready queue and makes it the
    /// running task, advancing its stride by its pass. Returns nothing when
    /// no task is Ready: the caller idles.
    pub fn run_next(&mut self) -> (r: Option<usize>)
        requires
            old(self).wf(),
            old(self).running() == None::<usize>,
        ensures
            final(self).wf(),
            old(self).dispatched(*final(self), r),
            r is Some <==> old(self).has_ready(),
            old(self).zombies_kept(*final(self)),
    {
        let ghost pre = *self;
        let next = self.fetch();
        match next {
            Some(pid) => {
                proof {
                    let i = choose|i: int|
                        #[trigger] pre.selected(i) && pre.queue()[i] == pid && self.queue()
                            == pre.queue().remove(i);
                    assert(0 <= i < pre.queue().len());
                    assert(pre.queue()[i] < pre.tasks().len());
                }
                let pass = self.tasks[pid].pass();
                let stride = self.tasks[pid].stride;
                self.tasks[pid].status = TaskStatus::Running;
                self.tasks[pid].stride = stride.wrapping_add(pass);
                self.current = Some(pid);
                assert(forall|p: int|
                    0 <= p < pre.tasks().len() && p != pid ==> #[trigger] self.tasks()[p]
                        == pre.tasks()[p]);
                assert(forall|i: int|
                    0 <= i < self.queue().len() ==> #[trigger] self.queue()[i] < self.tasks().len())
                    by {
                    assert forall|i: int| 0 <= i < self.queue().len() implies #[trigger] self.queue()[i]
                        < self.tasks().len() by {
                        let j = choose|j: int|
                            #[trigger] pre.selected(j) && pre.queue()[j] == pid && self.queue()
                                == pre.queue().remove(j);
                        if i < j {
                            assert(self.queue()[i] == pre.queue()[i]);
                        } else {
                            assert(self.queue()[i] == pre.queue()[i + 1]);
                        }
                    }
                }
                Some(pid)
            },
            None => None,
        }
    }

    /// The running task gives up the processor: it becomes Ready, goes to
    /// the tail of the ready queue, and the next task is dispatched.
    pub fn suspend_current_and_run_next(&mut self) -> (r: Option<usize>)
        requires
            old(self).wf(),
        ensures
            final(self).wf(),
            old(self).zombies_kept(*final(self)),
            old(self).yielded(*final(self), r),
    {
        if let Some(c) = self.current {
            self.tasks[c].status = TaskStatus::Ready;
            self.current = None;
            assert(forall|p: int|
                0 <= p < old(self).tasks().len() && p != c ==> #[trigger] self.tasks()[p]
                    == old(self).tasks()[p]);
            assert(self.tasks()[c as int].pid == c);
            assert(self.queue() == old(self).queue());
            self.add(c);
        }
        let ghost mid = *self;
        proof {
            assert(old(self).zombies_kept(mid));
            assert(mid.wf());
        }
        let r = self.run_next();
        assert(mid.dispatched(*self, r));
        r
    }

    /// The running task exits: it becomes a Zombie, is not enqueued again,
    /// and the next task is dispatched.
    pub fn exit_current_and_run_next(&mut self) -> (r: Option<usize>)
        requires
            old(self).wf(),
        ensures
            final(self).wf(),
            old(self).zombies_kept(*final(self)),
            old(self).exited(*final(self), r),
    {
        if let Some(c) = self.current {
            self.tasks[c].status = TaskStatus::Zombie;
            self.current = None;
            assert(forall|p: int|
                0 <= p < old(self).tasks().len() && p != c ==> #[trigger] self.tasks()[p]
                    == old(self).tasks()[p]);
            assert(self.tasks()[c as int].pid == c);
            assert(self.queue() == old(self).queue());
        }
        let ghost mid = *self;
        proof {
            assert(old(self).zombies_kept(mid));
            assert(mid.wf());
        }
        let r = self.run_next();
        assert(mid.dispatched(*self, r));
        r
    }

    /// Counts one call of system call `id` for the running task; the count
    /// saturates. Ids out of range and an idle processor change nothing.
    pub fn record_syscall(&mut self, id: usize)
        requires
            old(self).wf(),
        ensures
            final(self).wf(),
            old(self).zombies_kept(*final(self)),
            final(self).queue() == old(self).queue(),
            final(self).running() == old(self).running(),
            final(self).tasks().len() == old(self).tasks().len(),
            match old(self).running() {
                Some(c) if id < MAX_SYSCALL_NUM => {
                    let a = final(self).tasks()[c as int];
                    let b = old(self).tasks()[c as int];
                    &&& a.syscall_times@ == b.syscall_times@.update(
                        id as int,
                        if b.syscall_times@[id as int] == u32::MAX {
                            u32::MAX
                        } else {
                            (b.syscall_times@[id as int] + 1) as u32
                        },
                    )
                    &&& a.pid == b.pid && a.status == b.status && a.stride == b.stride
                    &&& a.priority == b.priority && a.parent == b.parent
                    &&& a.children@ == b.children@ && a.image_size == b.image_size && a.time == b.time
                    &&& forall|p: int|
                        0 <= p < old(self).tasks().len() && p != c ==> #[trigger] final(self).tasks()[p]
                            == old(self).tasks()[p]
                },
                _ => final(self).tasks() == old(self).tasks(),
            },
    {
        if let Some(c) = self.current {
            if id < MAX_SYSCALL_NUM {
                let n = self.tasks[c].syscall_times[id];
                self.tasks[c].syscall_times[id] = n.saturating_add(1);
                assert(forall|p: int|
                    0 <= p < old(self).tasks().len() && p != c ==> #[trigger] self.tasks()[p]
                        == old(self).tasks()[p]);
                assert(self.tasks()[c as int].pid == c);
                assert(self.queue() == old(self).queue());
            }
        }
    }

    /// Adds `delta` to the running time of the running task, saturating.
    pub fn add_running_time(&mut self, delta: usize)
        requires
            old(self).wf(),
        ensures
            final(self).wf(),
            old(self).zombies_kept(*final(self)),
            final(self).queue() == old(self).queue(),
            final(self).running() == old(self).running(),
            final(self).tasks().len() == old(self).tasks().len(),
            match old(self).running() {
                Some(c) => {
                    let a = final(self).tasks()[c as int];
                    let b = old(self).tasks()[c as int];
                    &&& a.time == if b.time + delta > usize::MAX {
                        usize::MAX
                    } else {
                        (b.time + delta) as usize
                    }
                    &&& a.pid == b.pid && a.status == b.status && a.stride == b.stride
                    &&& a.priority == b.priority && a.parent == b.parent
                    &&& a.children@ == b.children@ && a.image_size == b.image_size
                    &&& a.syscall_times@ == b.syscall_times@
                    &&& forall|p: int|
                        0 <= p < old(self).tasks().len() && p != c ==> #[trigger] final(self).tasks()[p]
                            == old(self).tasks()[p]
                },
                None => final(self).tasks() == old(self).tasks(),
            },
    {
        if let Some(c) = self.current {
            let t = self.tasks[c].time;
            self.tasks[c].time = t.saturating_add(delta);
            assert(forall|p: int|
                0 <= p < old(self).tasks().len() && p != c ==> #[trigger] self.tasks()[p]
                    == old(self).tasks()[p]);
            assert(self.tasks()[c as int].pid == c);
            assert(self.queue() == old(self).queue());
        }
    }

    /// Sets the priority of the running task. Returns `prio`, or -1 when it
    /// is below the smallest priority or no task runs; then nothing changes.
    pub fn set_priority(&mut self, prio: isize) -> (r: isize)
        requires
            old(self).wf(),
        ensures
            final(self).wf(),
            old(self).zombies_kept(*final(self)),
            final(self).queue() == old(self).queue(),
            final(self).running() == old(self).running(),
            final(self).tasks().len() == old(self).tasks().len(),
            match old(self).running() {
                Some(c) if prio >= MIN_PRIORITY => {
                    let a = final(self).tasks()[c as int];
                    let b = old(self).tasks()[c as int];
                    &&& r == prio
                    &&& a.priority == prio as u64
                    &&& a.pid == b.pid && a.status == b.status && a.stride == b.stride
                    &&& a.parent == b.parent && a.children@ == b.children@
                    &&& a.image_size == b.image_size && a.syscall_times@ == b.syscall_times@
                    &&& a.time == b.time
                    &&& forall|p: int|
                        0 <= p < old(self).tasks().len() && p != c ==> #[trigger] final(self).tasks()[p]
                            == old(self).tasks()[p]
                },
                _ => r == -1 && final(self).tasks() == old(self).tasks(),
            },
    {
        if prio < MIN_PRIORITY as isize {
            return -1;
        }
        match self.current {
            Some(c) => {
                self.tasks[c].priority = prio as u64;
                assert(forall|p: int|
                    0 <= p < old(self).tasks().len() && p != c ==> #[trigger] self.tasks()[p]
                        == old(self).tasks()[p]);
                assert(self.tasks()[c as int].pid == c);
                assert(self.queue() == old(self).queue());
                prio
            },
            None => -1,
        }
    }
}

/// Creates a task from a resolved program image: it is Ready, has the
/// baseline stride and the default priority, becomes a child of the
/// running task if there is one, and is enqueued. Returns its pid, or -1
/// when the image could not be resolved, in which case nothing changes.
pub fn spawn_task(m: &mut TaskManager, image: Option<&[u8]>) -> (r: isize)
    requires
        old(m).wf(),
        old(m).tasks().len() < isize::MAX,
    ensures
        final(m).wf(),
        old(m).zombies_kept(*final(m)),
        match image {
            None => r == -1 && *final(m) == *old(m),
            Some(data) => {
                let pid = old(m).tasks().len();
                let t = final(m).tasks()[pid as int];
                &&& r == pid
                &&& final(m).tasks().len() == pid + 1
                &&& final(m).queue() == old(m).queue().push(pid as usize)
                &&& final(m).running() == old(m).running()
                &&& t.status == TaskStatus::Ready
                &&& t.stride == 0
                &&& t.priority == DEFAULT_PRIORITY
                &&& t.parent == old(m).running()
                &&& t.children@ == Seq::<usize>::empty()
                &&& t.image_size == data@.len()
                &&& forall|p: int|
                    0 <= p < pid && Some(p as usize) != old(m).running() ==> #[trigger] final(m).tasks()[p]
                        == old(m).tasks()[p]
                &&& old(m).running() matches Some(c) ==> {
                    &&& same_except_children(final(m).tasks()[c as int], old(m).tasks()[c as int])
                    &&& final(m).tasks()[c as int].children@ == old(m).tasks()[c as int].children@.push(
                        pid as usize,
                    )
                }
            },
        },
{
    match image {
        None => -1,
        Some(data) => {
            let pid = m.tasks.len();
            let mut t = TaskControlBlock::new(pid, DEFAULT_PRIORITY, 0, data.len());
            t.parent = m.current;
            m.tasks.push(t);
            assert(forall|p: int| 0 <= p < pid ==> m.tasks()[p] == old(m).tasks()[p]);
            if let Some(c) = m.current {
                m.tasks[c].children.push(pid);
            }
            let ghost mid = *m;
            assert(forall|p: int|
                0 <= p <= pid && Some(p as usize) != old(m).running() ==> #[trigger] m.tasks()[p]
                    == mid.tasks()[p]);
            assert(m.tasks()[pid as int].pid == pid);
            assert(m.queue() == old(m).queue());
            m.add(pid);
            pid as isize
        },
    }
}

} // verus!
