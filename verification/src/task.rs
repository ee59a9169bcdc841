//! The task model: control block, saved contexts, status, and the
//! per-task syscall accounting table.

use crate::mm::MemorySet;
use vstd::prelude::*;

verus! {

/// Number of entries in each task's syscall-counter table.
pub const MAX_SYSCALL_NUM: usize = 500;

/// Lifecycle states of a task that this core reads or writes.
#[derive(Clone, Copy, Debug, PartialEq, Eq, Structural)]
pub enum TaskStatus {
    /// Waiting in the ready list for the processor.
    Ready,
    /// Occupying the processor.
    Running,
}

/// A saved execution context: the registers needed to resume a flow of
/// control exactly where it left off. This core never interprets the
/// fields; it only decides which context the control-transfer primitive
/// should restore next.
#[derive(Clone, Copy, Debug, PartialEq, Eq, Structural)]
pub struct TaskContext {
    /// Saved return address.
    pub ra: usize,
    /// Saved stack pointer.
    pub sp: usize,
}

impl TaskContext {
    /// An all-zero context, the state of the idle context at boot.
    pub fn zero_init() -> (r: TaskContext)
        ensures
            r.ra == 0,
            r.sp == 0,
    {
        TaskContext { ra: 0, sp: 0 }
    }
}

/// The user-visible trap frame of a task, as far as this core carries it.
#[derive(Clone, Copy, Debug, PartialEq, Eq, Structural)]
pub struct TrapContext {
    /// User program counter at the trap.
    pub sepc: usize,
    /// User stack pointer at the trap.
    pub user_sp: usize,
}

/// Task control block: everything this core reads or writes about one task.
pub struct TaskControlBlock {
    /// Identity of the task; distinct tasks carry distinct ids.
    pub tid: usize,
    /// Current lifecycle state.
    pub status: TaskStatus,
    /// Saved kernel context, restored when the task is dispatched.
    pub task_cx: TaskContext,
    /// Accumulated scheduling distance; the scheduler prefers the smallest.
    pub stride: usize,
    /// Counter table, one entry per syscall identifier.
    pub syscall_times: Vec<u32>,
    /// Millisecond timestamp recorded when the task was created.
    pub start_time: usize,
    /// The task's user-mode page-table token.
    pub user_token: usize,
    /// The task's address space, as the set of framed regions it maps.
    pub memory_set: MemorySet,
    /// The task's trap frame.
    pub trap_cx: TrapContext,
}

impl TaskControlBlock {
    /// Structural well-formedness: a full-size counter table and a
    /// consistent address space.
    pub open spec fn wf(self) -> bool {
        &&& self.syscall_times@.len() == MAX_SYSCALL_NUM
        &&& self.memory_set.wf()
    }

    /// A fresh task: ready, zero stride, zeroed counters and contexts,
    /// empty address space.
    pub fn new(tid: usize, start_time: usize, user_token: usize) -> (r: TaskControlBlock)
        ensures
            r.wf(),
            r.tid == tid,
            r.status == TaskStatus::Ready,
            r.task_cx == (TaskContext { ra: 0, sp: 0 }),
            r.stride == 0,
            forall|i: int| 0 <= i < r.syscall_times@.len() ==> r.syscall_times@[i] == 0,
            r.start_time == start_time,
            r.user_token == user_token,
            r.memory_set@ =~= Seq::empty(),
            r.trap_cx == (TrapContext { sepc: 0, user_sp: 0 }),
    {
        let mut counts: Vec<u32> = Vec::new();
        let mut i: usize = 0;
        while i < MAX_SYSCALL_NUM
            invariant
                i <= MAX_SYSCALL_NUM,
                counts@.len() == i,
                forall|j: int| 0 <= j < i ==> counts@[j] == 0,
            decreases MAX_SYSCALL_NUM - i,
        {
            counts.push(0);
            i += 1;
        }
        TaskControlBlock {
            tid,
            status: TaskStatus::Ready,
            task_cx: TaskContext::zero_init(),
            stride: 0,
            syscall_times: counts,
            start_time,
            user_token,
            memory_set: MemorySet::new(),
            trap_cx: TrapContext { sepc: 0, user_sp: 0 },
        }
    }

    /// The task's user-mode page-table token.
    pub fn get_user_token(&self) -> (r: usize)
        ensures
            r == self.user_token,
    {
        self.user_token
    }
}

/// Agreement of two control blocks on every field except the address space.
pub open spec fn eq_but_memory(a: TaskControlBlock, b: TaskControlBlock) -> bool {
    &&& a.tid == b.tid
    &&& a.status == b.status
    &&& a.task_cx == b.task_cx
    &&& a.stride == b.stride
    &&& a.syscall_times == b.syscall_times
    &&& a.start_time == b.start_time
    &&& a.user_token == b.user_token
    &&& a.trap_cx == b.trap_cx
}

/// Agreement of two control blocks on every field except the syscall counters.
pub open spec fn eq_but_counts(a: TaskControlBlock, b: TaskControlBlock) -> bool {
    &&& a.tid == b.tid
    &&& a.status == b.status
    &&& a.task_cx == b.task_cx
    &&& a.stride == b.stride
    &&& a.start_time == b.start_time
    &&& a.user_token == b.user_token
    &&& a.memory_set == b.memory_set
    &&& a.trap_cx == b.trap_cx
}

/// A point-in-time snapshot of the current task, as handed to user space.
pub struct TaskInfo {
    /// The task's lifecycle state at the time of the snapshot.
    pub status: TaskStatus,
    /// A copy of the task's full syscall-counter table.
    pub syscall_times: Vec<u32>,
    /// Milliseconds elapsed since the task's recorded start time.
    pub time: usize,
}

/// The counter table after one syscall with identifier `id` is recorded.
pub open spec fn bumped(counts: Seq<u32>, id: int) -> Seq<u32> {
    counts.update(id, (counts[id] + 1) as u32)
}

/// The counter table after `k` syscalls with identifier `id` are recorded.
pub open spec fn bumped_times(counts: Seq<u32>, id: int, k: nat) -> Seq<u32>
    decreases k,
{
    if k == 0 {
        counts
    } else {
        bumped(bumped_times(counts, id, (k - 1) as nat), id)
    }
}

/// Counter accuracy: recording syscall `id` exactly `k` times raises the
/// counter at index `id` by `k` and leaves every other index unchanged.
pub proof fn lemma_counter_accuracy(counts: Seq<u32>, id: int, k: nat)
    requires
        0 <= id < counts.len(),
        counts[id] + k <= u32::MAX,
    ensures
        bumped_times(counts, id, k).len() == counts.len(),
        bumped_times(counts, id, k)[id] == counts[id] + k,
        forall|j: int|
            0 <= j < counts.len() && j != id ==> bumped_times(counts, id, k)[j] == counts[j],
    decreases k,
{
    if k > 0 {
        lemma_counter_accuracy(counts, id, (k - 1) as nat);
    }
}

} // verus!
