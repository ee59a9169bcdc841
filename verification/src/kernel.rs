//! The kernel context: one task manager and one processor, constructed
//! explicitly and passed down, with the operations the trap and syscall
//! paths drive.
//!
//! The dispatch loop itself and the raw context-switch primitive live in
//! the surrounding kernel: [`Kernel::dispatch_next`] makes every decision
//! of one dispatch cycle and hands back the context the primitive must
//! restore.

use crate::manager::TaskManager;
use crate::manager::chosen_index;
use crate::manager::is_chosen_index;
use crate::mm::is_first_exact;
use crate::mm::vpn_ceil;
use crate::mm::vpn_floor;
use crate::processor::Processor;
use crate::processor::mmap_area;
use crate::processor::mmap_rejects;
use crate::processor::munmap_rejects;
use crate::task::TaskContext;
use crate::task::TaskControlBlock;
use crate::task::TaskInfo;
use crate::task::TaskStatus;
use crate::task::TrapContext;
use crate::task::bumped;
use crate::task::eq_but_counts;
use crate::task::eq_but_memory;
use vstd::prelude::*;

verus! {

/// One scheduling domain: the ready list and the single processor.
pub struct Kernel {
    /// The ready list and selection policy.
    pub manager: TaskManager,
    /// The current-task slot and idle context.
    pub processor: Processor,
}

impl Kernel {
    /// Well-formedness of the whole scheduling domain: the current task
    /// and every ready task are well-formed.
    pub open spec fn wf(self) -> bool {
        &&& self.processor.wf()
        &&& forall|i: int| 0 <= i < self.manager@.len() ==> self.manager@[i].wf()
    }

    /// A fresh kernel context: empty ready list, idle processor.
    pub fn new() -> (r: Kernel)
        ensures
            r.manager@ =~= Seq::empty(),
            r.processor.current is None,
            r.wf(),
    {
        Kernel { manager: TaskManager::new(), processor: Processor::new() }
    }

    /// Append `task` to the tail of the ready list. Never fails; the
    /// processor is untouched.
    pub fn add_task(&mut self, task: TaskControlBlock)
        ensures
            final(self).manager@ == old(self).manager@.push(task),
            final(self).processor == old(self).processor,
            old(self).wf() && task.wf() ==> final(self).wf(),
    {
        self.manager.add(task);
    }

    /// Remove and return the ready task with the lowest stride, the
    /// earliest-inserted among equal-stride ties; nothing when the list
    /// is empty. The processor is untouched.
    pub fn fetch_task(&mut self) -> (r: Option<TaskControlBlock>)
        ensures
            old(self).manager@.len() == 0 ==> r is None && final(self).manager@ == old(
                self,
            ).manager@,
            old(self).manager@.len() > 0 ==> {
                let i = chosen_index(old(self).manager@);
                &&& is_chosen_index(old(self).manager@, i)
                &&& r == Some(old(self).manager@[i])
                &&& final(self).manager@ == old(self).manager@.remove(i)
            },
            final(self).processor == old(self).processor,
            old(self).wf() ==> final(self).wf(),
    {
        self.manager.fetch()
    }

    /// One turn of the dispatch loop: fetch the next task by stride
    /// policy; when one is there, mark it Running, install it as the
    /// current task, and return the saved context the control-transfer
    /// primitive must restore. When the ready list is empty nothing
    /// changes and nothing is returned: the caller reports the condition
    /// and retries.
    pub fn dispatch_next(&mut self) -> (r: Option<TaskContext>)
        ensures
            old(self).manager@.len() == 0 ==> r is None && final(self).manager@ == old(
                self,
            ).manager@ && final(self).processor == old(self).processor,
            old(self).manager@.len() > 0 ==> {
                let i = chosen_index(old(self).manager@);
                let t = old(self).manager@[i];
                &&& is_chosen_index(old(self).manager@, i)
                &&& r == Some(t.task_cx)
                &&& final(self).manager@ == old(self).manager@.remove(i)
                &&& final(self).processor.current == Some(
                    TaskControlBlock { status: TaskStatus::Running, ..t },
                )
            },
            final(self).processor.idle_task_cx == old(self).processor.idle_task_cx,
            old(self).wf() ==> final(self).wf(),
    {
        let fetched = self.manager.fetch();
        match fetched {
            Some(mut t) => {
                t.status = TaskStatus::Running;
                let cx = t.task_cx;
                self.processor.current = Some(t);
                Some(cx)
            },
            None => None,
        }
    }

    /// Empty the current-task slot and return what it held.
    pub fn take_current_task(&mut self) -> (r: Option<TaskControlBlock>)
        ensures
            r == old(self).processor.current,
            final(self).processor.current is None,
            final(self).processor.idle_task_cx == old(self).processor.idle_task_cx,
            final(self).manager == old(self).manager,
            old(self).wf() ==> final(self).wf(),
    {
        self.processor.take_current()
    }

    /// A second, read-only view of the current task, leaving the slot
    /// undisturbed.
    pub fn current_task(&self) -> (r: Option<&TaskControlBlock>)
        ensures
            r is Some <==> self.processor.current is Some,
            r is Some ==> *r->0 == self.processor.current->0,
    {
        self.processor.current()
    }

    /// The current task's user-mode page-table token.
    pub fn current_user_token(&self) -> (r: usize)
        requires
            self.processor.current is Some,
        ensures
            r == self.processor.current->0.user_token,
    {
        let t = self.processor.current().unwrap();
        t.get_user_token()
    }

    /// The current task's trap frame, as this core carries it.
    pub fn current_trap_cx(&self) -> (r: TrapContext)
        requires
            self.processor.current is Some,
        ensures
            r == self.processor.current->0.trap_cx,
    {
        let t = self.processor.current().unwrap();
        t.trap_cx
    }

    /// Record one syscall with identifier `syscall_id` against the
    /// current task.
    pub fn count_numbers_of_syscall(&mut self, syscall_id: usize)
        requires
            old(self).processor.current is Some,
            syscall_id < old(self).processor.current->0.syscall_times@.len(),
            old(self).processor.current->0.syscall_times@[syscall_id as int] < u32::MAX,
        ensures
            final(self).processor.current is Some,
            eq_but_counts(final(self).processor.current->0, old(self).processor.current->0),
            final(self).processor.current->0.syscall_times@ == bumped(
                old(self).processor.current->0.syscall_times@,
                syscall_id as int,
            ),
            final(self).processor.idle_task_cx == old(self).processor.idle_task_cx,
            final(self).manager == old(self).manager,
            old(self).wf() ==> final(self).wf(),
    {
        self.processor.count_numbers_of_syscall(syscall_id);
    }

    /// A status/counters/elapsed-time snapshot of the current task, taken
    /// against the clock reading `now_ms`.
    pub fn get_current_task(&self, now_ms: usize) -> (r: TaskInfo)
        requires
            self.processor.current is Some,
            self.processor.current->0.start_time <= now_ms,
        ensures
            r.status == self.processor.current->0.status,
            r.syscall_times@ == self.processor.current->0.syscall_times@,
            r.time == now_ms - self.processor.current->0.start_time,
    {
        self.processor.get_current_task(now_ms)
    }

    /// Establish a mapping of the bytes `[start, start + len)` for the
    /// current task; see [`Processor::mmap`] for the exact failure cases.
    pub fn mmap(&mut self, start: usize, len: usize, port: usize) -> (r: isize)
        requires
            old(self).processor.current is Some,
            start + len <= usize::MAX,
        ensures
            r == 0 || r == -1,
            r == 0 <==> !mmap_rejects(
                old(self).processor.current->0.memory_set@,
                start,
                len,
                port,
            ),
            final(self).processor.current is Some,
            eq_but_memory(final(self).processor.current->0, old(self).processor.current->0),
            r == 0 ==> final(self).processor.current->0.memory_set@ == old(
                self,
            ).processor.current->0.memory_set@.push(mmap_area(start, len, port)),
            r == -1 ==> final(self).processor.current->0.memory_set@ == old(
                self,
            ).processor.current->0.memory_set@,
            final(self).processor.idle_task_cx == old(self).processor.idle_task_cx,
            final(self).manager == old(self).manager,
            old(self).wf() ==> final(self).wf(),
    {
        self.processor.mmap(start, len, port)
    }

    /// Remove the mapping of the bytes `[start, start + len)` from the
    /// current task; see [`Processor::munmap`] for the exact failure cases.
    pub fn munmap(&mut self, start: usize, len: usize) -> (r: isize)
        requires
            old(self).processor.current is Some,
            start + len <= usize::MAX,
        ensures
            r == 0 || r == -1,
            r == 0 <==> !munmap_rejects(old(self).processor.current->0.memory_set@, start, len),
            final(self).processor.current is Some,
            eq_but_memory(final(self).processor.current->0, old(self).processor.current->0),
            r == 0 ==> exists|i: int|
                is_first_exact(
                    old(self).processor.current->0.memory_set@,
                    vpn_floor(start as int),
                    vpn_ceil(start as int + len as int),
                    i,
                ) && final(self).processor.current->0.memory_set@ == old(
                    self,
                ).processor.current->0.memory_set@.remove(i),
            r == -1 ==> final(self).processor.current->0.memory_set@ == old(
                self,
            ).processor.current->0.memory_set@,
            final(self).processor.idle_task_cx == old(self).processor.idle_task_cx,
            final(self).manager == old(self).manager,
            old(self).wf() ==> final(self).wf(),
    {
        self.processor.munmap(start, len)
    }
}

} // verus!
