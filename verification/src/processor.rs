//! The processor: the single current-task slot, the idle context, and the
//! task-relative operations that act on whichever task is current.

use crate::mm::MapArea;
use crate::mm::MapPermission;
use crate::mm::PAGE_SIZE;
use crate::mm::disjoint_from_all;
use crate::mm::has_exact;
use crate::mm::is_first_exact;
use crate::mm::vpn_ceil;
use crate::mm::vpn_floor;
use crate::task::TaskContext;
use crate::task::TaskControlBlock;
use crate::task::TaskInfo;
use crate::task::bumped;
use crate::task::eq_but_counts;
use crate::task::eq_but_memory;
use vstd::prelude::*;

verus! {

/// The permission set a raw `port` word asks for: its three lowest bits
/// select Read, Write and Execute, and the kernel adds the User bit.
pub open spec fn decoded_perm(port: usize) -> MapPermission {
    MapPermission { r: port & 1 != 0, w: port & 2 != 0, x: port & 4 != 0, u: true }
}

/// The framed region a successful `mmap(start, len, port)` establishes.
pub open spec fn mmap_area(start: usize, len: usize, port: usize) -> MapArea {
    MapArea {
        start_vpn: vpn_floor(start as int) as usize,
        end_vpn: vpn_ceil(start as int + len as int) as usize,
        perm: decoded_perm(port),
    }
}

/// Exactly when `mmap(start, len, port)` fails on a task whose address
/// space holds `regions`: a start address off a page boundary, a port
/// word that sets the User bit itself, a port word asking for none of
/// Read/Write/Execute, or a requested region touching a mapped page.
pub open spec fn mmap_rejects(regions: Seq<MapArea>, start: usize, len: usize, port: usize) -> bool {
    ||| start as int % PAGE_SIZE as int != 0
    ||| port & 8 != 0
    ||| port & 7 == 0
    ||| !disjoint_from_all(regions, mmap_area(start, len, port))
}

/// Exactly when `munmap(start, len)` fails on a task whose address space
/// holds `regions`: a start address off a page boundary, or no region
/// mapped with exactly the requested page bounds.
pub open spec fn munmap_rejects(regions: Seq<MapArea>, start: usize, len: usize) -> bool {
    ||| start as int % PAGE_SIZE as int != 0
    ||| !has_exact(regions, vpn_floor(start as int), vpn_ceil(start as int + len as int))
}

/// Owner of the current-task slot and of the scheduler's own idle context.
pub struct Processor {
    /// The task currently occupying the processor, if any.
    pub current: Option<TaskControlBlock>,
    /// The scheduler's own saved context, entered whenever no task runs.
    pub idle_task_cx: TaskContext,
}

impl Processor {
    /// Well-formedness: the current task, if any, is itself well-formed.
    pub open spec fn wf(self) -> bool {
        self.current is Some ==> self.current->0.wf()
    }

    /// An empty processor: no current task, zeroed idle context.
    pub fn new() -> (r: Processor)
        ensures
            r.current is None,
            r.idle_task_cx == (TaskContext { ra: 0, sp: 0 }),
            r.wf(),
    {
        Processor { current: None, idle_task_cx: TaskContext::zero_init() }
    }

    /// Empty the current-task slot and return what it held: the caller
    /// now owns the only handle the processor had.
    pub fn take_current(&mut self) -> (r: Option<TaskControlBlock>)
        ensures
            r == old(self).current,
            final(self).current is None,
            final(self).idle_task_cx == old(self).idle_task_cx,
    {
        self.current.take()
    }

    /// A second, read-only view of the current task, leaving the slot
    /// undisturbed.
    pub fn current(&self) -> (r: Option<&TaskControlBlock>)
        ensures
            r is Some <==> self.current is Some,
            r is Some ==> *r->0 == self.current->0,
    {
        self.current.as_ref()
    }

    /// Record one syscall with identifier `syscall_id` against the current
    /// task: its counter at that index rises by one, every other index and
    /// every other field stay as they were.
    pub fn count_numbers_of_syscall(&mut self, syscall_id: usize)
        requires
            old(self).current is Some,
            syscall_id < old(self).current->0.syscall_times@.len(),
            old(self).current->0.syscall_times@[syscall_id as int] < u32::MAX,
        ensures
            final(self).current is Some,
            eq_but_counts(final(self).current->0, old(self).current->0),
            final(self).current->0.syscall_times@ == bumped(
                old(self).current->0.syscall_times@,
                syscall_id as int,
            ),
            final(self).idle_task_cx == old(self).idle_task_cx,
            old(self).wf() ==> final(self).wf(),
    {
        let cur = self.current.take();
        match cur {
            Some(mut t) => {
                let v = t.syscall_times[syscall_id];
                t.syscall_times[syscall_id] = v + 1;
                self.current = Some(t);
            },
            None => {
                proof {
                    assert(false);
                }
            },
        }
    }

    /// A snapshot of the current task for user space: its status, a copy
    /// of its full syscall-counter table, and the milliseconds elapsed
    /// from its recorded start time to `now_ms`. A pure read: neither the
    /// task nor the processor changes.
    pub fn get_current_task(&self, now_ms: usize) -> (r: TaskInfo)
        requires
            self.current is Some,
            self.current->0.start_time <= now_ms,
        ensures
            r.status == self.current->0.status,
            r.syscall_times@ == self.current->0.syscall_times@,
            r.time == now_ms - self.current->0.start_time,
    {
        let t = self.current.as_ref().unwrap();
        TaskInfo {
            status: t.status,
            syscall_times: copy_counts(&t.syscall_times),
            time: now_ms - t.start_time,
        }
    }

    /// Establish a mapping of the bytes `[start, start + len)` for the
    /// current task: refused, with nothing changed, when `start` is not
    /// page-aligned, when the port word sets the User bit itself, when it
    /// asks for none of Read/Write/Execute, or when the region touches a
    /// page already mapped; otherwise the region is inserted whole, with
    /// the User bit added to the requested permissions.
    pub fn mmap(&mut self, start: usize, len: usize, port: usize) -> (r: isize)
        requires
            old(self).current is Some,
            start + len <= usize::MAX,
        ensures
            r == 0 || r == -1,
            r == 0 <==> !mmap_rejects(old(self).current->0.memory_set@, start, len, port),
            final(self).current is Some,
            eq_but_memory(final(self).current->0, old(self).current->0),
            r == 0 ==> final(self).current->0.memory_set@ == old(
                self,
            ).current->0.memory_set@.push(mmap_area(start, len, port)),
            r == -1 ==> final(self).current->0.memory_set@ == old(self).current->0.memory_set@,
            final(self).idle_task_cx == old(self).idle_task_cx,
            old(self).wf() ==> final(self).wf(),
    {
        if start % PAGE_SIZE != 0 {
            return -1;
        }
        if port & 8 != 0 {
            return -1;
        }
        if port & 7 == 0 {
            return -1;
        }
        let perm = MapPermission { r: port & 1 != 0, w: port & 2 != 0, x: port & 4 != 0, u: true };
        let cur = self.current.take();
        match cur {
            Some(mut t) => {
                let ok = t.memory_set.insert_framed_area(start, start + len, perm);
                self.current = Some(t);
                if ok {
                    0
                } else {
                    -1
                }
            },
            None => {
                proof {
                    assert(false);
                }
                -1
            },
        }
    }

    /// Remove the mapping of the bytes `[start, start + len)` from the
    /// current task: refused, with nothing changed, when `start` is not
    /// page-aligned or when no region with exactly those page bounds is
    /// mapped; otherwise that region is removed whole.
    pub fn munmap(&mut self, start: usize, len: usize) -> (r: isize)
        requires
            old(self).current is Some,
            start + len <= usize::MAX,
        ensures
            r == 0 || r == -1,
            r == 0 <==> !munmap_rejects(old(self).current->0.memory_set@, start, len),
            final(self).current is Some,
            eq_but_memory(final(self).current->0, old(self).current->0),
            r == 0 ==> exists|i: int|
                is_first_exact(
                    old(self).current->0.memory_set@,
                    vpn_floor(start as int),
                    vpn_ceil(start as int + len as int),
                    i,
                ) && final(self).current->0.memory_set@ == old(
                    self,
                ).current->0.memory_set@.remove(i),
            r == -1 ==> final(self).current->0.memory_set@ == old(self).current->0.memory_set@,
            final(self).idle_task_cx == old(self).idle_task_cx,
            old(self).wf() ==> final(self).wf(),
    {
        if start % PAGE_SIZE != 0 {
            return -1;
        }
        let cur = self.current.take();
        match cur {
            Some(mut t) => {
                let ok = t.memory_set.free_framed_area(start, start + len);
                self.current = Some(t);
                if ok {
                    0
                } else {
                    -1
                }
            },
            None => {
                proof {
                    assert(false);
                }
                -1
            },
        }
    }
}

/// An element-for-element copy of a syscall-counter table.
fn copy_counts(v: &Vec<u32>) -> (r: Vec<u32>)
    ensures
        r@ == v@,
{
    let mut out: Vec<u32> = Vec::new();
    let mut i: usize = 0;
    while i < v.len()
        invariant
            i <= v@.len(),
            out@ == v@.subrange(0, i as int),
        decreases v@.len() - i,
    {
        out.push(v[i]);
        proof {
            assert(out@ =~= v@.subrange(0, i as int + 1));
        }
        i += 1;
    }
    proof {
        assert(out@ =~= v@);
    }
    out
}

} // verus!
