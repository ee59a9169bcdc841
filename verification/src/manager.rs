//! The task manager: the ready list and the stride-scheduling policy.

use crate::task::TaskControlBlock;
use vstd::prelude::*;

verus! {

/// Whether `i` is the position `fetch` selects in ready list `s`: the
/// earliest position holding the minimum stride. A later task with an
/// equal stride never displaces an earlier one, so ties go FIFO.
pub open spec fn is_chosen_index(s: Seq<TaskControlBlock>, i: int) -> bool {
    &&& 0 <= i < s.len()
    &&& forall|j: int| 0 <= j < s.len() ==> s[i].stride <= s[j].stride
    &&& forall|j: int| 0 <= j < i ==> s[i].stride < s[j].stride
}

/// The position `fetch` selects in a nonempty ready list.
pub open spec fn chosen_index(s: Seq<TaskControlBlock>) -> int {
    choose|i: int| is_chosen_index(s, i)
}

/// At most one position satisfies [`is_chosen_index`].
pub proof fn lemma_chosen_index_unique(s: Seq<TaskControlBlock>, i: int, j: int)
    requires
        is_chosen_index(s, i),
        is_chosen_index(s, j),
    ensures
        i == j,
{
}

/// Whether every ready stride exceeds every other by at most `bound`.
pub open spec fn strides_within(s: Seq<TaskControlBlock>, bound: int) -> bool {
    forall|p: int, q: int|
        0 <= p < s.len() && 0 <= q < s.len() ==> s[p].stride - s[q].stride <= bound
}

/// The selected task after its stride advances by the pass `pass`.
pub open spec fn stride_advanced(t: TaskControlBlock, pass: usize) -> TaskControlBlock {
    TaskControlBlock { stride: (t.stride + pass) as usize, ..t }
}

/// Whether distinct ready tasks always carry distinct ids.
pub open spec fn distinct_tids(s: Seq<TaskControlBlock>) -> bool {
    forall|p: int, q: int| 0 <= p < q < s.len() ==> s[p].tid != s[q].tid
}

/// Whether every ready stride is at most `bound`.
pub open spec fn strides_at_most(s: Seq<TaskControlBlock>, bound: int) -> bool {
    forall|p: int| 0 <= p < s.len() ==> s[p].stride <= bound
}

/// A nonempty ready list always has a selected position.
pub proof fn lemma_chosen_index_exists(s: Seq<TaskControlBlock>)
    requires
        s.len() > 0,
    ensures
        is_chosen_index(s, chosen_index(s)),
    decreases s.len(),
{
    if s.len() == 1 {
        assert(is_chosen_index(s, 0));
    } else {
        let prefix = s.drop_last();
        lemma_chosen_index_exists(prefix);
        let k = chosen_index(prefix);
        let last = s.len() - 1;
        assert forall|j: int| 0 <= j < last implies prefix[j] == s[j] by {}
        if s[last].stride < prefix[k].stride {
            assert forall|j: int| 0 <= j < s.len() implies s[last].stride <= s[j].stride by {
                if j < last {
                    assert(prefix[k].stride <= prefix[j].stride);
                }
            }
            assert(is_chosen_index(s, last));
        } else {
            assert forall|j: int| 0 <= j < s.len() implies s[k].stride <= s[j].stride by {
                if j < last {
                    assert(prefix[k].stride <= prefix[j].stride);
                }
            }
            assert forall|j: int| 0 <= j < k implies s[k].stride < s[j].stride by {
                assert(prefix[k].stride < prefix[j].stride);
            }
            assert(is_chosen_index(s, k));
        }
    }
    assert(exists|i: int| is_chosen_index(s, i));
}

/// The ready list after one full dispatch cycle with a continuously
/// ready task set: the selected minimum-stride task is fetched, its
/// stride advances by `pass` while it runs, and a time-slice yield
/// re-enqueues it at the tail.
pub open spec fn dispatch_cycle(s: Seq<TaskControlBlock>, pass: usize) -> Seq<TaskControlBlock> {
    s.remove(chosen_index(s)).push(stride_advanced(s[chosen_index(s)], pass))
}

/// The ready list after a run of dispatch cycles, the cycle at position
/// `k` advancing the task it dispatches by `passes[k]`.
pub open spec fn dispatch_cycles(s: Seq<TaskControlBlock>, passes: Seq<usize>) -> Seq<
    TaskControlBlock,
>
    decreases passes.len(),
{
    if passes.len() == 0 {
        s
    } else {
        dispatch_cycles(dispatch_cycle(s, passes[0]), passes.drop_first())
    }
}

/// Fairness bound, one cycle: when no two ready strides differ by more
/// than one maximal pass increment, dispatching the selected
/// minimum-stride task and re-enqueueing it with its stride advanced by
/// its own pass (never larger than `max_pass`) keeps every two strides
/// within `max_pass` of each other.
pub proof fn lemma_fairness_bound(s: Seq<TaskControlBlock>, pass: usize, max_pass: usize)
    requires
        s.len() > 0,
        pass <= max_pass,
        s[chosen_index(s)].stride + pass <= usize::MAX,
        strides_within(s, max_pass as int),
    ensures
        dispatch_cycle(s, pass).len() == s.len(),
        strides_within(dispatch_cycle(s, pass), max_pass as int),
{
    lemma_chosen_index_exists(s);
    let i = chosen_index(s);
    let t = dispatch_cycle(s, pass);
    let last = t.len() - 1;
    assert forall|p: int, q: int|
        0 <= p < t.len() && 0 <= q < t.len() implies t[p].stride - t[q].stride <= max_pass
        as int by {
        let po: int = if p < i { p } else { p + 1 };
        let qo: int = if q < i { q } else { q + 1 };
        if p < last {
            assert(t[p] == s[po]);
        }
        if q < last {
            assert(t[q] == s[qo]);
        }
        if p == last && q < last {
            assert(s[i].stride <= s[qo].stride);
        }
    }
}

/// Fairness bound at every observation point: a set of continuously
/// ready tasks whose strides start within one maximal pass increment of
/// each other keeps them so after every dispatch cycle of any run, as
/// long as each cycle's pass is at most `max_pass` and the strides stay
/// below the machine limit. The stride gap between any two continuously
/// ready tasks therefore never exceeds one pass increment.
pub proof fn lemma_fairness_over_cycles(
    s: Seq<TaskControlBlock>,
    passes: Seq<usize>,
    max_pass: usize,
    limit: int,
)
    requires
        s.len() > 0,
        strides_within(s, max_pass as int),
        strides_at_most(s, limit),
        forall|k: int| 0 <= k < passes.len() ==> passes[k] <= max_pass,
        limit + passes.len() * max_pass <= usize::MAX,
    ensures
        dispatch_cycles(s, passes).len() == s.len(),
        strides_within(dispatch_cycles(s, passes), max_pass as int),
        strides_at_most(dispatch_cycles(s, passes), limit + passes.len() * max_pass),
    decreases passes.len(),
{
    if passes.len() > 0 {
        lemma_chosen_index_exists(s);
        let i = chosen_index(s);
        let pass = passes[0];
        let n = passes.len() as int;
        assert((n - 1) * max_pass + max_pass == n * max_pass) by (nonlinear_arith);
        assert((n - 1) * max_pass >= 0) by (nonlinear_arith)
            requires
                n >= 1,
                max_pass >= 0,
        ;
        assert(s[i].stride + pass <= limit + max_pass);
        lemma_fairness_bound(s, pass, max_pass);
        let s1 = dispatch_cycle(s, pass);
        assert forall|p: int| 0 <= p < s1.len() implies s1[p].stride <= limit + max_pass by {
            let po: int = if p < i { p } else { p + 1 };
            if p < s1.len() - 1 {
                assert(s1[p] == s[po]);
            }
        }
        lemma_fairness_over_cycles(s1, passes.drop_first(), max_pass, limit + max_pass);
        assert(dispatch_cycles(s, passes) == dispatch_cycles(s1, passes.drop_first()));
    }
}

/// Tie-break determinism: among ready tasks sharing the minimum stride,
/// the selected position is the earliest-inserted one.
pub proof fn lemma_tie_break_fifo(s: Seq<TaskControlBlock>, i: int, j: int)
    requires
        is_chosen_index(s, i),
        0 <= j < s.len(),
        s[j].stride == s[i].stride,
    ensures
        i <= j,
{
}

/// No double ownership: when ready tasks carry distinct ids, the task at
/// the selected position appears nowhere in the list that remains after
/// its removal.
pub proof fn lemma_no_double_ownership(s: Seq<TaskControlBlock>, i: int)
    requires
        distinct_tids(s),
        is_chosen_index(s, i),
    ensures
        forall|k: int| 0 <= k < s.remove(i).len() ==> s.remove(i)[k].tid != s[i].tid,
{
    let rest = s.remove(i);
    assert forall|k: int| 0 <= k < rest.len() implies rest[k].tid != s[i].tid by {
        if k < i {
            assert(rest[k] == s[k]);
        } else {
            assert(rest[k] == s[k + 1]);
        }
    }
}

/// Owner of the ready list; selects the next task to run by stride.
pub struct TaskManager {
    ready_list: Vec<TaskControlBlock>,
}

impl TaskManager {
    /// The ready tasks, in insertion order.
    pub closed spec fn view(self) -> Seq<TaskControlBlock> {
        self.ready_list@
    }

    /// An empty task manager.
    pub fn new() -> (r: TaskManager)
        ensures
            r@ =~= Seq::empty(),
    {
        TaskManager { ready_list: Vec::new() }
    }

    /// Append `task` to the tail of the ready list. Never fails.
    pub fn add(&mut self, task: TaskControlBlock)
        ensures
            final(self)@ == old(self)@.push(task),
    {
        self.ready_list.push(task);
    }

    /// Remove and return the ready task with the lowest stride, the
    /// earliest-inserted among equal-stride ties; nothing when the list
    /// is empty. Ownership of the returned task transfers fully to the
    /// caller: the task is no longer linked in the list.
    pub fn fetch(&mut self) -> (r: Option<TaskControlBlock>)
        ensures
            old(self)@.len() == 0 ==> r is None && final(self)@ == old(self)@,
            old(self)@.len() > 0 ==> {
                let i = chosen_index(old(self)@);
                &&& is_chosen_index(old(self)@, i)
                &&& r == Some(old(self)@[i])
                &&& final(self)@ == old(self)@.remove(i)
            },
    {
        if self.ready_list.len() == 0 {
            return None;
        }
        let mut min_i: usize = 0;
        let mut min_stride: usize = self.ready_list[0].stride;
        let mut i: usize = 1;
        while i < self.ready_list.len()
            invariant
                self.ready_list@ == old(self)@,
                self.ready_list@.len() > 0,
                1 <= i <= self.ready_list@.len(),
                min_i < i,
                min_stride == self.ready_list@[min_i as int].stride,
                forall|j: int| 0 <= j < i ==> min_stride <= self.ready_list@[j].stride,
                forall|j: int| 0 <= j < min_i ==> min_stride < self.ready_list@[j].stride,
            decreases self.ready_list@.len() - i,
        {
            if self.ready_list[i].stride < min_stride {
                min_stride = self.ready_list[i].stride;
                min_i = i;
            }
            i += 1;
        }
        proof {
            assert(is_chosen_index(old(self)@, min_i as int));
            lemma_chosen_index_unique(old(self)@, min_i as int, chosen_index(old(self)@));
        }
        let task = self.ready_list.remove(min_i);
        Some(task)
    }
}

} // verus!
