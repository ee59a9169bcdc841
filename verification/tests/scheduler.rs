//! Behaviour of the task manager: stride selection, FIFO tie-break,
//! ownership transfer, and the stride-fairness bound under simulated
//! dispatch cycles.

use task_core::manager::TaskManager;
use task_core::task::TaskControlBlock;
use task_core::task::TaskStatus;

fn task_with_stride(tid: usize, stride: usize) -> TaskControlBlock {
    let mut t = TaskControlBlock::new(tid, 0, 0);
    t.stride = stride;
    t
}

#[test]
fn fetch_on_empty_list_returns_none() {
    let mut m = TaskManager::new();
    assert!(m.fetch().is_none());
}

#[test]
fn fetch_single_task_returns_it_and_empties_list() {
    let mut m = TaskManager::new();
    m.add(task_with_stride(1, 42));
    let t = m.fetch().expect("one task is ready");
    assert_eq!(t.tid, 1);
    assert_eq!(t.stride, 42);
    assert!(m.fetch().is_none());
}

#[test]
fn fetch_picks_lowest_stride() {
    let mut m = TaskManager::new();
    m.add(task_with_stride(1, 50));
    m.add(task_with_stride(2, 10));
    m.add(task_with_stride(3, 30));
    assert_eq!(m.fetch().unwrap().tid, 2);
    assert_eq!(m.fetch().unwrap().tid, 3);
    assert_eq!(m.fetch().unwrap().tid, 1);
}

#[test]
fn equal_strides_fetched_in_insertion_order() {
    let mut m = TaskManager::new();
    m.add(task_with_stride(10, 7));
    m.add(task_with_stride(11, 7));
    m.add(task_with_stride(12, 7));
    assert_eq!(m.fetch().unwrap().tid, 10);
    assert_eq!(m.fetch().unwrap().tid, 11);
    assert_eq!(m.fetch().unwrap().tid, 12);
    assert!(m.fetch().is_none());
}

#[test]
fn later_equal_minimum_does_not_displace_earlier() {
    let mut m = TaskManager::new();
    m.add(task_with_stride(1, 9));
    m.add(task_with_stride(2, 3));
    m.add(task_with_stride(3, 3));
    assert_eq!(m.fetch().unwrap().tid, 2);
}

#[test]
fn fetched_task_is_gone_from_the_list() {
    let mut m = TaskManager::new();
    let n: usize = 8;
    for tid in 0..n {
        m.add(task_with_stride(tid, tid * 5));
    }
    let mut seen = Vec::new();
    for _ in 0..n {
        let t = m.fetch().expect("a task is still ready");
        assert!(!seen.contains(&t.tid), "a fetched task came back twice");
        seen.push(t.tid);
    }
    assert!(m.fetch().is_none(), "all tasks were fetched, the list is empty");
    assert_eq!(seen.len(), n);
}

#[test]
fn stride_gap_stays_within_one_pass_increment() {
    // Three tasks with different passes (inversely related to priority),
    // continuously ready: after every dispatch cycle the strides of any
    // two tasks differ by at most the largest pass.
    let passes: [usize; 3] = [20, 50, 100];
    let max_pass: usize = 100;
    let mut m = TaskManager::new();
    for tid in 0..passes.len() {
        m.add(task_with_stride(tid, 0));
    }
    for _ in 0..200 {
        let mut t = m.fetch().expect("all tasks stay ready");
        t.stride += passes[t.tid];
        m.add(t);
        let mut strides = Vec::new();
        for _ in 0..passes.len() {
            let t2 = m.fetch().unwrap();
            strides.push((t2.tid, t2.stride));
        }
        for &(tid, s) in &strides {
            let mut back = task_with_stride(tid, s);
            back.status = TaskStatus::Ready;
            m.add(back);
        }
        let lo = strides.iter().map(|&(_, s)| s).min().unwrap();
        let hi = strides.iter().map(|&(_, s)| s).max().unwrap();
        assert!(hi - lo <= max_pass, "stride gap {} exceeds one pass increment", hi - lo);
    }
}

#[test]
fn saturated_strides_are_still_scheduled() {
    // a nonempty list always yields a task, even at the largest stride
    let mut m = TaskManager::new();
    m.add(task_with_stride(1, usize::MAX));
    m.add(task_with_stride(2, usize::MAX));
    assert_eq!(m.fetch().unwrap().tid, 1);
    assert_eq!(m.fetch().unwrap().tid, 2);
    assert!(m.fetch().is_none());
}

#[test]
fn new_task_starts_ready_with_zeroed_state() {
    let t = TaskControlBlock::new(3, 17, 99);
    assert_eq!(t.tid, 3);
    assert_eq!(t.status, TaskStatus::Ready);
    assert_eq!(t.stride, 0);
    assert_eq!(t.start_time, 17);
    assert_eq!(t.user_token, 99);
    assert_eq!(t.syscall_times.len(), task_core::task::MAX_SYSCALL_NUM);
    assert!(t.syscall_times.iter().all(|&c| c == 0));
}
