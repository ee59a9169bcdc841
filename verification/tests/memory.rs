//! Behaviour of the mapping syscalls: alignment and permission
//! validation, all-or-nothing insertion, and exact-region removal.

use task_core::kernel::Kernel;
use task_core::mm::PAGE_SIZE;
use task_core::task::TaskControlBlock;

/// A kernel with one dispatched task, so the mapping calls have a
/// current task to act on.
fn kernel_with_current() -> Kernel {
    let mut k = Kernel::new();
    k.add_task(TaskControlBlock::new(1, 0, 0));
    let cx = k.dispatch_next();
    assert!(cx.is_some());
    k
}

#[test]
fn mmap_rejects_unaligned_address() {
    let mut k = kernel_with_current();
    // one byte past a page boundary
    assert_eq!(k.mmap(PAGE_SIZE + 1, 100, 1), -1);
    // and the same region is still free afterwards: nothing was mapped
    assert_eq!(k.mmap(PAGE_SIZE, 100, 1), 0);
}

#[test]
fn mmap_rejects_empty_permission_set() {
    let mut k = kernel_with_current();
    assert_eq!(k.mmap(PAGE_SIZE, 100, 0), -1);
    // bits above Read/Write/Execute/User alone grant nothing
    assert_eq!(k.mmap(PAGE_SIZE, 100, 16), -1);
}

#[test]
fn mmap_rejects_user_bit_in_raw_port() {
    let mut k = kernel_with_current();
    assert_eq!(k.mmap(PAGE_SIZE, 100, 8), -1);
    // even when Read/Write/Execute are also set
    assert_eq!(k.mmap(PAGE_SIZE, 100, 8 | 1), -1);
}

#[test]
fn mmap_read_only_succeeds_and_is_removable() {
    let mut k = kernel_with_current();
    assert_eq!(k.mmap(PAGE_SIZE, 100, 1), 0);
    assert_eq!(k.munmap(PAGE_SIZE, 100), 0);
}

#[test]
fn mmap_ignores_port_bits_above_the_low_four() {
    let mut k = kernel_with_current();
    assert_eq!(k.mmap(PAGE_SIZE, 100, 16 | 1), 0);
}

#[test]
fn mmap_rejects_overlap_with_existing_mapping() {
    let mut k = kernel_with_current();
    assert_eq!(k.mmap(PAGE_SIZE, 2 * PAGE_SIZE, 3), 0);
    // same page range again
    assert_eq!(k.mmap(PAGE_SIZE, 2 * PAGE_SIZE, 1), -1);
    // sharing only the last page
    assert_eq!(k.mmap(2 * PAGE_SIZE, PAGE_SIZE, 1), -1);
    // the next free page is fine
    assert_eq!(k.mmap(3 * PAGE_SIZE, PAGE_SIZE, 1), 0);
}

#[test]
fn munmap_rejects_unaligned_address() {
    let mut k = kernel_with_current();
    assert_eq!(k.mmap(PAGE_SIZE, PAGE_SIZE, 1), 0);
    assert_eq!(k.munmap(PAGE_SIZE + 1, PAGE_SIZE), -1);
}

#[test]
fn munmap_rejects_region_never_mapped() {
    let mut k = kernel_with_current();
    assert_eq!(k.munmap(PAGE_SIZE, 100), -1);
}

#[test]
fn munmap_rejects_partial_overlap() {
    let mut k = kernel_with_current();
    assert_eq!(k.mmap(PAGE_SIZE, 2 * PAGE_SIZE, 1), 0);
    // only the first of the two mapped pages
    assert_eq!(k.munmap(PAGE_SIZE, PAGE_SIZE), -1);
    // two pages starting one page further
    assert_eq!(k.munmap(2 * PAGE_SIZE, 2 * PAGE_SIZE), -1);
    // the exact region still comes off in one piece
    assert_eq!(k.munmap(PAGE_SIZE, 2 * PAGE_SIZE), 0);
}

#[test]
fn munmap_of_removed_region_is_rejected_again() {
    let mut k = kernel_with_current();
    assert_eq!(k.mmap(PAGE_SIZE, 100, 1), 0);
    assert_eq!(k.munmap(PAGE_SIZE, 100), 0);
    assert_eq!(k.munmap(PAGE_SIZE, 100), -1);
}

#[test]
fn mmap_failure_leaves_no_partial_mapping() {
    let mut k = kernel_with_current();
    assert_eq!(k.mmap(PAGE_SIZE, PAGE_SIZE, 1), 0);
    // overlapping request covering a mapped and a free page fails whole
    assert_eq!(k.mmap(PAGE_SIZE, 2 * PAGE_SIZE, 1), -1);
    // the free page was not silently mapped by the failed call
    assert_eq!(k.mmap(2 * PAGE_SIZE, PAGE_SIZE, 1), 0);
}
