//! The address-space model: page geometry, mapping permissions, and the
//! set of framed regions a task has mapped.
//!
//! The page tables and physical frames themselves live outside this core;
//! what is tracked here is exactly what the mapping syscalls decide on:
//! which virtual-page ranges are mapped, with which permissions.

use vstd::prelude::*;

verus! {

/// Bytes per page; virtual addresses are page-aligned when their offset
/// in this unit is zero.
pub const PAGE_SIZE: usize = 4096;

/// The permission set of a mapping, over Read/Write/Execute plus the
/// kernel-added User-accessible bit.
#[derive(Clone, Copy, Debug, PartialEq, Eq, Structural)]
pub struct MapPermission {
    /// The mapping may be read.
    pub r: bool,
    /// The mapping may be written.
    pub w: bool,
    /// The mapping may be executed.
    pub x: bool,
    /// The mapping is accessible from user mode.
    pub u: bool,
}

/// One framed region: the virtual pages `[start_vpn, end_vpn)` mapped as a
/// unit with one permission set.
#[derive(Clone, Copy, Debug, PartialEq, Eq, Structural)]
pub struct MapArea {
    /// First virtual page number of the region.
    pub start_vpn: usize,
    /// One past the last virtual page number of the region.
    pub end_vpn: usize,
    /// Permissions of every page of the region.
    pub perm: MapPermission,
}

/// The virtual page containing byte address `addr`.
pub open spec fn vpn_floor(addr: int) -> int {
    addr / (PAGE_SIZE as int)
}

/// The first virtual page at or above byte address `addr`.
pub open spec fn vpn_ceil(addr: int) -> int {
    if addr % (PAGE_SIZE as int) == 0 {
        addr / (PAGE_SIZE as int)
    } else {
        addr / (PAGE_SIZE as int) + 1
    }
}

/// Whether two regions share at least one virtual page.
pub open spec fn overlaps(a: MapArea, b: MapArea) -> bool {
    a.start_vpn < b.end_vpn && b.start_vpn < a.end_vpn
}

/// Whether region `a` shares no page with any region of `s`.
pub open spec fn disjoint_from_all(s: Seq<MapArea>, a: MapArea) -> bool {
    forall|i: int| 0 <= i < s.len() ==> !overlaps(s[i], a)
}

/// Whether `s` holds a region covering exactly the pages `[start_vpn, end_vpn)`.
pub open spec fn has_exact(s: Seq<MapArea>, start_vpn: int, end_vpn: int) -> bool {
    exists|i: int| 0 <= i < s.len() && s[i].start_vpn == start_vpn && s[i].end_vpn == end_vpn
}

/// Whether `i` is the position of the first region of `s` covering exactly
/// the pages `[start_vpn, end_vpn)`.
pub open spec fn is_first_exact(s: Seq<MapArea>, start_vpn: int, end_vpn: int, i: int) -> bool {
    &&& 0 <= i < s.len()
    &&& s[i].start_vpn == start_vpn
    &&& s[i].end_vpn == end_vpn
    &&& forall|j: int|
        0 <= j < i ==> !(s[j].start_vpn == start_vpn && s[j].end_vpn == end_vpn)
}

/// A task's address space: the framed regions it has mapped, in the order
/// they were established.
pub struct MemorySet {
    areas: Vec<MapArea>,
}

impl MemorySet {
    /// The regions currently mapped.
    pub closed spec fn view(self) -> Seq<MapArea> {
        self.areas@
    }

    /// Well-formedness: distinct regions never share a page (each mapping
    /// was inserted all-or-nothing into free space).
    pub open spec fn wf(self) -> bool {
        forall|i: int, j: int|
            0 <= i < self@.len() && 0 <= j < self@.len() && i != j ==> !overlaps(
                self@[i],
                self@[j],
            )
    }

    /// An empty address space.
    pub fn new() -> (r: MemorySet)
        ensures
            r@ =~= Seq::empty(),
            r.wf(),
    {
        MemorySet { areas: Vec::new() }
    }

    /// Insert the framed region covering the bytes `[start_va, end_va)`
    /// with permissions `perm`: all-or-nothing, refused when any page of
    /// the region is already mapped.
    pub fn insert_framed_area(&mut self, start_va: usize, end_va: usize, perm: MapPermission) -> (r:
        bool)
        requires
            start_va <= end_va,
        ensures
            ({
                let area = MapArea {
                    start_vpn: vpn_floor(start_va as int) as usize,
                    end_vpn: vpn_ceil(end_va as int) as usize,
                    perm,
                };
                &&& r == disjoint_from_all(old(self)@, area)
                &&& r ==> final(self)@ == old(self)@.push(area)
                &&& !r ==> final(self)@ == old(self)@
                &&& old(self).wf() ==> final(self).wf()
            }),
    {
        let start_vpn = start_va / PAGE_SIZE;
        let end_vpn = if end_va % PAGE_SIZE == 0 {
            end_va / PAGE_SIZE
        } else {
            end_va / PAGE_SIZE + 1
        };
        proof {
            assert(start_vpn as int == vpn_floor(start_va as int));
            assert(end_vpn as int == vpn_ceil(end_va as int));
            assert(start_vpn == vpn_floor(start_va as int) as usize);
            assert(end_vpn == vpn_ceil(end_va as int) as usize);
        }
        let area = MapArea { start_vpn, end_vpn, perm };
        proof {
            assert(area == (MapArea {
                start_vpn: vpn_floor(start_va as int) as usize,
                end_vpn: vpn_ceil(end_va as int) as usize,
                perm,
            }));
        }
        let n = self.areas.len();
        let mut i: usize = 0;
        while i < n
            invariant
                self.areas@ == old(self)@,
                n == self.areas@.len(),
                i <= n,
                start_vpn as int == vpn_floor(start_va as int),
                end_vpn as int == vpn_ceil(end_va as int),
                area == (MapArea { start_vpn, end_vpn, perm }),
                forall|j: int| 0 <= j < i ==> !overlaps(self.areas@[j], area),
            decreases n - i,
        {
            let existing = self.areas[i];
            if existing.start_vpn < area.end_vpn && area.start_vpn < existing.end_vpn {
                proof {
                    assert(overlaps(old(self)@[i as int], area));
                }
                return false;
            }
            i += 1;
        }
        proof {
            assert(disjoint_from_all(old(self)@, area));
        }
        self.areas.push(area);
        proof {
            if old(self).wf() {
                let last = self@.len() - 1;
                assert forall|p: int, q: int|
                    0 <= p < self@.len() && 0 <= q < self@.len() && p != q implies !overlaps(
                    self@[p],
                    self@[q],
                ) by {
                    if p == last {
                        assert(!overlaps(old(self)@[q], area));
                    } else if q == last {
                        assert(!overlaps(old(self)@[p], area));
                    } else {
                        assert(!overlaps(old(self)@[p], old(self)@[q]));
                    }
                }
            }
        }
        true
    }

    /// Remove the framed region covering exactly the bytes
    /// `[start_va, end_va)`; refused when no region with exactly those
    /// page bounds is tracked.
    pub fn free_framed_area(&mut self, start_va: usize, end_va: usize) -> (r: bool)
        requires
            start_va <= end_va,
        ensures
            ({
                let sv = vpn_floor(start_va as int);
                let ev = vpn_ceil(end_va as int);
                &&& r == has_exact(old(self)@, sv, ev)
                &&& r ==> exists|i: int|
                    is_first_exact(old(self)@, sv, ev, i) && final(self)@ == old(self)@.remove(i)
                &&& !r ==> final(self)@ == old(self)@
                &&& old(self).wf() ==> final(self).wf()
            }),
    {
        let start_vpn = start_va / PAGE_SIZE;
        let end_vpn = if end_va % PAGE_SIZE == 0 {
            end_va / PAGE_SIZE
        } else {
            end_va / PAGE_SIZE + 1
        };
        proof {
            assert(start_vpn as int == vpn_floor(start_va as int));
            assert(end_vpn as int == vpn_ceil(end_va as int));
        }
        let n = self.areas.len();
        let mut i: usize = 0;
        while i < n
            invariant
                self.areas@ == old(self)@,
                n == self.areas@.len(),
                i <= n,
                start_vpn as int == vpn_floor(start_va as int),
                end_vpn as int == vpn_ceil(end_va as int),
                forall|j: int|
                    0 <= j < i ==> !(self.areas@[j].start_vpn == start_vpn
                        && self.areas@[j].end_vpn == end_vpn),
            decreases n - i,
        {
            let existing = self.areas[i];
            if existing.start_vpn == start_vpn && existing.end_vpn == end_vpn {
                proof {
                    lemma_remove_keeps_disjoint(old(self)@, i as int);
                }
                self.areas.remove(i);
                proof {
                    let sv = vpn_floor(start_va as int);
                    let ev = vpn_ceil(end_va as int);
                    assert(sv == start_vpn as int && ev == end_vpn as int);
                    assert(is_first_exact(old(self)@, sv, ev, i as int));
                    assert(has_exact(old(self)@, sv, ev));
                    assert(self@ == old(self)@.remove(i as int));
                    assert(exists|j: int|
                        is_first_exact(old(self)@, sv, ev, j) && self@ == old(self)@.remove(j));
                }
                return true;
            }
            i += 1;
        }
        proof {
            assert(!has_exact(old(self)@, start_vpn as int, end_vpn as int));
        }
        false
    }
}

/// Removing one region of a pairwise-disjoint set leaves the rest
/// pairwise disjoint.
proof fn lemma_remove_keeps_disjoint(s: Seq<MapArea>, i: int)
    requires
        0 <= i < s.len(),
    ensures
        (forall|p: int, q: int|
            0 <= p < s.len() && 0 <= q < s.len() && p != q ==> !overlaps(s[p], s[q]))
            ==> (forall|p: int, q: int|
            0 <= p < s.remove(i).len() && 0 <= q < s.remove(i).len() && p != q ==> !overlaps(
                s.remove(i)[p],
                s.remove(i)[q],
            )),
{
}

} // verus!
