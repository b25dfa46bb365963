//! Physical frame allocation from boot-reported memory regions.
//!
//! Frames are handed out monotonically and never reclaimed; the set of
//! addresses ever returned is pairwise disjoint and strictly increasing in
//! issuance order.

use vstd::prelude::*;
use crate::mem::{
    MemRegion, MemRegionKind, PAGE_SIZE, align_up, align_down, region_ok, regions_ok,
    regions_ordered, spec_align_up, spec_align_down,
};

verus! {

/// `a` lies on a page boundary.
pub open spec fn page_aligned(a: u64) -> bool {
    a % PAGE_SIZE == 0
}

/// First page boundary at or above the region's start.
pub open spec fn region_first_page(r: MemRegion) -> int {
    spec_align_up(r.start as int, PAGE_SIZE as int)
}

/// Last page boundary at or below the region's end.
pub open spec fn region_pages_end(r: MemRegion) -> int {
    spec_align_down(r.end as int, PAGE_SIZE as int)
}

/// The region is allocatable: usable, and still holds a whole page after its
/// bounds are aligned inward.
pub open spec fn usable_region(r: MemRegion) -> bool {
    r.kind == MemRegionKind::Usable && region_first_page(r) + PAGE_SIZE <= region_pages_end(r)
}

/// Index of the first allocatable region at or after `i` (or `rs.len()`).
pub open spec fn first_usable_from(rs: Seq<MemRegion>, i: int) -> int
    decreases rs.len() - i when 0 <= i <= rs.len()
{
    if i >= rs.len() {
        i
    } else if usable_region(rs[i]) {
        i
    } else {
        first_usable_from(rs, i + 1)
    }
}

proof fn lemma_first_usable_from(rs: Seq<MemRegion>, i: int)
    requires
        0 <= i <= rs.len(),
    ensures
        i <= first_usable_from(rs, i) <= rs.len(),
        first_usable_from(rs, i) < rs.len() ==> usable_region(rs[first_usable_from(rs, i)]),
        forall|j: int| i <= j < first_usable_from(rs, i) ==> !usable_region(rs[j]),
    decreases rs.len() - i,
{
    if i < rs.len() && !usable_region(rs[i]) {
        lemma_first_usable_from(rs, i + 1);
    }
}

/// Two page-aligned addresses that differ, differ by at least a page.
pub proof fn lemma_aligned_step(a: u64, b: u64)
    requires
        a % PAGE_SIZE == 0,
        b % PAGE_SIZE == 0,
        a < b,
    ensures
        a + PAGE_SIZE <= b,
{
    vstd::arithmetic::div_mod::lemma_fundamental_div_mod(a as int, PAGE_SIZE as int);
    vstd::arithmetic::div_mod::lemma_fundamental_div_mod(b as int, PAGE_SIZE as int);
    let qa = a as int / (PAGE_SIZE as int);
    let qb = b as int / (PAGE_SIZE as int);
    assert(a + PAGE_SIZE <= b) by (nonlinear_arith)
        requires
            a == (PAGE_SIZE as int) * qa,
            b == (PAGE_SIZE as int) * qb,
            a < b,
            PAGE_SIZE == 4096,
    ;
}

/// The allocator's abstract state: the region list, the scan position,
/// the current inward-aligned region, the bump cursor, and every frame
/// handed out so far.
pub struct AllocModel {
    pub regions: Seq<MemRegion>,
    pub region_idx: int,
    pub current: Option<MemRegion>,
    pub next_addr: u64,
    pub history: Seq<u64>,
}

/// The current region still has a whole page of room.
pub open spec fn model_cur_room(m: AllocModel) -> bool {
    match m.current {
        Some(c) => m.next_addr + PAGE_SIZE <= c.end,
        None => false,
    }
}

/// One allocation on the abstract state: the state after, and the result.
/// A frame comes from the current region while it has room; otherwise the
/// scan advances to the first remaining allocatable region, whose aligned
/// start is handed out; with none left the scan is exhausted for good.
pub open spec fn spec_alloc_step(m: AllocModel) -> (AllocModel, Option<u64>) {
    if model_cur_room(m) {
        (
            AllocModel {
                next_addr: (m.next_addr + PAGE_SIZE) as u64,
                history: m.history.push(m.next_addr),
                ..m
            },
            Some(m.next_addr),
        )
    } else {
        let i = first_usable_from(m.regions, m.region_idx);
        if 0 <= m.region_idx <= m.regions.len() && i < m.regions.len() {
            let s = region_first_page(m.regions[i]) as u64;
            let e = region_pages_end(m.regions[i]) as u64;
            (
                AllocModel {
                    regions: m.regions,
                    region_idx: i + 1,
                    current: Some(MemRegion { start: s, end: e, kind: m.regions[i].kind }),
                    next_addr: (s + PAGE_SIZE) as u64,
                    history: m.history.push(s),
                },
                Some(s),
            )
        } else {
            (AllocModel { region_idx: m.regions.len() as int, ..m }, None)
        }
    }
}

/// Physical frame allocator interface.
///
/// `frames()` records every frame ever handed out, in issuance order; the
/// contract keeps that sequence page-aligned, strictly increasing and
/// pairwise disjoint, pins exactly when allocation succeeds, and makes
/// each call a deterministic step on the abstract state.
pub trait FrameAllocator: Sized {
    /// Internal invariant of the allocator.
    spec fn wf(&self) -> bool;

    /// Every frame handed out so far, in issuance order.
    spec fn frames(&self) -> Seq<u64>;

    /// A further frame is still available.
    spec fn has_frame(&self) -> bool;

    /// The address the next successful allocation returns.
    spec fn next_frame(&self) -> int;

    /// `addr` lies inside a usable region of the allocator's memory map.
    spec fn possible_frame(&self, addr: u64) -> bool;

    /// The allocator's abstract state.
    spec fn model(&self) -> AllocModel;

    /// Allocate one 4 KiB aligned physical frame.
    ///
    /// Returns the starting physical address on success, or `None` once the
    /// usable regions are exhausted (the sole failure mode, terminal for
    /// this allocator instance).
    fn alloc_frame(&mut self) -> (r: Option<u64>)
        requires
            old(self).wf(),
        ensures
            final(self).wf(),
            (r is Some) == old(self).has_frame(),
            forall|a: u64| final(self).possible_frame(a) ==> old(self).possible_frame(a),
            ({
                let (m2, rr) = spec_alloc_step(old(self).model());
                final(self).model() == m2 && r == rr
            }),
            match r {
                Some(addr) => {
                    &&& final(self).frames() == old(self).frames().push(addr)
                    &&& addr == old(self).next_frame()
                    &&& addr % PAGE_SIZE == 0
                    &&& addr + PAGE_SIZE <= u64::MAX
                    &&& old(self).possible_frame(addr)
                    &&& forall|i: int|
                        0 <= i < old(self).frames().len()
                            ==> #[trigger] old(self).frames()[i] + PAGE_SIZE <= addr
                },
                None => {
                    &&& final(self).frames() == old(self).frames()
                    &&& !final(self).has_frame()
                },
            },
    ;
}

/// Simple bump allocator over usable memory regions.
pub struct BumpFrameAllocator {
    /// The boot-supplied region list, in address order.
    pub regions: Vec<MemRegion>,
    /// Index of the next region to examine.
    pub region_idx: usize,
    /// Region currently being carved into frames, bounds already aligned.
    pub current: Option<MemRegion>,
    /// Next address to hand out inside `current`.
    pub next_addr: u64,
    /// Every frame handed out so far, in issuance order.
    pub history: Ghost<Seq<u64>>,
}

impl BumpFrameAllocator {
    /// Internal invariant: the current region is aligned and inside one of
    /// the usable input regions, the cursor sits inside it, and the history
    /// of handed-out frames is aligned and strictly increasing.
    pub open spec fn spec_wf(&self) -> bool {
        &&& regions_ok(self.regions@)
        &&& regions_ordered(self.regions@)
        &&& self.region_idx <= self.regions@.len()
        &&& match self.current {
            Some(c) => {
                &&& page_aligned(c.start)
                &&& page_aligned(c.end)
                &&& page_aligned(self.next_addr)
                &&& c.start <= self.next_addr <= c.end
                &&& forall|i: int|
                    self.region_idx <= i < self.regions@.len()
                        ==> c.end <= (#[trigger] self.regions@[i]).start
                &&& exists|j: int| {
                    &&& 0 <= j < self.regions@.len()
                    &&& (#[trigger] self.regions@[j]).kind == MemRegionKind::Usable
                    &&& self.regions@[j].start <= c.start
                    &&& c.end <= self.regions@[j].end
                }
                &&& forall|i: int|
                    0 <= i < self.history@.len()
                        ==> (#[trigger] self.history@[i]) + PAGE_SIZE <= self.next_addr
            },
            None => {
                &&& self.history@.len() == 0
                &&& self.next_addr == 0
            },
        }
        &&& forall|i: int, j: int|
            0 <= i < j < self.history@.len()
                ==> self.history@[i] + PAGE_SIZE <= self.history@[j]
        &&& forall|i: int| 0 <= i < self.history@.len() ==> page_aligned(#[trigger] self.history@[i])
    }

    /// The current region still has a whole page left.
    pub open spec fn cur_has_room(&self) -> bool {
        match self.current {
            Some(c) => self.next_addr + PAGE_SIZE <= c.end,
            None => false,
        }
    }

    /// A further frame is available: room in the current region, or some
    /// later region is allocatable.
    pub open spec fn spec_has_frame(&self) -> bool {
        self.cur_has_room() || exists|i: int|
            self.region_idx <= i < self.regions@.len() && usable_region(
                #[trigger] self.regions@[i],
            )
    }

    /// The address the next successful allocation returns.
    pub open spec fn spec_next_frame(&self) -> int {
        if self.cur_has_room() {
            self.next_addr as int
        } else {
            region_first_page(
                self.regions@[first_usable_from(self.regions@, self.region_idx as int)],
            )
        }
    }

    /// `addr` lies (with a whole page of room) inside a usable input region.
    pub open spec fn spec_possible_frame(&self, addr: u64) -> bool {
        exists|i: int|
            {
                &&& 0 <= i < self.regions@.len()
                &&& (#[trigger] self.regions@[i]).kind == MemRegionKind::Usable
                &&& self.regions@[i].start <= addr
                &&& addr + PAGE_SIZE <= self.regions@[i].end
            }
    }

    /// Create a bump allocator from an ordered list of memory regions.
    pub fn new(regions: Vec<MemRegion>) -> (r: Self)
        requires
            regions_ok(regions@),
            regions_ordered(regions@),
        ensures
            r.spec_wf(),
            r.regions@ == regions@,
            r.current is None,
            r.region_idx == 0,
            r.history@ == Seq::<u64>::empty(),
    {
        Self { regions, region_idx: 0, current: None, next_addr: 0, history: Ghost(Seq::empty()) }
    }
}

impl FrameAllocator for BumpFrameAllocator {
    open spec fn wf(&self) -> bool {
        self.spec_wf()
    }

    open spec fn frames(&self) -> Seq<u64> {
        self.history@
    }

    open spec fn has_frame(&self) -> bool {
        self.spec_has_frame()
    }

    open spec fn next_frame(&self) -> int {
        self.spec_next_frame()
    }

    open spec fn possible_frame(&self, addr: u64) -> bool {
        self.spec_possible_frame(addr)
    }

    open spec fn model(&self) -> AllocModel {
        AllocModel {
            regions: self.regions@,
            region_idx: self.region_idx as int,
            current: self.current,
            next_addr: self.next_addr,
            history: self.history@,
        }
    }

    fn alloc_frame(&mut self) -> (r: Option<u64>) {
        match self.current {
            Some(c) => {
                if self.next_addr < c.end {
                    let addr = self.next_addr;
                    proof {
                        lemma_aligned_step(self.next_addr, c.end);
                    }
                    self.next_addr = addr + PAGE_SIZE;
                    proof {
                        self.history@ = self.history@.push(addr);
                    }
                    return Some(addr);
                }
            },
            None => {},
        }
        while self.region_idx < self.regions.len()
            invariant
                self.spec_wf(),
                self.regions@ == old(self).regions@,
                self.current == old(self).current,
                self.next_addr == old(self).next_addr,
                self.history@ == old(self).history@,
                old(self).region_idx <= self.region_idx <= self.regions@.len(),
                !old(self).cur_has_room(),
                forall|j: int|
                    old(self).region_idx <= j < self.region_idx
                        ==> !usable_region(#[trigger] self.regions@[j]),
                first_usable_from(self.regions@, old(self).region_idx as int)
                    == first_usable_from(self.regions@, self.region_idx as int),
            decreases self.regions@.len() - self.region_idx,
        {
            let r = self.regions[self.region_idx];
            let ghost prev_idx = self.region_idx as int;
            self.region_idx = self.region_idx + 1;
            if r.kind == MemRegionKind::Usable {
                proof {
                    crate::mem::lemma_page_size_pow2();
                }
                let s = align_up(r.start, PAGE_SIZE);
                let e = align_down(r.end, PAGE_SIZE);
                if s < e {
                    proof {
                        lemma_aligned_step(s, e);
                    }
                    self.current = Some(MemRegion { start: s, end: e, kind: r.kind });
                    self.next_addr = s + PAGE_SIZE;
                    proof {
                        self.history@ = self.history@.push(s);
                        assert(usable_region(self.regions@[prev_idx]));
                        assert(first_usable_from(self.regions@, prev_idx) == prev_idx);
                    }
                    return Some(s);
                }
            }
            proof {
                assert(!usable_region(self.regions@[prev_idx]));
            }
        }
        proof {
            lemma_first_usable_from(self.regions@, old(self).region_idx as int);
        }
        None
    }
}

/// Frame allocator over the boot-reported memory map: the same bump
/// policy, owned by the paging layer to back page-table and heap frames.
pub struct BootInfoFrameAllocator {
    /// The underlying bump allocator over the boot regions.
    pub inner: BumpFrameAllocator,
}

impl BootInfoFrameAllocator {
    /// Create a frame allocator from an ordered boot memory map.
    pub fn new(regions: Vec<MemRegion>) -> (r: Self)
        requires
            regions_ok(regions@),
            regions_ordered(regions@),
        ensures
            r.inner.spec_wf(),
            r.inner.regions@ == regions@,
            r.inner.current is None,
            r.inner.history@ == Seq::<u64>::empty(),
    {
        Self { inner: BumpFrameAllocator::new(regions) }
    }
}

impl FrameAllocator for BootInfoFrameAllocator {
    open spec fn wf(&self) -> bool {
        self.inner.spec_wf()
    }

    open spec fn frames(&self) -> Seq<u64> {
        self.inner.history@
    }

    open spec fn has_frame(&self) -> bool {
        self.inner.spec_has_frame()
    }

    open spec fn next_frame(&self) -> int {
        self.inner.spec_next_frame()
    }

    open spec fn possible_frame(&self, addr: u64) -> bool {
        self.inner.spec_possible_frame(addr)
    }

    open spec fn model(&self) -> AllocModel {
        AllocModel {
            regions: self.inner.regions@,
            region_idx: self.inner.region_idx as int,
            current: self.inner.current,
            next_addr: self.inner.next_addr,
            history: self.inner.history@,
        }
    }

    fn alloc_frame(&mut self) -> (r: Option<u64>) {
        let r = self.inner.alloc_frame();
        proof {
            assert forall|a: u64| self.possible_frame(a) implies old(self).possible_frame(a) by {
                assert(self.inner.possible_frame(a) ==> old(self).inner.possible_frame(a));
            }
        }
        r
    }
}

/// Every frame a well-formed allocator has handed out is page-aligned, and
/// the handed-out frames are pairwise disjoint and strictly increasing in
/// issuance order.
pub proof fn lemma_frames_disjoint(s: &BumpFrameAllocator)
    requires
        s.spec_wf(),
    ensures
        forall|i: int| 0 <= i < s.history@.len() ==> (#[trigger] s.history@[i]) % PAGE_SIZE == 0,
        forall|i: int, j: int|
            0 <= i < j < s.history@.len() ==> s.history@[i] + PAGE_SIZE <= s.history@[j],
        forall|i: int, j: int| 0 <= i < j < s.history@.len() ==> s.history@[i] < s.history@[j],
{
}

/// A region list with no `Usable` entry leaves a fresh allocator with
/// nothing to hand out: already the first allocation fails.
pub proof fn lemma_reserved_regions_exhaust(s: &BumpFrameAllocator)
    requires
        s.spec_wf(),
        s.current is None,
        forall|i: int|
            0 <= i < s.regions@.len() ==> (#[trigger] s.regions@[i]).kind != MemRegionKind::Usable,
    ensures
        !s.spec_has_frame(),
{
}

} // verus!
