//! Bump heap over a mapped virtual region.
//!
//! The heap never reclaims memory: `next` only moves forward, and `end`
//! only moves forward through `grow_heap`, and only after the newly covered
//! range has been page-mapped, so an allocation is never granted an address
//! beyond mapped memory.
//!
//! The kernel wraps one `BumpHeap` in its global allocator with an atomic
//! compare-and-swap on `next`, so allocation stays safe under interrupt
//! preemption without taking a lock.  Growing the heap allocates frames
//! while mapping pages: a kernel backend whose mapper takes the same frame
//! allocator lock must not call `grow_heap` from inside a frame allocation,
//! or the non-reentrant lock will hang.

use vstd::prelude::*;
use crate::errors::CoreError;
use crate::frame::FrameAllocator;
use crate::mem::{
    PAGE_SIZE, align_up, is_pow2, lemma_page_size_pow2, spec_align_up,
    lemma_spec_align_up_bounds,
};
use crate::paging::{PageMapper, page_of};

verus! {

/// Virtual start address of the heap region.
pub const HEAP_VIRT_START: u64 = 0x4444_4444_0000;

/// Initial heap size mapped at startup (1 MiB).
pub const HEAP_INITIAL_SIZE: u64 = 0x10_0000;

/// Bump-allocator heap bounds: `start <= next <= end`, page-aligned ends.
pub struct BumpHeap {
    /// First address of the heap region.
    pub start: u64,
    /// One past the last mapped heap address; grows via `grow_heap`.
    pub end: u64,
    /// Next address to hand out; only ever moves forward.
    pub next: u64,
}

impl BumpHeap {
    /// Bounds are ordered and lie on page boundaries.
    pub open spec fn spec_wf(&self) -> bool {
        &&& self.start <= self.next <= self.end
        &&& self.start % PAGE_SIZE == 0
        &&& self.end % PAGE_SIZE == 0
    }

    /// Where the next allocation with alignment `align` would start.
    pub open spec fn spec_alloc_start(&self, align: int) -> int {
        spec_align_up(self.next as int, align)
    }

    /// An allocation of `size` bytes aligned to `align` fits.
    pub open spec fn spec_fits(&self, size: int, align: int) -> bool {
        self.spec_alloc_start(align) + size <= self.end
    }

    /// Allocate `size` bytes aligned to `align` by bumping `next`.
    ///
    /// Returns the allocation's start address, or `None` when the rounded
    /// request does not fit below `end` (out of memory: the sole failure).
    pub fn allocate(&mut self, size: u64, align: u64) -> (r: Option<u64>)
        requires
            old(self).spec_wf(),
            is_pow2(align),
        ensures
            final(self).spec_wf(),
            final(self).start == old(self).start,
            final(self).end == old(self).end,
            (r is Some) == old(self).spec_fits(size as int, align as int),
            match r {
                Some(p) => {
                    &&& p == old(self).spec_alloc_start(align as int)
                    &&& p % align == 0
                    &&& old(self).next <= p
                    &&& p + size <= old(self).end
                    &&& final(self).next == p + size
                },
                None => final(self).next == old(self).next,
            },
    {
        proof {
            crate::mem::lemma_pow2_positive(align);
            lemma_spec_align_up_bounds(self.next as int, align as int);
        }
        if self.next > u64::MAX - (align - 1) {
            proof {
                crate::mem::lemma_align_up_near_max(self.next, align);
            }
            return None;
        }
        let alloc_start = align_up(self.next, align);
        if alloc_start > self.end {
            return None;
        }
        if size > self.end - alloc_start {
            return None;
        }
        self.next = alloc_start + size;
        Some(alloc_start)
    }

    /// Deallocation is a no-op by design; memory is never reclaimed.
    pub fn dealloc(&mut self, _ptr: u64, _size: u64, _align: u64)
        ensures
            *final(self) == *old(self),
    {
    }
}

/// Map every page of `[start, start + size)`, allocating one fresh frame
/// per page, in address order.
///
/// On success every page of the range is mapped to the frame allocated
/// for it; already-installed mappings are never touched, and no mapping
/// outside the range is added.  `Exhausted` means the allocator ran dry;
/// `Conflict` means some page of the range was already mapped.  Failure
/// leaves any partial work installed but changes no existing mapping.
fn map_heap_range<M: PageMapper, A: FrameAllocator>(
    start: u64,
    size: u64,
    mapper: &mut M,
    frame_allocator: &mut A,
) -> (r: Result<(), CoreError>)
    requires
        old(mapper).wf(),
        old(frame_allocator).wf(),
        start % PAGE_SIZE == 0,
        size % PAGE_SIZE == 0,
        start + size <= u64::MAX,
    ensures
        final(mapper).wf(),
        final(frame_allocator).wf(),
        forall|k: u64|
            #[trigger] old(mapper).mappings().dom().contains(k)
                ==> final(mapper).mappings().dom().contains(k)
                    && final(mapper).mappings()[k] == old(mapper).mappings()[k],
        forall|p: u64|
            #[trigger] final(mapper).mappings().dom().contains(p) && !old(mapper).mappings().dom().contains(p) ==> start <= p < start + size,
        match r {
            Ok(()) => {
                &&& forall|p: u64|
                    start <= p < start + size && p % PAGE_SIZE == 0
                        ==> #[trigger] final(mapper).mappings().dom().contains(p)
                &&& final(frame_allocator).frames().len() == old(frame_allocator).frames().len()
                    + size / PAGE_SIZE
                &&& old(frame_allocator).frames() == final(frame_allocator).frames().take(
                    old(frame_allocator).frames().len() as int,
                )
                &&& forall|k: int|
                    0 <= k < size / PAGE_SIZE ==> final(mapper).mappings()[(start + k * PAGE_SIZE) as u64]
                        == #[trigger] final(frame_allocator).frames()[old(frame_allocator).frames().len() + k]
            },
            Err(e) => {
                &&& (e == CoreError::Exhausted || e == CoreError::Conflict)
                &&& e == CoreError::Exhausted ==> !final(frame_allocator).has_frame() || exists|p: u64|
                    start <= p < start + size && p % PAGE_SIZE == 0 && !(#[trigger] final(mapper).mappings().dom().contains(p))
                &&& e == CoreError::Conflict ==> exists|p: u64|
                    start <= p < start + size && p % PAGE_SIZE == 0 && #[trigger] old(mapper).mappings().dom().contains(p)
            },
        },
{
    let end = start + size;
    let mut page: u64 = start;
    let ghost m0 = *mapper;
    let ghost f0 = frame_allocator.frames();
    let ghost k: int = 0;
    while page < end
        invariant
            mapper.wf(),
            frame_allocator.wf(),
            m0 == *old(mapper),
            f0 == old(frame_allocator).frames(),
            start <= page <= end,
            page == start + k * PAGE_SIZE,
            0 <= k,
            end == start + size,
            end <= u64::MAX,
            page % PAGE_SIZE == 0,
            start % PAGE_SIZE == 0,
            end % PAGE_SIZE == 0,
            frame_allocator.frames().len() == f0.len() + k,
            f0 == frame_allocator.frames().take(f0.len() as int),
            forall|j: int|
                0 <= j < k ==> mapper.mappings()[(start + j * PAGE_SIZE) as u64]
                    == #[trigger] frame_allocator.frames()[f0.len() + j],
            forall|kk: u64|
                #[trigger] m0.mappings().dom().contains(kk)
                    ==> mapper.mappings().dom().contains(kk)
                        && mapper.mappings()[kk] == m0.mappings()[kk],
            forall|p: u64|
                #[trigger] mapper.mappings().dom().contains(p) && !m0.mappings().dom().contains(p)
                    ==> start <= p < page,
            forall|p: u64|
                start <= p < page && p % PAGE_SIZE == 0 ==> #[trigger] mapper.mappings().dom().contains(p),
        decreases end - page,
    {
        let frame = match frame_allocator.alloc_frame() {
            Some(f) => f,
            None => {
                proof {
                    assert(!frame_allocator.has_frame());
                }
                return Err(CoreError::Exhausted);
            },
        };
        match mapper.map_one_page(page, frame) {
            Ok(()) => {},
            Err(e) => {
                proof {
                    if e == CoreError::Conflict {
                        assert(old(mapper).mappings().dom().contains(page)) by {
                            assert(page_of(page) == page) by {
                                crate::mem::lemma_align_down_unique(
                                    page as int,
                                    PAGE_SIZE as int,
                                    page as int,
                                );
                            }
                        }
                    }
                }
                return Err(e);
            },
        }
        proof {
            assert(page_of(page) == page) by {
                crate::mem::lemma_align_down_unique(page as int, PAGE_SIZE as int, page as int);
            }
            assert(page_of(frame) == frame) by {
                crate::mem::lemma_align_down_unique(frame as int, PAGE_SIZE as int, frame as int);
            }
            crate::frame::lemma_aligned_step(page, end);
            k = k + 1;
        }
        page = page + PAGE_SIZE;
    }
    proof {
        assert(k == size / PAGE_SIZE) by (nonlinear_arith)
            requires
                size % PAGE_SIZE == 0,
                PAGE_SIZE == 4096,
                size == k * PAGE_SIZE,
                0 <= k,
        ;
    }
    Ok(())
}

/// Initialize the heap: map the fixed-size initial virtual range and record
/// its bounds, with `next` starting at `start`.
pub fn init_heap<M: PageMapper, A: FrameAllocator>(
    mapper: &mut M,
    frame_allocator: &mut A,
) -> (r: Result<BumpHeap, CoreError>)
    requires
        old(mapper).wf(),
        old(frame_allocator).wf(),
    ensures
        final(mapper).wf(),
        final(frame_allocator).wf(),
        forall|k: u64|
            #[trigger] old(mapper).mappings().dom().contains(k)
                ==> final(mapper).mappings().dom().contains(k)
                    && final(mapper).mappings()[k] == old(mapper).mappings()[k],
        match r {
            Ok(h) => {
                &&& h.spec_wf()
                &&& h.start == HEAP_VIRT_START
                &&& h.end == HEAP_VIRT_START + HEAP_INITIAL_SIZE
                &&& h.next == HEAP_VIRT_START
                &&& forall|p: u64|
                    HEAP_VIRT_START <= p < HEAP_VIRT_START + HEAP_INITIAL_SIZE
                        && p % PAGE_SIZE == 0
                        ==> #[trigger] final(mapper).mappings().dom().contains(p)
            },
            Err(e) => e == CoreError::Exhausted || e == CoreError::Conflict,
        },
{
    match map_heap_range(HEAP_VIRT_START, HEAP_INITIAL_SIZE, mapper, frame_allocator) {
        Ok(()) => Ok(
            BumpHeap {
                start: HEAP_VIRT_START,
                end: HEAP_VIRT_START + HEAP_INITIAL_SIZE,
                next: HEAP_VIRT_START,
            },
        ),
        Err(e) => Err(e),
    }
}

/// Grow the heap by mapping additional pages directly after the current
/// `end`, then advance `end`; a zero-byte request is a no-op, and failure
/// leaves the heap unchanged.
pub fn grow_heap<M: PageMapper, A: FrameAllocator>(
    heap: &mut BumpHeap,
    additional_bytes: u64,
    mapper: &mut M,
    frame_allocator: &mut A,
) -> (r: Result<(), CoreError>)
    requires
        old(heap).spec_wf(),
        old(mapper).wf(),
        old(frame_allocator).wf(),
    ensures
        final(heap).spec_wf(),
        final(mapper).wf(),
        final(frame_allocator).wf(),
        final(heap).start == old(heap).start,
        final(heap).next == old(heap).next,
        forall|k: u64|
            #[trigger] old(mapper).mappings().dom().contains(k)
                ==> final(mapper).mappings().dom().contains(k)
                    && final(mapper).mappings()[k] == old(mapper).mappings()[k],
        additional_bytes == 0 ==> r == Result::<(), CoreError>::Ok(()) && *final(heap) == *old(heap) && final(mapper).mappings() == old(mapper).mappings() && final(frame_allocator).frames()
            == old(frame_allocator).frames(),
        match r {
            Ok(()) => {
                &&& final(heap).end == old(heap).end + spec_align_up(
                    additional_bytes as int,
                    PAGE_SIZE as int,
                )
                &&& final(heap).end >= old(heap).end + additional_bytes
                &&& forall|p: u64|
                    old(heap).end <= p < final(heap).end && p % PAGE_SIZE == 0
                        ==> #[trigger] final(mapper).mappings().dom().contains(p)
            },
            Err(e) => {
                &&& *final(heap) == *old(heap)
                &&& (e == CoreError::Exhausted || e == CoreError::Conflict)
            },
        },
{
    if additional_bytes == 0 {
        return Ok(());
    }
    proof {
        lemma_page_size_pow2();
        lemma_spec_align_up_bounds(additional_bytes as int, PAGE_SIZE as int);
    }
    if additional_bytes > u64::MAX - (PAGE_SIZE - 1) {
        return Err(CoreError::Exhausted);
    }
    let size = align_up(additional_bytes, PAGE_SIZE);
    let old_end = heap.end;
    if size > u64::MAX - old_end {
        return Err(CoreError::Exhausted);
    }
    let new_end = old_end + size;
    match map_heap_range(old_end, size, mapper, frame_allocator) {
        Ok(()) => {
            heap.end = new_end;
            Ok(())
        },
        Err(e) => Err(e),
    }
}

/// Two sequential allocations from the same heap never overlap: the second
/// allocation starts at or after the end of the first, rounded up to the
/// requested alignment, whatever the sizes and alignments involved.
pub proof fn lemma_bump_allocations_disjoint(h0: BumpHeap, size1: int, align1: int, align2: int)
    requires
        h0.spec_wf(),
        align1 > 0,
        align2 > 0,
        size1 >= 0,
        h0.spec_fits(size1, align1),
    ensures
        ({
            let p1 = h0.spec_alloc_start(align1);
            let h1 = BumpHeap { next: (p1 + size1) as u64, ..h0 };
            h1.spec_alloc_start(align2) >= p1 + size1
        }),
{
    let p1 = h0.spec_alloc_start(align1);
    lemma_spec_align_up_bounds(h0.next as int, align1);
    let h1 = BumpHeap { next: (p1 + size1) as u64, ..h0 };
    lemma_spec_align_up_bounds(h1.next as int, align2);
}

} // verus!
