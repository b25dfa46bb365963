//! Page mapping: virtual pages to physical frames, with conflict detection.
//!
//! The `PageMapper` trait abstracts the architecture's page-table hierarchy:
//! its model is the map from virtual page base to physical frame base.  The
//! in-memory `MappingTable` is a verified backend; a kernel backend walks
//! the real hardware tables and must meet the same contract.

use vstd::prelude::*;
use crate::errors::CoreError;
use crate::mem::{PAGE_SIZE, align_down, spec_align_down, lemma_page_size_pow2};

verus! {

/// Base address of the page (or frame) containing `a`.
pub open spec fn page_of(a: u64) -> u64 {
    spec_align_down(a as int, PAGE_SIZE as int) as u64
}

/// Installs virtual-to-physical page mappings.
///
/// A given virtual page maps to at most one physical frame at a time;
/// remapping an already-mapped page is a `Conflict` error, never a silent
/// overwrite.  A backend may fail with `Exhausted` when it cannot allocate
/// an intermediate table for a not-yet-mapped page; the in-memory backend
/// never does.
pub trait PageMapper: Sized {
    /// Internal invariant of the mapper.
    spec fn wf(&self) -> bool;

    /// The installed mappings: virtual page base to physical frame base.
    spec fn mappings(&self) -> Map<u64, u64>;

    /// Map the page containing `virt` to the frame containing `phys`,
    /// present and writable, and invalidate the stale translation for it.
    fn map_one_page(&mut self, virt: u64, phys: u64) -> (r: Result<(), CoreError>)
        requires
            old(self).wf(),
        ensures
            final(self).wf(),
            match r {
                Ok(()) => {
                    &&& !old(self).mappings().dom().contains(page_of(virt))
                    &&& final(self).mappings() == old(self).mappings().insert(
                        page_of(virt),
                        page_of(phys),
                    )
                },
                Err(CoreError::Conflict) => {
                    &&& old(self).mappings().dom().contains(page_of(virt))
                    &&& final(self).mappings() == old(self).mappings()
                },
                Err(CoreError::Exhausted) => {
                    &&& !old(self).mappings().dom().contains(page_of(virt))
                    &&& final(self).mappings() == old(self).mappings()
                },
                Err(_) => false,
            },
    ;
}

/// In-memory page-mapping table: an association list from virtual page base
/// to physical frame base, with unique keys.
pub struct MappingTable {
    /// `(virtual page base, physical frame base)` pairs, keys unique.
    pub entries: Vec<(u64, u64)>,
    /// The same mappings as a map, kept in lockstep with `entries`.
    pub model: Ghost<Map<u64, u64>>,
}

impl MappingTable {
    /// `entries` and `model` agree and keys are unique.
    pub open spec fn spec_wf(&self) -> bool {
        &&& forall|i: int, j: int|
            0 <= i < j < self.entries@.len()
                ==> (#[trigger] self.entries@[i]).0 != (#[trigger] self.entries@[j]).0
        &&& forall|i: int|
            0 <= i < self.entries@.len()
                ==> self.model@.dom().contains((#[trigger] self.entries@[i]).0)
                    && self.model@[self.entries@[i].0] == self.entries@[i].1
        &&& forall|k: u64|
            self.model@.dom().contains(k)
                ==> exists|i: int|
                    0 <= i < self.entries@.len() && (#[trigger] self.entries@[i]).0 == k
    }

    /// Create an empty mapping table.
    pub fn new() -> (r: Self)
        ensures
            r.spec_wf(),
            r.model@ == Map::<u64, u64>::empty(),
    {
        Self { entries: Vec::new(), model: Ghost(Map::empty()) }
    }
}

impl PageMapper for MappingTable {
    open spec fn wf(&self) -> bool {
        self.spec_wf()
    }

    open spec fn mappings(&self) -> Map<u64, u64> {
        self.model@
    }

    fn map_one_page(&mut self, virt: u64, phys: u64) -> (r: Result<(), CoreError>) {
        proof {
            lemma_page_size_pow2();
        }
        let vpage = align_down(virt, PAGE_SIZE);
        let pframe = align_down(phys, PAGE_SIZE);
        let n = self.entries.len();
        let mut i: usize = 0;
        while i < n
            invariant
                n == self.entries@.len(),
                i <= n,
                self.spec_wf(),
                *self == *old(self),
                vpage == page_of(virt),
                pframe == page_of(phys),
                forall|j: int| 0 <= j < i ==> (#[trigger] self.entries@[j]).0 != vpage,
            decreases n - i,
        {
            if self.entries[i].0 == vpage {
                proof {
                    assert(self.model@.dom().contains(self.entries@[i as int].0));
                }
                return Err(CoreError::Conflict);
            }
            i = i + 1;
        }
        proof {
            assert(!self.model@.dom().contains(vpage)) by {
                if self.model@.dom().contains(vpage) {
                    let j = choose|j: int|
                        0 <= j < self.entries@.len() && (#[trigger] self.entries@[j]).0 == vpage;
                    assert(self.entries@[j].0 != vpage);
                }
            }
        }
        let ghost prev = *self;
        self.entries.push((vpage, pframe));
        proof {
            self.model@ = self.model@.insert(vpage, pframe);
            assert(self.entries@ == prev.entries@.push((vpage, pframe)));
            assert forall|k: u64| self.model@.dom().contains(k) implies exists|i: int|
                0 <= i < self.entries@.len() && (#[trigger] self.entries@[i]).0 == k by {
                if k == vpage {
                    assert(self.entries@[self.entries@.len() - 1].0 == k);
                } else {
                    let j = choose|j: int|
                        0 <= j < prev.entries@.len() && (#[trigger] prev.entries@[j]).0 == k;
                    assert(self.entries@[j].0 == k);
                }
            }
        }
        Ok(())
    }
}

} // verus!
