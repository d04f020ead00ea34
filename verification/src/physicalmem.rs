//! The physical-frame allocator: an address-ordered free list over the
//! machine's physical memory, serving page-rounded, page-aligned extents.

use vstd::prelude::*;

use crate::align::{spec_align_up, lemma_align_up_properties};
use crate::freelist::FreeList;
use crate::paging::BASE_PAGE_SIZE;

verus! {

/// Free physical frames, plus the machine's total memory size.
pub struct PhysicalMemory {
    pub list: FreeList,
    pub total: usize,
}

impl PhysicalMemory {
    /// The free list is well formed.
    pub open spec fn wf(self) -> bool {
        self.list.wf()
    }

    /// The physical byte `a` is free.
    pub open spec fn is_free(self, a: int) -> bool {
        self.list.is_free(a)
    }

    /// A physical space of `total_memory` bytes in which everything from
    /// `kernel_end` upwards is free; the bytes below it hold the kernel
    /// image and stay reserved.
    pub fn init(kernel_end: usize, total_memory: usize) -> (r: PhysicalMemory)
        requires
            kernel_end < total_memory,
        ensures
            r.wf(),
            forall|a: int| r.is_free(a) <==> kernel_end <= a < total_memory,
            r.total == total_memory,
            r.list.regions.len() == 1,
            r.list.regions[0] == (crate::freelist::FreeExtent { start: kernel_end, end: total_memory }),
    {
        PhysicalMemory { list: FreeList::with_extent(kernel_end, total_memory), total: total_memory }
    }

    /// Total bytes of physical memory in the machine.
    pub fn total_memory_size(&self) -> (r: usize)
        ensures
            r == self.total,
    {
        self.total
    }

    /// Reserves `size` bytes rounded up to whole base pages, at a base-page
    /// aligned address, from the lowest free extent with room.
    pub fn allocate(&mut self, size: usize) -> (r: Result<usize, ()>)
        requires
            old(self).wf(),
            0 < size <= usize::MAX - BASE_PAGE_SIZE + 1,
        ensures
            final(self).wf(),
            final(self).total == old(self).total,
            match r {
                Ok(addr) => {
                    let rounded = spec_align_up(size as int, BASE_PAGE_SIZE as int);
                    &&& addr + rounded <= usize::MAX
                    &&& (addr as int) % (BASE_PAGE_SIZE as int) == 0
                    &&& forall|a: int| addr <= a < addr + rounded ==> old(self).is_free(a)
                    &&& forall|a: int|
                        final(self).is_free(a) <==> (old(self).is_free(a) && !(addr <= a < addr
                            + rounded))
                    &&& exists|i: int|
                        {
                            &&& 0 <= i < old(self).list.regions.len()
                            &&& old(self).list.extent_fits_aligned(
                                i,
                                rounded,
                                BASE_PAGE_SIZE as int,
                            )
                            &&& addr == spec_align_up(
                                (#[trigger] old(self).list.regions[i]).start as int,
                                BASE_PAGE_SIZE as int,
                            )
                            &&& forall|j: int|
                                0 <= j < i ==> !old(self).list.extent_fits_aligned(
                                    j,
                                    rounded,
                                    BASE_PAGE_SIZE as int,
                                )
                        }
                },
                Err(_) => {
                    &&& *final(self) == *old(self)
                    &&& forall|i: int|
                        0 <= i < final(self).list.regions.len()
                            ==> !final(self).list.extent_fits_aligned(
                            i,
                            spec_align_up(size as int, BASE_PAGE_SIZE as int),
                            BASE_PAGE_SIZE as int,
                        )
                },
            },
    {
        let rounded = crate::align::align_up(size, BASE_PAGE_SIZE);
        proof {
            lemma_align_up_properties(size as int, BASE_PAGE_SIZE as int);
        }
        self.list.allocate_aligned(rounded, BASE_PAGE_SIZE)
    }

    /// Reserves `size` bytes at an address that is a multiple of
    /// `alignment`, from the lowest free extent that can host them.
    pub fn allocate_aligned(&mut self, size: usize, alignment: usize) -> (r: Result<usize, ()>)
        requires
            old(self).wf(),
            size > 0,
            alignment > 0,
        ensures
            final(self).wf(),
            final(self).total == old(self).total,
            match r {
                Ok(addr) => {
                    &&& addr + size <= usize::MAX
                    &&& (addr as int) % (alignment as int) == 0
                    &&& forall|a: int| addr <= a < addr + size ==> old(self).is_free(a)
                    &&& forall|a: int|
                        final(self).is_free(a) <==> (old(self).is_free(a) && !(addr <= a < addr
                            + size))
                    &&& exists|i: int|
                        {
                            &&& 0 <= i < old(self).list.regions.len()
                            &&& old(self).list.extent_fits_aligned(i, size as int, alignment as int)
                            &&& addr == spec_align_up(
                                (#[trigger] old(self).list.regions[i]).start as int,
                                alignment as int,
                            )
                            &&& forall|j: int|
                                0 <= j < i ==> !old(self).list.extent_fits_aligned(
                                    j,
                                    size as int,
                                    alignment as int,
                                )
                        }
                },
                Err(_) => {
                    &&& *final(self) == *old(self)
                    &&& forall|i: int|
                        0 <= i < final(self).list.regions.len()
                            ==> !final(self).list.extent_fits_aligned(
                            i,
                            size as int,
                            alignment as int,
                        )
                },
            },
    {
        self.list.allocate_aligned(size, alignment)
    }

    /// Returns the extent `[addr, addr + size)` to the pool.
    pub fn deallocate(&mut self, addr: usize, size: usize)
        requires
            old(self).wf(),
            size > 0,
            addr + size <= usize::MAX,
            forall|a: int| addr <= a < addr + size ==> !old(self).is_free(a),
        ensures
            final(self).wf(),
            final(self).total == old(self).total,
            forall|a: int|
                final(self).is_free(a) <==> (old(self).is_free(a) || (addr <= a < addr + size)),
    {
        proof {
            assert forall|a: int| addr <= a < addr + size implies !old(self).list.is_free(a) by {
                assert(!old(self).is_free(a));
            }
        }
        self.list.deallocate(addr, size);
    }
}

} // verus!
