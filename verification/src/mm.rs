//! The memory-manager facade: couples the physical-frame allocator, the
//! virtual-range allocator and the page-table mapper, and builds the kernel
//! heap at boot.

use vstd::prelude::*;

use crate::align::{
    align_down, align_up, lemma_align_down_properties, lemma_align_up_properties,
    lemma_aligned_is_fixed_point, lemma_multiple_of_product, lemma_positive_multiple_at_least,
    lemma_sum_of_multiples, spec_align_down, spec_align_up,
};
use crate::paging::{
    Mapping, PageSize, PageTable, PageTableEntryFlags, BASE_PAGE_SIZE, HUGE_PAGE_SIZE,
    LARGE_PAGE_SIZE, PAGE_ACCESSED, PAGE_NO_EXECUTE, PAGE_PRESENT, PAGE_WRITABLE,
};
use crate::physicalmem::PhysicalMemory;
use crate::virtualmem::VirtualMemory;

verus! {

/// A runtime allocation request could not be served.
#[derive(Clone, Copy, Debug, PartialEq, Eq, Structural)]
pub enum AllocError {
    OutOfMemory,
}

/// Boot-time initialisation of the memory manager failed; the kernel cannot
/// continue.
#[derive(Clone, Copy, Debug, PartialEq, Eq, Structural)]
pub enum InitError {
    InsufficientMemory,
}

/// The kernel's memory substrate: free physical frames, free virtual ranges,
/// the installed page-table mappings, and the image and heap bounds.
pub struct MemoryManager {
    pub physical: PhysicalMemory,
    pub virtual_memory: VirtualMemory,
    pub page_table: PageTable,
    pub kernel_start: usize,
    pub kernel_end: usize,
    pub heap_start: usize,
    pub heap_end: usize,
}

/// The number of bytes an allocation request for `sz` bytes actually
/// reserves: whole base pages, at least one.
pub open spec fn spec_allocation_size(sz: int) -> int {
    if sz == 0 {
        BASE_PAGE_SIZE as int
    } else {
        spec_align_up(sz, BASE_PAGE_SIZE as int)
    }
}

/// The page-table entry bits a heap or allocation mapping is installed with.
pub open spec fn spec_allocation_flags(execute_disable: bool) -> u64 {
    if execute_disable {
        PAGE_PRESENT | PAGE_ACCESSED | PAGE_WRITABLE | PAGE_NO_EXECUTE
    } else {
        PAGE_PRESENT | PAGE_ACCESSED | PAGE_WRITABLE
    }
}

impl MemoryManager {
    /// The three components are well formed.
    pub open spec fn wf(self) -> bool {
        &&& self.physical.wf()
        &&& self.virtual_memory.wf()
        &&& self.page_table.wf()
    }

    /// All fields except the allocators and the page table are unchanged.
    pub open spec fn bounds_unchanged(self, other: MemoryManager) -> bool {
        &&& self.kernel_start == other.kernel_start
        &&& self.kernel_end == other.kernel_end
        &&& self.heap_start == other.heap_start
        &&& self.heap_end == other.heap_end
    }

    /// Start of the 2 MiB-aligned region holding the kernel image.
    pub fn kernel_start_address(&self) -> (r: usize)
        ensures
            r == self.kernel_start,
    {
        self.kernel_start
    }

    /// First byte after the 2 MiB-aligned region holding the kernel image.
    pub fn kernel_end_address(&self) -> (r: usize)
        ensures
            r == self.kernel_end,
    {
        self.kernel_end
    }

    /// Start of the kernel heap.
    pub fn task_heap_start(&self) -> (r: usize)
        ensures
            r == self.heap_start,
    {
        self.heap_start
    }

    /// End of the mapped part of the kernel heap.
    pub fn task_heap_end(&self) -> (r: usize)
        ensures
            r == self.heap_end,
    {
        self.heap_end
    }

    /// Reserves a page-rounded extent of physical memory and an equally
    /// large virtual range, maps the one onto the other with ordinary
    /// writable kernel flags (plus execute-disable on request), and returns
    /// the virtual base.
    pub fn allocate(&mut self, sz: usize, execute_disable: bool) -> (r: Result<usize, AllocError>)
        requires
            old(self).wf(),
            sz <= usize::MAX - BASE_PAGE_SIZE + 1,
        ensures
            final(self).wf(),
            final(self).bounds_unchanged(*old(self)),
            final(self).physical.total == old(self).physical.total,
            final(self).virtual_memory.end == old(self).virtual_memory.end,
            match r {
                Ok(v) => {
                    let size = spec_allocation_size(sz as int);
                    &&& (v as int) % (BASE_PAGE_SIZE as int) == 0
                    &&& v + size <= usize::MAX
                    &&& forall|a: int| v <= a < v + size ==> old(self).virtual_memory.is_free(a)
                    &&& forall|a: int|
                        final(self).virtual_memory.is_free(a) <==> (
                        old(self).virtual_memory.is_free(a) && !(v <= a < v + size))
                    &&& exists|p: int|
                        {
                            &&& #[trigger] spec_align_down(p, BASE_PAGE_SIZE as int) == p
                            &&& p + size <= usize::MAX
                            &&& forall|a: int| p <= a < p + size ==> old(self).physical.is_free(a)
                            &&& forall|a: int|
                                final(self).physical.is_free(a) <==> (old(self).physical.is_free(a)
                                    && !(p <= a < p + size))
                            &&& forall|i: int|
                                0 <= i < size / (BASE_PAGE_SIZE as int)
                                    ==> #[trigger] final(self).page_table.maps_run_page(
                                    PageSize::Base,
                                    v as int,
                                    p,
                                    spec_allocation_flags(execute_disable),
                                    i,
                                )
                        }
                    &&& forall|mp: Mapping|
                        !(mp.size == PageSize::Base && v <= mp.virt < v + size)
                            ==> (final(self).page_table.maps(mp) <==> old(self).page_table.maps(mp))
                    &&& forall|a: int| v <= a < v + size ==> final(self).page_table.covers(a)
                    &&& forall|a: int|
                        old(self).page_table.covers(a) ==> final(self).page_table.covers(a)
                    &&& exists|i: int|
                        {
                            &&& 0 <= i < old(self).virtual_memory.list.regions.len()
                            &&& old(self).virtual_memory.list.extent_fits_aligned(
                                i,
                                size,
                                BASE_PAGE_SIZE as int,
                            )
                            &&& v == spec_align_up(
                                (#[trigger] old(self).virtual_memory.list.regions[i]).start as int,
                                BASE_PAGE_SIZE as int,
                            )
                            &&& forall|j: int|
                                0 <= j < i ==> !old(self).virtual_memory.list.extent_fits_aligned(
                                    j,
                                    size,
                                    BASE_PAGE_SIZE as int,
                                )
                        }
                },
                Err(e) => {
                    &&& e == AllocError::OutOfMemory
                    &&& final(self).page_table == old(self).page_table
                    &&& forall|a: int|
                        final(self).physical.is_free(a) <==> old(self).physical.is_free(a)
                    &&& forall|a: int|
                        final(self).virtual_memory.is_free(a) <==> old(
                            self,
                        ).virtual_memory.is_free(a)
                    &&& {
                        let size = spec_allocation_size(sz as int);
                        ||| forall|i: int|
                            0 <= i < old(self).physical.list.regions.len()
                                ==> !old(self).physical.list.extent_fits_aligned(
                                i,
                                size,
                                BASE_PAGE_SIZE as int,
                            )
                        ||| forall|i: int|
                            0 <= i < old(self).virtual_memory.list.regions.len()
                                ==> !old(self).virtual_memory.list.extent_fits_aligned(
                                i,
                                size,
                                BASE_PAGE_SIZE as int,
                            )
                    }
                    &&& {
                        let size = spec_allocation_size(sz as int);
                        ||| forall|i: int|
                            0 <= i < final(self).physical.list.regions.len()
                                ==> !final(self).physical.list.extent_fits_aligned(
                                i,
                                size,
                                BASE_PAGE_SIZE as int,
                            )
                        ||| forall|i: int|
                            0 <= i < final(self).virtual_memory.list.regions.len()
                                ==> !final(self).virtual_memory.list.extent_fits_aligned(
                                i,
                                size,
                                BASE_PAGE_SIZE as int,
                            )
                    }
                },
            },
    {
        let size = if sz == 0 {
            BASE_PAGE_SIZE
        } else {
            align_up(sz, BASE_PAGE_SIZE)
        };
        proof {
            if sz > 0 {
                lemma_align_up_properties(sz as int, BASE_PAGE_SIZE as int);
            }
            lemma_aligned_is_fixed_point(size as int, BASE_PAGE_SIZE as int);
        }
        let physical_address = match self.physical.allocate(size) {
            Ok(p) => p,
            Err(_) => {
                return Err(AllocError::OutOfMemory);
            },
        };
        let virtual_address = match self.virtual_memory.allocate(size) {
            Ok(v) => v,
            Err(_) => {
                self.physical.deallocate(physical_address, size);
                return Err(AllocError::OutOfMemory);
            },
        };
        let count = size / BASE_PAGE_SIZE;
        let flags = if execute_disable {
            PageTableEntryFlags::empty().normal().writable().execute_disable()
        } else {
            PageTableEntryFlags::empty().normal().writable()
        };
        proof {
            vstd::arithmetic::div_mod::lemma_fundamental_div_mod(
                size as int,
                BASE_PAGE_SIZE as int,
            );
            assert(count * (BASE_PAGE_SIZE as int) == size as int);
            assert((0u64 | 1u64 | 32u64 | 2u64) == (1u64 | 32u64 | 2u64)) by (bit_vector);
            assert(((0u64 | 1u64 | 32u64 | 2u64) | 0x8000000000000000u64) == (1u64 | 32u64 | 2u64
                | 0x8000000000000000u64)) by (bit_vector);
            assert(flags.bits == spec_allocation_flags(execute_disable));
        }
        self.page_table.map(PageSize::Base, virtual_address, physical_address, count, flags);
        proof {
            let p = physical_address as int;
            assert(spec_align_down(p, BASE_PAGE_SIZE as int) == p) by {
                lemma_aligned_is_fixed_point(p, BASE_PAGE_SIZE as int);
            }
            assert(((1u64 | 32u64 | 2u64) | 0u64) == (1u64 | 32u64 | 2u64)) by (bit_vector);
            assert(((1u64 | 32u64 | 2u64 | 0x8000000000000000u64) | 0u64) == (1u64 | 32u64 | 2u64
                | 0x8000000000000000u64)) by (bit_vector);
            assert(spec_allocation_flags(execute_disable) == flags.bits
                | PageSize::Base.spec_map_extra_flag());
        }
        Ok(virtual_address)
    }

    /// Reserves and maps an extent for device memory; identical to an
    /// execute-disabled allocation, kept as its own entry point for a
    /// future cacheability-flag specialisation.
    pub fn allocate_iomem(&mut self, sz: usize) -> (r: Result<usize, AllocError>)
        requires
            old(self).wf(),
            sz <= usize::MAX - BASE_PAGE_SIZE + 1,
        ensures
            final(self).wf(),
            final(self).bounds_unchanged(*old(self)),
            final(self).physical.total == old(self).physical.total,
            final(self).virtual_memory.end == old(self).virtual_memory.end,
            match r {
                Ok(v) => {
                    let size = spec_allocation_size(sz as int);
                    &&& (v as int) % (BASE_PAGE_SIZE as int) == 0
                    &&& v + size <= usize::MAX
                    &&& forall|a: int| v <= a < v + size ==> old(self).virtual_memory.is_free(a)
                    &&& forall|a: int|
                        final(self).virtual_memory.is_free(a) <==> (
                        old(self).virtual_memory.is_free(a) && !(v <= a < v + size))
                    &&& exists|p: int|
                        {
                            &&& #[trigger] spec_align_down(p, BASE_PAGE_SIZE as int) == p
                            &&& p + size <= usize::MAX
                            &&& forall|a: int| p <= a < p + size ==> old(self).physical.is_free(a)
                            &&& forall|a: int|
                                final(self).physical.is_free(a) <==> (old(self).physical.is_free(a)
                                    && !(p <= a < p + size))
                            &&& forall|i: int|
                                0 <= i < size / (BASE_PAGE_SIZE as int)
                                    ==> #[trigger] final(self).page_table.maps_run_page(
                                    PageSize::Base,
                                    v as int,
                                    p,
                                    spec_allocation_flags(true),
                                    i,
                                )
                        }
                    &&& forall|mp: Mapping|
                        !(mp.size == PageSize::Base && v <= mp.virt < v + size)
                            ==> (final(self).page_table.maps(mp) <==> old(self).page_table.maps(mp))
                    &&& forall|a: int| v <= a < v + size ==> final(self).page_table.covers(a)
                    &&& forall|a: int|
                        old(self).page_table.covers(a) ==> final(self).page_table.covers(a)
                    &&& exists|i: int|
                        {
                            &&& 0 <= i < old(self).virtual_memory.list.regions.len()
                            &&& old(self).virtual_memory.list.extent_fits_aligned(
                                i,
                                size,
                                BASE_PAGE_SIZE as int,
                            )
                            &&& v == spec_align_up(
                                (#[trigger] old(self).virtual_memory.list.regions[i]).start as int,
                                BASE_PAGE_SIZE as int,
                            )
                            &&& forall|j: int|
                                0 <= j < i ==> !old(self).virtual_memory.list.extent_fits_aligned(
                                    j,
                                    size,
                                    BASE_PAGE_SIZE as int,
                                )
                        }
                },
                Err(e) => {
                    &&& e == AllocError::OutOfMemory
                    &&& final(self).page_table == old(self).page_table
                    &&& forall|a: int|
                        final(self).physical.is_free(a) <==> old(self).physical.is_free(a)
                    &&& forall|a: int|
                        final(self).virtual_memory.is_free(a) <==> old(
                            self,
                        ).virtual_memory.is_free(a)
                    &&& {
                        let size = spec_allocation_size(sz as int);
                        ||| forall|i: int|
                            0 <= i < old(self).physical.list.regions.len()
                                ==> !old(self).physical.list.extent_fits_aligned(
                                i,
                                size,
                                BASE_PAGE_SIZE as int,
                            )
                        ||| forall|i: int|
                            0 <= i < old(self).virtual_memory.list.regions.len()
                                ==> !old(self).virtual_memory.list.extent_fits_aligned(
                                i,
                                size,
                                BASE_PAGE_SIZE as int,
                            )
                    }
                },
            },
    {
        self.allocate(sz, true)
    }

    /// Returns the extent at `virtual_address` to the virtual pool and the
    /// physical extent its first page-table entry points at to the physical
    /// pool. The extent must have been produced by `allocate` and not
    /// deallocated since; a mismatched address is a kernel bug.
    pub fn deallocate(&mut self, virtual_address: usize, sz: usize)
        requires
            old(self).wf(),
            0 < sz <= usize::MAX - BASE_PAGE_SIZE + 1,
            (virtual_address as int) % (BASE_PAGE_SIZE as int) == 0,
            virtual_address + spec_align_up(sz as int, BASE_PAGE_SIZE as int) <= usize::MAX,
            exists|mp: Mapping|
                #[trigger] old(self).page_table.maps(mp) && mp.size == PageSize::Base && mp.virt
                    == virtual_address,
            forall|mp: Mapping|
                (#[trigger] old(self).page_table.maps(mp) && mp.size == PageSize::Base && mp.virt
                    == virtual_address) ==> {
                    &&& mp.phys + spec_align_up(sz as int, BASE_PAGE_SIZE as int) <= usize::MAX
                    &&& forall|a: int|
                        mp.phys <= a < mp.phys + spec_align_up(sz as int, BASE_PAGE_SIZE as int)
                            ==> !old(self).physical.is_free(a)
                },
            forall|a: int|
                virtual_address <= a < virtual_address + spec_align_up(
                    sz as int,
                    BASE_PAGE_SIZE as int,
                ) ==> !old(self).virtual_memory.is_free(a),
        ensures
            final(self).wf(),
            final(self).bounds_unchanged(*old(self)),
            final(self).page_table == old(self).page_table,
            final(self).physical.total == old(self).physical.total,
            final(self).virtual_memory.end == old(self).virtual_memory.end,
            forall|a: int|
                final(self).virtual_memory.is_free(a) <==> (old(self).virtual_memory.is_free(a)
                    || (virtual_address <= a < virtual_address + spec_align_up(
                    sz as int,
                    BASE_PAGE_SIZE as int,
                ))),
            forall|mp: Mapping|
                (#[trigger] old(self).page_table.maps(mp) && mp.size == PageSize::Base && mp.virt
                    == virtual_address) ==> forall|a: int|
                    final(self).physical.is_free(a) <==> (old(self).physical.is_free(a) || (mp.phys
                        <= a < mp.phys + spec_align_up(sz as int, BASE_PAGE_SIZE as int))),
    {
        let size = align_up(sz, BASE_PAGE_SIZE);
        proof {
            lemma_align_up_properties(sz as int, BASE_PAGE_SIZE as int);
            lemma_aligned_is_fixed_point(virtual_address as int, BASE_PAGE_SIZE as int);
        }
        let entry_opt = self.page_table.get_page_table_entry(PageSize::Base, virtual_address);
        match entry_opt {
            Some(entry) => {
                let ghost witness = Mapping {
                    size: PageSize::Base,
                    virt: virtual_address,
                    phys: entry.physical_address,
                    flags: entry.flags,
                };
                proof {
                    assert(old(self).page_table.maps(witness));
                }
                self.virtual_memory.deallocate(virtual_address, size);
                let phys = entry.address();
                self.physical.deallocate(phys, size);
                proof {
                    assert forall|mp: Mapping|
                        (#[trigger] old(self).page_table.maps(mp) && mp.size == PageSize::Base
                            && mp.virt == virtual_address) implies forall|a: int|
                        final(self).physical.is_free(a) <==> (old(self).physical.is_free(a) || (
                        mp.phys <= a < mp.phys + spec_align_up(
                            sz as int,
                            BASE_PAGE_SIZE as int,
                        ))) by {
                        old(self).page_table.lemma_maps_functional(mp, witness);
                    }
                }
            },
            None => {
                proof {
                    let mp = choose|mp: Mapping|
                        #[trigger] old(self).page_table.maps(mp) && mp.size == PageSize::Base
                            && mp.virt == virtual_address;
                    assert(false);
                }
            },
        }
    }

    /// Maps as much of `[virt_addr, virt_addr + size)` as whole pages of the
    /// given granularity allow, taking each physical page from the frame
    /// allocator, and returns how many bytes were mapped. Stops short when
    /// no aligned physical page is left.
    #[verifier::loop_isolation(false)]
    #[verifier::rlimit(60)]
    fn map_heap(&mut self, virt_addr: usize, size: usize, page_size: PageSize) -> (mapped: usize)
        requires
            old(self).wf(),
            (virt_addr as int) % page_size.spec_size() == 0,
            virt_addr + size <= usize::MAX,
        ensures
            final(self).wf(),
            mapped <= spec_align_down(size as int, page_size.spec_size()),
            (mapped as int) % page_size.spec_size() == 0,
            mapped < spec_align_down(size as int, page_size.spec_size()) ==> forall|i: int|
                0 <= i < final(self).physical.list.regions.len()
                    ==> !final(self).physical.list.extent_fits_aligned(
                    i,
                    page_size.spec_size(),
                    page_size.spec_size(),
                ),
            mapped == 0 ==> *final(self) == *old(self),
            forall|a: int|
                virt_addr <= a < virt_addr + mapped ==> final(self).page_table.covers(a),
            forall|a: int| old(self).page_table.covers(a) ==> final(self).page_table.covers(a),
            forall|a: int| final(self).physical.is_free(a) ==> old(self).physical.is_free(a),
            final(self).virtual_memory == old(self).virtual_memory,
            final(self).physical.total == old(self).physical.total,
            final(self).bounds_unchanged(*old(self)),
    {
        let page = page_size.size();
        let limit = align_down(size, page);
        proof {
            lemma_align_down_properties(size as int, page as int);
            vstd::arithmetic::div_mod::lemma_mod_multiples_basic(0, page as int);
        }
        let flags = PageTableEntryFlags::empty().normal().writable().execute_disable();
        let mut i: usize = 0;
        while i < limit
            invariant
                self.wf(),
                i <= limit,
                (i as int) % (page as int) == 0,
                i == 0 ==> *self == *old(self),
                forall|a: int| virt_addr <= a < virt_addr + i ==> self.page_table.covers(a),
                forall|a: int| old(self).page_table.covers(a) ==> self.page_table.covers(a),
                forall|a: int| self.physical.is_free(a) ==> old(self).physical.is_free(a),
                self.virtual_memory == old(self).virtual_memory,
                self.physical.total == old(self).physical.total,
                self.bounds_unchanged(*old(self)),
            decreases limit - i,
        {
            proof {
                lemma_mod_sub(limit as int, i as int, page as int);
                lemma_positive_multiple_at_least(limit - i, page as int);
            }
            match self.physical.allocate_aligned(page, page) {
                Ok(phys_addr) => {
                    let ghost prev = *self;
                    proof {
                        lemma_sum_of_multiples(virt_addr as int, i as int, page as int);
                        lemma_aligned_is_fixed_point((virt_addr + i) as int, page as int);
                        lemma_aligned_is_fixed_point(phys_addr as int, page as int);
                    }
                    self.page_table.map(page_size, virt_addr + i, phys_addr, 1, flags);
                    proof {
                        assert forall|a: int|
                            virt_addr <= a < virt_addr + i + page implies self.page_table.covers(
                            a,
                        ) by {
                            if a < virt_addr + i {
                                assert(prev.page_table.covers(a));
                            } else {
                                assert((virt_addr + i) <= a < (virt_addr + i) + 1
                                    * page_size.spec_size());
                            }
                        }
                    }
                    i += page;
                },
                Err(_) => {
                    return i;
                },
            }
        }
        i
    }
}

/// Start of the 2 MiB-aligned region holding the kernel image.
pub open spec fn spec_kernel_start(kernel_addr: int) -> int {
    spec_align_down(kernel_addr, LARGE_PAGE_SIZE as int)
}

/// First byte after the 2 MiB-aligned region holding the kernel image.
pub open spec fn spec_kernel_end(kernel_addr: int, image_size: int) -> int {
    spec_align_up(kernel_addr + image_size, LARGE_PAGE_SIZE as int)
}

/// Number of entries one page of a page table holds: a 4 KiB page of
/// 8-byte entries.
pub const PAGE_TABLE_ENTRIES_PER_PAGE: usize = 512;

/// Physical bytes set aside for the page tables that mapping all of memory
/// with base pages could need: three table levels, rounded up, plus one
/// large page.
pub open spec fn spec_reserved_space(total_memory: int) -> int {
    let npages = total_memory / (BASE_PAGE_SIZE as int);
    let npage_3tables = npages / 512 + 1;
    let npage_2tables = npage_3tables / 512 + 1;
    let npage_1tables = npage_2tables / 512 + 1;
    (npage_3tables + npage_2tables + npage_1tables) * (BASE_PAGE_SIZE as int) + (
    LARGE_PAGE_SIZE as int)
}

/// Virtual size of the heap region: what remains of memory after the image
/// and the page-table reserve, in whole large pages.
pub open spec fn spec_heap_virt_size(total_memory: int, kernel_end: int) -> int {
    spec_align_down(
        total_memory - kernel_end - spec_reserved_space(total_memory),
        LARGE_PAGE_SIZE as int,
    )
}

/// Virtual bytes reserved for the heap: its size rounded up to whole
/// pages of the chosen granule.
pub open spec fn spec_heap_reservation(has_1gib_pages: bool, virt_size: int) -> int {
    if has_1gib_pages && virt_size > HUGE_PAGE_SIZE as int {
        spec_align_up(virt_size, HUGE_PAGE_SIZE as int)
    } else {
        virt_size
    }
}

/// The heap base is aligned to a 1 GiB page when such pages are supported
/// and the heap is big enough to hold one, else to a 2 MiB page.
pub open spec fn spec_heap_granule(has_1gib_pages: bool, virt_size: int) -> int {
    if has_1gib_pages && virt_size > HUGE_PAGE_SIZE as int {
        HUGE_PAGE_SIZE as int
    } else {
        LARGE_PAGE_SIZE as int
    }
}

impl MemoryManager {
    /// Computes the page-table reserve, or nothing when it does not fit the
    /// address space.
    fn reserved_page_table_space(total_memory: usize) -> (r: Option<usize>)
        ensures
            match r {
                Some(x) => x == spec_reserved_space(total_memory as int),
                None => spec_reserved_space(total_memory as int) > usize::MAX,
            },
    {
        let npages = total_memory / BASE_PAGE_SIZE;
        let entries_per_table = PAGE_TABLE_ENTRIES_PER_PAGE;
        let ghost n3 = npages as int / 512 + 1;
        let ghost n2 = n3 / 512 + 1;
        let ghost n1 = n2 / 512 + 1;
        proof {
            vstd::arithmetic::div_mod::lemma_div_pos_is_pos(npages as int, 512);
            vstd::arithmetic::div_mod::lemma_div_pos_is_pos(n3, 512);
            vstd::arithmetic::div_mod::lemma_div_pos_is_pos(n2, 512);
            assert((n3 + n2 + n1) * (BASE_PAGE_SIZE as int) >= n3 + n2 + n1) by (nonlinear_arith)
                requires
                    n3 + n2 + n1 >= 0,
            ;
        }
        let npage_3tables = match (npages / entries_per_table).checked_add(1) {
            Some(x) => x,
            None => {
                proof {
                    assert(n3 > usize::MAX);
                }
                return None;
            },
        };
        let npage_2tables = match (npage_3tables / entries_per_table).checked_add(1) {
            Some(x) => x,
            None => {
                proof {
                    assert(n2 > usize::MAX);
                }
                return None;
            },
        };
        let npage_1tables = match (npage_2tables / entries_per_table).checked_add(1) {
            Some(x) => x,
            None => {
                proof {
                    assert(n1 > usize::MAX);
                }
                return None;
            },
        };
        let partial = match npage_3tables.checked_add(npage_2tables) {
            Some(x) => x,
            None => {
                return None;
            },
        };
        let sum = match partial.checked_add(npage_1tables) {
            Some(x) => x,
            None => {
                return None;
            },
        };
        let scaled = match sum.checked_mul(BASE_PAGE_SIZE) {
            Some(x) => x,
            None => {
                return None;
            },
        };
        scaled.checked_add(LARGE_PAGE_SIZE)
    }

    /// Builds the memory substrate at boot: rounds the kernel image to large
    /// pages, sets up the three components, reserves worst-case page-table
    /// space, and maps the kernel heap, a first chunk in the largest possible
    /// granule and the remainder in whatever granules fit. Fails exactly when
    /// physical memory cannot hold the image, the reserve and one large page.
    #[verifier::rlimit(100)]
    pub fn init(
        kernel_addr: usize,
        image_size: usize,
        total_memory: usize,
        virtual_end: usize,
        has_1gib_pages: bool,
    ) -> (r: Result<MemoryManager, InitError>)
        requires
            kernel_addr + image_size + LARGE_PAGE_SIZE <= usize::MAX,
            virtual_end >= spec_kernel_end(kernel_addr as int, image_size as int) + total_memory
                + 2 * HUGE_PAGE_SIZE,
        ensures
            ({
                let kend = spec_kernel_end(kernel_addr as int, image_size as int);
                let reserved = spec_reserved_space(total_memory as int);
                let virt_size = spec_heap_virt_size(total_memory as int, kend);
                &&& (r is Err <==> (total_memory as int) < kend + reserved
                    + LARGE_PAGE_SIZE as int)
                &&& match r {
                    Ok(mm) => {
                        &&& mm.wf()
                        &&& mm.kernel_start == spec_kernel_start(kernel_addr as int)
                        &&& mm.kernel_end == kend
                        &&& mm.physical.total == total_memory
                        &&& mm.virtual_memory.end == virtual_end
                        &&& kend <= mm.heap_start
                        &&& mm.heap_start == spec_align_up(
                            kend,
                            spec_heap_granule(has_1gib_pages, virt_size),
                        )
                        &&& (mm.heap_start as int) % spec_heap_granule(has_1gib_pages, virt_size)
                            == 0
                        &&& mm.heap_start <= mm.heap_end
                        &&& mm.heap_end - mm.heap_start >= LARGE_PAGE_SIZE
                        &&& (mm.heap_end - mm.heap_start) % (LARGE_PAGE_SIZE as int) == 0
                        &&& mm.heap_end - mm.heap_start <= virt_size
                        &&& forall|a: int|
                            mm.heap_start <= a < mm.heap_end ==> mm.page_table.covers(a)
                        &&& forall|a: int|
                            mm.virtual_memory.is_free(a) <==> (kend <= a < virtual_end && !(
                            mm.heap_start <= a < mm.heap_start + spec_heap_reservation(
                                has_1gib_pages,
                                virt_size,
                            )))
                        &&& forall|a: int| mm.physical.is_free(a) ==> kend <= a < total_memory
                    },
                    Err(e) => e == InitError::InsufficientMemory,
                }
            }),
    {
        let kernel_start = align_down(kernel_addr, LARGE_PAGE_SIZE);
        let kernel_end = align_up(kernel_addr + image_size, LARGE_PAGE_SIZE);
        let ghost kend = kernel_end as int;
        let ghost reserved_int = spec_reserved_space(total_memory as int);

        proof {
            lemma_align_up_properties(
                kernel_addr as int + image_size as int,
                LARGE_PAGE_SIZE as int,
            );
        }
        let reserved_space = match Self::reserved_page_table_space(total_memory) {
            Some(x) => x,
            None => {
                return Err(InitError::InsufficientMemory);
            },
        };
        let partial_limit = match kernel_end.checked_add(reserved_space) {
            Some(x) => x,
            None => {
                return Err(InitError::InsufficientMemory);
            },
        };
        let limit = match partial_limit.checked_add(LARGE_PAGE_SIZE) {
            Some(x) => x,
            None => {
                return Err(InitError::InsufficientMemory);
            },
        };
        if total_memory < limit {
            return Err(InitError::InsufficientMemory);
        }

        let physical = PhysicalMemory::init(kernel_end, total_memory);
        let virtual_memory = VirtualMemory::init(kernel_end, virtual_end);
        let page_table = PageTable::new();
        let mut mm = MemoryManager {
            physical,
            virtual_memory,
            page_table,
            kernel_start,
            kernel_end,
            heap_start: 0,
            heap_end: 0,
        };

        let virt_size = align_down(total_memory - kernel_end - reserved_space, LARGE_PAGE_SIZE);
        proof {
            lemma_align_down_properties(
                total_memory as int - kend - reserved_int,
                LARGE_PAGE_SIZE as int,
            );
            lemma_positive_multiple_at_least(virt_size as int, LARGE_PAGE_SIZE as int);
        }

        let use_huge = has_1gib_pages && virt_size > HUGE_PAGE_SIZE;
        let request = if use_huge {
            align_up(virt_size, HUGE_PAGE_SIZE)
        } else {
            virt_size
        };
        let request_align = if use_huge {
            HUGE_PAGE_SIZE
        } else {
            LARGE_PAGE_SIZE
        };
        proof {
            if use_huge {
                lemma_align_up_properties(virt_size as int, HUGE_PAGE_SIZE as int);
            }
            lemma_align_up_properties(kend, request_align as int);
            assert(mm.virtual_memory.list.extent_fits_aligned(
                0,
                request as int,
                request_align as int,
            ));
        }
        let ghost virt_pool = mm.virtual_memory;
        let virt_addr = match mm.virtual_memory.allocate_aligned(request, request_align) {
            Ok(v) => v,
            Err(_) => {
                proof {
                    assert(false);
                }
                return Err(InitError::InsufficientMemory);
            },
        };
        proof {
            assert(virt_pool.is_free(virt_addr as int));
            assert(kend <= virt_addr);
            let i = choose|i: int|
                {
                    &&& 0 <= i < virt_pool.list.regions.len()
                    &&& virt_pool.list.extent_fits_aligned(i, request as int, request_align as int)
                    &&& virt_addr == spec_align_up(
                        (#[trigger] virt_pool.list.regions[i]).start as int,
                        request_align as int,
                    )
                    &&& forall|j: int|
                        0 <= j < i ==> !virt_pool.list.extent_fits_aligned(
                            j,
                            request as int,
                            request_align as int,
                        )
                };
            assert(i == 0);
            assert(virt_addr == spec_align_up(kend, request_align as int));
            if use_huge {
                lemma_multiple_of_product(virt_addr as int, LARGE_PAGE_SIZE as int, 512);
            }
        }

        // Map a first chunk so that the heap allocator can start; the rest is
        // mapped afterwards through the ordinary code paths.
        let mut counter = if use_huge {
            mm.map_heap(virt_addr, HUGE_PAGE_SIZE, PageSize::Huge)
        } else {
            0
        };
        proof {
            if use_huge {
                lemma_aligned_is_fixed_point(HUGE_PAGE_SIZE as int, HUGE_PAGE_SIZE as int);
                lemma_multiple_of_product(counter as int, LARGE_PAGE_SIZE as int, 512);
            }
        }
        if counter == 0 {
            proof {
                lemma_aligned_is_fixed_point(LARGE_PAGE_SIZE as int, LARGE_PAGE_SIZE as int);
                lemma_aligned_is_fixed_point(kend, LARGE_PAGE_SIZE as int);
                // Nothing has been taken from the frame pool yet: it is
                // still the single extent above the image, which hosts at
                // least one aligned large page.
                assert(mm.physical.list.regions.len() == 1);
                assert(mm.physical.list.extent_fits_aligned(
                    0,
                    LARGE_PAGE_SIZE as int,
                    LARGE_PAGE_SIZE as int,
                ));
            }
            let ghost before_fallback = mm;
            counter = mm.map_heap(virt_addr, LARGE_PAGE_SIZE, PageSize::Large);
            proof {
                if counter < LARGE_PAGE_SIZE {
                    assert(counter == 0) by {
                        if counter > 0 {
                            lemma_positive_multiple_at_least(
                                counter as int,
                                LARGE_PAGE_SIZE as int,
                            );
                        }
                    }
                    assert(mm == before_fallback);
                    assert(!mm.physical.list.extent_fits_aligned(
                        0,
                        LARGE_PAGE_SIZE as int,
                        LARGE_PAGE_SIZE as int,
                    ));
                    assert(false);
                }
            }
        }
        proof {
            if counter < LARGE_PAGE_SIZE && counter > 0 {
                lemma_positive_multiple_at_least(counter as int, LARGE_PAGE_SIZE as int);
            }
            assert(counter >= LARGE_PAGE_SIZE);
        }

        mm.heap_start = virt_addr;
        let mut map_addr = virt_addr + counter;
        let mut map_size = virt_size - counter;
        let ghost mut mapped_total = counter as int;

        proof {
            assert(virt_addr + virt_size <= usize::MAX);
            assert((counter as int) % (LARGE_PAGE_SIZE as int) == 0);
            assert((map_addr as int) % (LARGE_PAGE_SIZE as int) == 0) by {
                lemma_sum_of_multiples(virt_addr as int, counter as int, LARGE_PAGE_SIZE as int);
            }
            assert(forall|a: int|
                virt_addr <= a < virt_addr + mapped_total ==> mm.page_table.covers(a));
        }

        if has_1gib_pages && map_size > HUGE_PAGE_SIZE && map_addr % HUGE_PAGE_SIZE == 0 {
            let ghost pre = mm;
            let c = mm.map_heap(map_addr, map_size, PageSize::Huge);
            proof {
                lemma_align_down_properties(map_size as int, HUGE_PAGE_SIZE as int);
                lemma_multiple_of_product(c as int, LARGE_PAGE_SIZE as int, 512);
                assert forall|a: int|
                    virt_addr <= a < virt_addr + mapped_total + c implies mm.page_table.covers(
                    a,
                ) by {
                    if a < virt_addr + mapped_total {
                        assert(pre.page_table.covers(a));
                    }
                }
            }
            map_size -= c;
            map_addr += c;
            proof {
                lemma_sum_of_multiples(map_addr as int - c as int, c as int, LARGE_PAGE_SIZE as int);
                lemma_sum_of_multiples(mapped_total, c as int, LARGE_PAGE_SIZE as int);
                mapped_total = mapped_total + c as int;
            }
        }
        if map_size > LARGE_PAGE_SIZE {
            let ghost pre = mm;
            let c = mm.map_heap(map_addr, map_size, PageSize::Large);
            proof {
                lemma_align_down_properties(map_size as int, LARGE_PAGE_SIZE as int);
                assert forall|a: int|
                    virt_addr <= a < virt_addr + mapped_total + c implies mm.page_table.covers(
                    a,
                ) by {
                    if a < virt_addr + mapped_total {
                        assert(pre.page_table.covers(a));
                    }
                }
            }
            map_size -= c;
            map_addr += c;
            proof {
                lemma_sum_of_multiples(mapped_total, c as int, LARGE_PAGE_SIZE as int);
                mapped_total = mapped_total + c as int;
            }
        }

        mm.heap_end = map_addr;
        proof {
            assert(mm.heap_end - mm.heap_start == mapped_total);
            assert(mapped_total % (LARGE_PAGE_SIZE as int) == 0);
            assert(mapped_total <= virt_size);
            assert((mm.heap_start as int) % spec_heap_granule(has_1gib_pages, virt_size as int)
                == 0);
            assert(forall|a: int|
                mm.heap_start <= a < mm.heap_end ==> mm.page_table.covers(a));
            assert(request == spec_heap_reservation(has_1gib_pages, virt_size as int));
            assert forall|a: int|
                mm.virtual_memory.is_free(a) <==> (kend <= a < virtual_end && !(mm.heap_start <= a
                    < mm.heap_start + spec_heap_reservation(has_1gib_pages, virt_size as int))) by {
                assert(virt_pool.is_free(a) <==> kend <= a < virtual_end);
            }
            assert forall|a: int| mm.physical.is_free(a) implies kend <= a
                < total_memory by {
            }
        }
        Ok(mm)
    }
}

/// Law: an allocation request for zero bytes still reserves one whole base
/// page.
pub proof fn lemma_zero_size_allocation_rounds_to_page()
    ensures
        spec_allocation_size(0) == BASE_PAGE_SIZE as int,
{
}

/// Law: virtual extents handed out by `allocate` are disjoint while both
/// are live, so every returned base is distinct. The first extent is out of
/// the free pool from its allocation until its deallocation; the second was
/// taken from the free pool of that same moment.
pub proof fn lemma_live_extents_disjoint(
    s: VirtualMemory,
    v1: int,
    n1: int,
    v2: int,
    n2: int,
)
    requires
        n1 > 0,
        n2 > 0,
        forall|a: int| v1 <= a < v1 + n1 ==> !s.is_free(a),
        forall|a: int| v2 <= a < v2 + n2 ==> s.is_free(a),
    ensures
        v1 + n1 <= v2 || v2 + n2 <= v1,
        v1 != v2,
{
    if !(v1 + n1 <= v2 || v2 + n2 <= v1) {
        let a = if v1 <= v2 {
            v2
        } else {
            v1
        };
        assert(v1 <= a < v1 + n1);
        assert(v2 <= a < v2 + n2);
        assert(!s.is_free(a));
        assert(s.is_free(a));
        assert(false);
    }
}

/// Law: deallocating an extent straight after allocating it returns both
/// the virtual and the physical extent to the pools; the free sets are the
/// ones from before the allocation.
pub proof fn lemma_allocate_deallocate_round_trip(
    pre: MemoryManager,
    mid: MemoryManager,
    post: MemoryManager,
    v: int,
    p: int,
    size: int,
)
    requires
        forall|a: int| v <= a < v + size ==> pre.virtual_memory.is_free(a),
        forall|a: int|
            mid.virtual_memory.is_free(a) <==> (pre.virtual_memory.is_free(a) && !(v <= a < v
                + size)),
        forall|a: int| p <= a < p + size ==> pre.physical.is_free(a),
        forall|a: int|
            mid.physical.is_free(a) <==> (pre.physical.is_free(a) && !(p <= a < p + size)),
        forall|a: int|
            post.virtual_memory.is_free(a) <==> (mid.virtual_memory.is_free(a) || (v <= a < v
                + size)),
        forall|a: int|
            post.physical.is_free(a) <==> (mid.physical.is_free(a) || (p <= a < p + size)),
    ensures
        forall|a: int|
            post.virtual_memory.is_free(a) <==> pre.virtual_memory.is_free(a),
        forall|a: int| post.physical.is_free(a) <==> pre.physical.is_free(a),
{
    assert forall|a: int|
        post.virtual_memory.is_free(a) <==> pre.virtual_memory.is_free(a) by {
        assert(mid.virtual_memory.is_free(a) <==> (pre.virtual_memory.is_free(a) && !(v <= a < v
            + size)));
    }
    assert forall|a: int| post.physical.is_free(a) <==> pre.physical.is_free(a) by {
        assert(mid.physical.is_free(a) <==> (pre.physical.is_free(a) && !(p <= a < p + size)));
    }
}

/// The difference of two multiples of `page` is a multiple of `page`.
proof fn lemma_mod_sub(limit: int, i: int, page: int)
    requires
        page > 0,
        limit % page == 0,
        i % page == 0,
    ensures
        (limit - i) % page == 0,
{
    vstd::arithmetic::div_mod::lemma_fundamental_div_mod(limit, page);
    vstd::arithmetic::div_mod::lemma_fundamental_div_mod(i, page);
    assert(limit - i == (limit / page - i / page) * page) by (nonlinear_arith)
        requires
            limit == page * (limit / page),
            i == page * (i / page),
    ;
    vstd::arithmetic::div_mod::lemma_mod_multiples_basic(limit / page - i / page, page);
}

} // verus!
