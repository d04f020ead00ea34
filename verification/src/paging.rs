//! Page-table mappings at the three x86-64 leaf granularities, and the entry
//! flags a mapping is installed with.

use vstd::prelude::*;

use crate::align::{align_down, spec_align_down};

verus! {

/// Size in bytes of a 4 KiB page.
pub const BASE_PAGE_SIZE: usize = 4096;

/// Size in bytes of a 2 MiB page.
pub const LARGE_PAGE_SIZE: usize = 2097152;

/// Size in bytes of a 1 GiB page.
pub const HUGE_PAGE_SIZE: usize = 1073741824;

/// Present bit of a page-table entry.
pub const PAGE_PRESENT: u64 = 1;

/// Writable bit of a page-table entry.
pub const PAGE_WRITABLE: u64 = 2;

/// Accessed bit of a page-table entry.
pub const PAGE_ACCESSED: u64 = 32;

/// Bit marking an entry as a 2 MiB or 1 GiB leaf.
pub const PAGE_HUGE: u64 = 128;

/// Execute-disable bit of a page-table entry; honoured only once the
/// no-execute enable bit of the extended-feature register is set.
pub const PAGE_NO_EXECUTE: u64 = 0x8000000000000000;

/// The granularity at which a virtual range is mapped.
#[derive(Clone, Copy, Debug, PartialEq, Eq, Structural)]
pub enum PageSize {
    /// 4 KiB.
    Base,
    /// 2 MiB.
    Large,
    /// 1 GiB.
    Huge,
}

impl PageSize {
    /// Size of one page of this granularity, in bytes.
    pub open spec fn spec_size(self) -> int {
        match self {
            PageSize::Base => 4096,
            PageSize::Large => 2097152,
            PageSize::Huge => 1073741824,
        }
    }

    /// Size of one page of this granularity, in bytes.
    pub fn size(self) -> (r: usize)
        ensures
            r == self.spec_size(),
    {
        match self {
            PageSize::Base => BASE_PAGE_SIZE,
            PageSize::Large => LARGE_PAGE_SIZE,
            PageSize::Huge => HUGE_PAGE_SIZE,
        }
    }

    /// The extra entry bits this granularity is installed with: 2 MiB and
    /// 1 GiB leaves carry the large-leaf marker.
    pub open spec fn spec_map_extra_flag(self) -> u64 {
        match self {
            PageSize::Base => 0,
            PageSize::Large => 128,
            PageSize::Huge => 128,
        }
    }

    /// The extra entry bits this granularity is installed with.
    pub fn map_extra_flag(self) -> (r: u64)
        ensures
            r == self.spec_map_extra_flag(),
    {
        match self {
            PageSize::Base => 0,
            PageSize::Large => PAGE_HUGE,
            PageSize::Huge => PAGE_HUGE,
        }
    }
}

/// Access flags a mapping is installed with.
#[derive(Clone, Copy, Debug, PartialEq, Eq, Structural)]
pub struct PageTableEntryFlags {
    pub bits: u64,
}

impl PageTableEntryFlags {
    /// No flags set.
    pub fn empty() -> (r: PageTableEntryFlags)
        ensures
            r.bits == 0,
    {
        PageTableEntryFlags { bits: 0 }
    }

    /// Adds the defaults of an ordinary kernel mapping: present and accessed.
    pub fn normal(self) -> (r: PageTableEntryFlags)
        ensures
            r.bits == self.bits | PAGE_PRESENT | PAGE_ACCESSED,
    {
        PageTableEntryFlags { bits: self.bits | PAGE_PRESENT | PAGE_ACCESSED }
    }

    /// Adds the writable bit.
    pub fn writable(self) -> (r: PageTableEntryFlags)
        ensures
            r.bits == self.bits | PAGE_WRITABLE,
    {
        PageTableEntryFlags { bits: self.bits | PAGE_WRITABLE }
    }

    /// Adds the execute-disable bit.
    pub fn execute_disable(self) -> (r: PageTableEntryFlags)
        ensures
            r.bits == self.bits | PAGE_NO_EXECUTE,
    {
        PageTableEntryFlags { bits: self.bits | PAGE_NO_EXECUTE }
    }

    /// All bits of `other` are set in `self`.
    pub open spec fn spec_contains(self, other: PageTableEntryFlags) -> bool {
        self.bits & other.bits == other.bits
    }
}

/// One installed leaf mapping: the page of size `size` at virtual base `virt`
/// maps to physical base `phys` with entry bits `flags`.
#[derive(Clone, Copy, PartialEq, Eq, Structural)]
pub struct Mapping {
    pub size: PageSize,
    pub virt: usize,
    pub phys: usize,
    pub flags: u64,
}

/// A leaf page-table entry, as a lookup returns it.
#[derive(Clone, Copy, PartialEq, Eq, Structural)]
pub struct PageTableEntry {
    pub physical_address: usize,
    pub flags: u64,
}

impl PageTableEntry {
    /// The physical base the entry points at.
    pub fn address(&self) -> (r: usize)
        ensures
            r == self.physical_address,
    {
        self.physical_address
    }
}

/// The set of installed leaf mappings of the kernel's address space.
pub struct PageTable {
    pub mappings: Vec<Mapping>,
}

impl PageTable {
    /// At most one mapping per granularity and virtual base.
    pub open spec fn wf(self) -> bool {
        forall|i: int, j: int|
            0 <= i < j < self.mappings.len() ==> !((#[trigger] self.mappings[i]).virt == (
            #[trigger] self.mappings[j]).virt && self.mappings[i].size == self.mappings[j].size)
    }

    /// The mapping `mp` is installed.
    pub open spec fn maps(self, mp: Mapping) -> bool {
        exists|i: int| 0 <= i < self.mappings.len() && (#[trigger] self.mappings[i]) == mp
    }

    /// Some installed mapping covers the virtual byte `a`.
    pub open spec fn covers(self, a: int) -> bool {
        exists|i: int|
            0 <= i < self.mappings.len() && (#[trigger] self.mappings[i]).virt <= a < (
            #[trigger] self.mappings[i]).virt + self.mappings[i].size.spec_size()
    }

    /// Page `i` of a run of pages of granularity `size` whose first page
    /// maps `virt` to `phys` is installed with flags `flags`.
    pub open spec fn maps_run_page(
        self,
        size: PageSize,
        virt: int,
        phys: int,
        flags: u64,
        i: int,
    ) -> bool {
        self.maps(
            Mapping {
                size,
                virt: (virt + i * size.spec_size()) as usize,
                phys: (phys + i * size.spec_size()) as usize,
                flags,
            },
        )
    }

    /// An empty page table.
    pub fn new() -> (r: PageTable)
        ensures
            r.wf(),
            forall|mp: Mapping| !r.maps(mp),
    {
        PageTable { mappings: Vec::new() }
    }

    /// Installed mappings agree: a granularity and virtual base determine the
    /// physical base and the flags.
    pub proof fn lemma_maps_functional(self, mp1: Mapping, mp2: Mapping)
        requires
            self.wf(),
            self.maps(mp1),
            self.maps(mp2),
            mp1.virt == mp2.virt,
            mp1.size == mp2.size,
        ensures
            mp1 == mp2,
    {
        let i1 = choose|i: int| 0 <= i < self.mappings.len() && (#[trigger] self.mappings[i]) == mp1;
        let i2 = choose|i: int| 0 <= i < self.mappings.len() && (#[trigger] self.mappings[i]) == mp2;
        if i1 != i2 {
            assert(!(self.mappings[i1].virt == self.mappings[i2].virt && self.mappings[i1].size
                == self.mappings[i2].size));
        }
    }

    /// Law: after a run of pages has been installed, any installed mapping
    /// of the run's granularity at page `i` of the run points at exactly
    /// the run's physical base plus `i` pages, and its flags include every
    /// bit the run was installed with.
    pub proof fn lemma_lookup_after_map(
        self,
        size: PageSize,
        virt: int,
        phys: int,
        flags: u64,
        count: int,
        i: int,
        mp: Mapping,
    )
        requires
            self.wf(),
            forall|j: int|
                0 <= j < count ==> #[trigger] self.maps_run_page(size, virt, phys, flags, j),
            0 <= i < count,
            self.maps(mp),
            mp.size == size,
            mp.virt == (virt + i * size.spec_size()) as usize,
        ensures
            mp.phys == (phys + i * size.spec_size()) as usize,
            mp.flags == flags,
            mp.flags & flags == flags,
    {
        let run = Mapping {
            size,
            virt: (virt + i * size.spec_size()) as usize,
            phys: (phys + i * size.spec_size()) as usize,
            flags,
        };
        assert(self.maps_run_page(size, virt, phys, flags, i));
        self.lemma_maps_functional(mp, run);
        let ghost f = flags;
        assert(f & f == f) by (bit_vector);
    }

    /// Law: the entry bits a run is installed with include every bit of the
    /// flags the caller asked for; the granularity marker only adds to them.
    pub proof fn lemma_installed_flags_contain_requested(flags: PageTableEntryFlags, size: PageSize)
        ensures
            (PageTableEntryFlags { bits: flags.bits | size.spec_map_extra_flag() }).spec_contains(
                flags,
            ),
    {
        let f = flags.bits;
        let e = size.spec_map_extra_flag();
        assert((f | e) & f == f) by (bit_vector);
    }

    /// Installs or replaces the single leaf mapping of the page at `virt`.
    #[verifier::loop_isolation(false)]
    fn upsert(&mut self, size: PageSize, virt: usize, phys: usize, flags: u64)
        requires
            old(self).wf(),
        ensures
            final(self).wf(),
            final(self).maps(Mapping { size, virt, phys, flags }),
            forall|mp: Mapping|
                mp.virt != virt || mp.size != size ==> (final(self).maps(mp) <==> old(self).maps(
                    mp,
                )),
            forall|mp: Mapping|
                mp.virt == virt && mp.size == size && mp != (Mapping { size, virt, phys, flags })
                    ==> !final(self).maps(mp),
            forall|a: int| virt <= a < virt + size.spec_size() ==> final(self).covers(a),
            forall|a: int| old(self).covers(a) ==> final(self).covers(a),
    {
        let target = Mapping { size, virt, phys, flags };
        let n = self.mappings.len();
        let mut idx: usize = 0;
        while idx < n
            invariant
                self == old(self),
                self.wf(),
                n == self.mappings.len(),
                idx <= n,
                forall|j: int|
                    0 <= j < idx ==> !((#[trigger] self.mappings[j]).virt == virt
                        && self.mappings[j].size == size),
            decreases n - idx,
        {
            let m = self.mappings[idx];
            if m.virt == virt && m.size == size {
                self.mappings.set(idx, target);
                proof {
                    let post = *self;
                    let pre = *old(self);
                    assert(post.mappings@ == pre.mappings@.update(idx as int, target));
                    assert(post.mappings[idx as int] == target);
                    assert(forall|k: int|
                        0 <= k < post.mappings.len() && k != idx ==> post.mappings[k]
                            == pre.mappings[k]);
                    assert forall|mp: Mapping|
                        mp.virt != virt || mp.size != size implies (post.maps(mp) <==> pre.maps(
                        mp,
                    )) by {
                        if post.maps(mp) {
                            let j = choose|j: int|
                                0 <= j < post.mappings.len() && (#[trigger] post.mappings[j]) == mp;
                            assert(post.mappings[j] == mp);
                            if j == idx {
                                assert(mp == target);
                                assert(false);
                            } else {
                                assert(pre.mappings[j] == mp);
                            }
                        }
                        if pre.maps(mp) {
                            let j = choose|j: int|
                                0 <= j < pre.mappings.len() && (#[trigger] pre.mappings[j]) == mp;
                            if j == idx {
                                assert(mp.virt == virt && mp.size == size);
                            } else {
                                assert(post.mappings[j] == mp);
                            }
                        }
                    }
                    assert forall|mp: Mapping|
                        mp.virt == virt && mp.size == size && mp != target implies !post.maps(
                        mp,
                    ) by {
                        if post.maps(mp) {
                            let j = choose|j: int|
                                0 <= j < post.mappings.len() && (#[trigger] post.mappings[j]) == mp;
                            assert(j != idx);
                            assert(pre.mappings[j] == mp);
                            assert(!(pre.mappings[j].virt == pre.mappings[idx as int].virt
                                && pre.mappings[j].size == pre.mappings[idx as int].size));
                        }
                    }
                    assert forall|a: int|
                        virt <= a < virt + size.spec_size() implies post.covers(a) by {
                        assert(post.mappings[idx as int].virt <= a < post.mappings[idx as int].virt
                            + post.mappings[idx as int].size.spec_size());
                    }
                    assert forall|a: int| pre.covers(a) implies post.covers(a) by {
                        let j = choose|j: int|
                            0 <= j < pre.mappings.len() && (#[trigger] pre.mappings[j]).virt <= a
                                < (#[trigger] pre.mappings[j]).virt
                                + pre.mappings[j].size.spec_size();
                        assert(post.mappings[j].virt <= a < post.mappings[j].virt
                            + post.mappings[j].size.spec_size());
                    }
                }
                return ;
            }
            idx += 1;
        }
        self.mappings.push(target);
        proof {
            let post = *self;
            let pre = *old(self);
            assert(post.mappings[n as int] == target);
            assert forall|mp: Mapping|
                mp.virt != virt || mp.size != size implies (post.maps(mp) <==> pre.maps(mp)) by {
                if post.maps(mp) {
                    let j = choose|j: int|
                        0 <= j < post.mappings.len() && (#[trigger] post.mappings[j]) == mp;
                    assert(pre.mappings[j] == mp);
                }
                if pre.maps(mp) {
                    let j = choose|j: int|
                        0 <= j < pre.mappings.len() && (#[trigger] pre.mappings[j]) == mp;
                    assert(post.mappings[j] == mp);
                }
            }
            assert forall|mp: Mapping|
                mp.virt == virt && mp.size == size && mp != target implies !post.maps(mp) by {
                if post.maps(mp) {
                    let j = choose|j: int|
                        0 <= j < post.mappings.len() && (#[trigger] post.mappings[j]) == mp;
                    assert(j < n);
                    assert(pre.mappings[j] == mp);
                }
            }
            assert forall|a: int| virt <= a < virt + size.spec_size() implies post.covers(a) by {
                assert(post.mappings[n as int].virt <= a < post.mappings[n as int].virt
                    + post.mappings[n as int].size.spec_size());
            }
            assert forall|a: int| pre.covers(a) implies post.covers(a) by {
                let j = choose|j: int|
                    0 <= j < pre.mappings.len() && (#[trigger] pre.mappings[j]).virt <= a < (
                    #[trigger] pre.mappings[j]).virt + pre.mappings[j].size.spec_size();
                assert(post.mappings[j].virt <= a < post.mappings[j].virt
                    + post.mappings[j].size.spec_size());
            }
        }
    }

    /// Installs `count` mappings of granularity `size` starting at `virt`,
    /// pointing at the physical range starting at `phys`, with `flags` plus
    /// the granularity's own marker bits.
    #[verifier::loop_isolation(false)]
    pub fn map(&mut self, size: PageSize, virt: usize, phys: usize, count: usize, flags: PageTableEntryFlags)
        requires
            old(self).wf(),
            virt as int % size.spec_size() == 0,
            phys as int % size.spec_size() == 0,
            virt + count * size.spec_size() <= usize::MAX,
            phys + count * size.spec_size() <= usize::MAX,
        ensures
            final(self).wf(),
            forall|i: int|
                0 <= i < count ==> #[trigger] final(self).maps_run_page(
                    size,
                    virt as int,
                    phys as int,
                    flags.bits | size.spec_map_extra_flag(),
                    i,
                ),
            forall|mp: Mapping|
                !(mp.size == size && virt <= mp.virt < virt + count * size.spec_size())
                    ==> (final(self).maps(mp) <==> old(self).maps(mp)),
            forall|a: int| virt <= a < virt + count * size.spec_size() ==> final(self).covers(a),
            forall|a: int| old(self).covers(a) ==> final(self).covers(a),
    {
        let page = size.size();
        let installed = flags.bits | size.map_extra_flag();
        let mut i: usize = 0;
        while i < count
            invariant
                self.wf(),
                i <= count,
                page == size.spec_size(),
                installed == flags.bits | size.spec_map_extra_flag(),
                virt + count * size.spec_size() <= usize::MAX,
                phys + count * size.spec_size() <= usize::MAX,
                forall|j: int|
                    0 <= j < i ==> #[trigger] self.maps_run_page(
                        size,
                        virt as int,
                        phys as int,
                        installed,
                        j,
                    ),
                forall|mp: Mapping|
                    !(mp.size == size && virt <= mp.virt < virt + count * size.spec_size()) ==> (
                    self.maps(mp) <==> old(self).maps(mp)),
                forall|a: int| virt <= a < virt + i * size.spec_size() ==> self.covers(a),
                forall|a: int| old(self).covers(a) ==> self.covers(a),
            decreases count - i,
        {
            proof {
                assert(i * size.spec_size() < count * size.spec_size() && 0 <= i
                    * size.spec_size()) by (nonlinear_arith)
                    requires
                        0 <= i < count,
                        size.spec_size() > 0,
                ;
                assert((i + 1) * size.spec_size() <= count * size.spec_size()) by (nonlinear_arith)
                    requires
                        i + 1 <= count,
                        size.spec_size() > 0,
                ;
            }
            let v = virt + i * page;
            let p = phys + i * page;
            let ghost prev = *self;
            self.upsert(size, v, p, installed);
            proof {
                assert forall|a: int|
                    virt <= a < virt + (i + 1) * size.spec_size() implies self.covers(a) by {
                    assert((i + 1) * size.spec_size() == i * size.spec_size()
                        + size.spec_size()) by (nonlinear_arith);
                    if a < virt + i * size.spec_size() {
                        assert(prev.covers(a));
                    } else {
                        assert(v <= a < v + size.spec_size());
                    }
                }
                assert forall|mp: Mapping|
                    !(mp.size == size && virt <= mp.virt < virt + count * size.spec_size()) implies (
                self.maps(mp) <==> old(self).maps(mp)) by {
                    assert(self.maps(mp) <==> prev.maps(mp));
                }
                assert forall|j: int|
                    0 <= j < i + 1 implies #[trigger] self.maps_run_page(
                    size,
                    virt as int,
                    phys as int,
                    installed,
                    j,
                ) by {
                    assert(0 <= j * size.spec_size() <= count * size.spec_size()) by (
                    nonlinear_arith)
                        requires
                            0 <= j <= count,
                            size.spec_size() > 0,
                    ;
                    let mpj = Mapping {
                        size,
                        virt: (virt + j * size.spec_size()) as usize,
                        phys: (phys + j * size.spec_size()) as usize,
                        flags: installed,
                    };
                    if j == i {
                        assert(mpj == (Mapping { size, virt: v, phys: p, flags: installed }));
                        assert(self.maps(mpj));
                    } else {
                        assert(j * size.spec_size() < i * size.spec_size()) by (nonlinear_arith)
                            requires
                                0 <= j < i,
                                size.spec_size() > 0,
                        ;
                        assert(mpj.virt != v);
                        assert(prev.maps_run_page(size, virt as int, phys as int, installed, j));
                        assert(prev.maps(mpj));
                        assert(self.maps(mpj));
                    }
                }
            }
            i += 1;
        }
    }

    /// Returns the leaf entry of granularity `size` covering `virt`, if one
    /// is installed.
    pub fn get_page_table_entry(&self, size: PageSize, virt: usize) -> (r: Option<PageTableEntry>)
        requires
            self.wf(),
        ensures
            match r {
                Some(e) => self.maps(
                    Mapping {
                        size,
                        virt: spec_align_down(virt as int, size.spec_size()) as usize,
                        phys: e.physical_address,
                        flags: e.flags,
                    },
                ),
                None => forall|mp: Mapping|
                    mp.size == size && mp.virt == spec_align_down(
                        virt as int,
                        size.spec_size(),
                    ) as usize ==> !self.maps(mp),
            },
    {
        let page = size.size();
        let aligned = align_down(virt, page);
        let n = self.mappings.len();
        let mut idx: usize = 0;
        while idx < n
            invariant
                self.wf(),
                n == self.mappings.len(),
                idx <= n,
                aligned == spec_align_down(virt as int, size.spec_size()),
                forall|j: int|
                    0 <= j < idx ==> !((#[trigger] self.mappings[j]).virt == aligned
                        && self.mappings[j].size == size),
            decreases n - idx,
        {
            let m = self.mappings[idx];
            if m.virt == aligned && m.size == size {
                return Some(PageTableEntry { physical_address: m.phys, flags: m.flags });
            }
            idx += 1;
        }
        proof {
            assert forall|mp: Mapping|
                mp.size == size && mp.virt == spec_align_down(
                    virt as int,
                    size.spec_size(),
                ) as usize implies !self.maps(mp) by {
                if self.maps(mp) {
                    let j = choose|j: int|
                        0 <= j < self.mappings.len() && (#[trigger] self.mappings[j]) == mp;
                }
            }
        }
        None
    }
}

} // verus!
