//! Address-ordered free lists of byte extents, the common substrate of the
//! physical-frame and virtual-range allocators.

use vstd::prelude::*;

use crate::align::{spec_align_up, lemma_align_up_properties};

verus! {

/// A contiguous range of free addresses `[start, end)`.
#[derive(Clone, Copy)]
pub struct FreeExtent {
    pub start: usize,
    pub end: usize,
}

/// An address-ordered list of non-empty, pairwise disjoint, coalesced free
/// extents.
pub struct FreeList {
    pub regions: Vec<FreeExtent>,
}

impl FreeList {
    /// Every extent is non-empty, and extents appear in strictly increasing
    /// address order with a gap between neighbours (adjacent extents are
    /// always merged).
    pub open spec fn wf(self) -> bool {
        &&& forall|i: int|
            0 <= i < self.regions.len() ==> (#[trigger] self.regions[i]).start
                < self.regions[i].end
        &&& forall|i: int, j: int|
            0 <= i < j < self.regions.len() ==> (#[trigger] self.regions[i]).end < (
            #[trigger] self.regions[j]).start
    }

    /// The address `a` lies in some free extent.
    pub open spec fn is_free(self, a: int) -> bool {
        exists|i: int|
            0 <= i < self.regions.len() && (#[trigger] self.regions[i]).start <= a
                < self.regions[i].end
    }

    /// Extent `i` has room for `size` bytes.
    pub open spec fn extent_fits(self, i: int, size: int) -> bool {
        self.regions[i].end - self.regions[i].start >= size
    }

    /// Extent `i` has room for `size` bytes starting at a multiple of
    /// `alignment`.
    pub open spec fn extent_fits_aligned(self, i: int, size: int, alignment: int) -> bool {
        spec_align_up(self.regions[i].start as int, alignment) + size <= self.regions[i].end
    }

    /// A fresh, empty free list.
    pub fn new() -> (r: FreeList)
        ensures
            r.wf(),
            forall|a: int| !r.is_free(a),
            r.regions.len() == 0,
    {
        FreeList { regions: Vec::new() }
    }

    /// A free list holding the single extent `[start, end)`.
    pub fn with_extent(start: usize, end: usize) -> (r: FreeList)
        requires
            start < end,
        ensures
            r.wf(),
            forall|a: int| r.is_free(a) <==> start <= a < end,
            r.regions.len() == 1,
            r.regions[0] == (FreeExtent { start, end }),
    {
        let mut regions: Vec<FreeExtent> = Vec::new();
        regions.push(FreeExtent { start, end });
        let r = FreeList { regions };
        proof {
            assert forall|a: int| r.is_free(a) <==> start <= a < end by {
                if start <= a < end {
                    assert(r.regions[0].start <= a < r.regions[0].end);
                }
            }
        }
        r
    }

    /// Takes `size` bytes from the start of the first extent that has room,
    /// in address order.
    pub fn allocate(&mut self, size: usize) -> (r: Result<usize, ()>)
        requires
            old(self).wf(),
            size > 0,
        ensures
            final(self).wf(),
            match r {
                Ok(addr) => {
                    &&& addr + size <= usize::MAX
                    &&& forall|a: int| addr <= a < addr + size ==> old(self).is_free(a)
                    &&& forall|a: int|
                        final(self).is_free(a) <==> (old(self).is_free(a) && !(addr <= a < addr
                            + size))
                    &&& exists|i: int|
                        {
                            &&& 0 <= i < old(self).regions.len()
                            &&& old(self).extent_fits(i, size as int)
                            &&& addr == (#[trigger] old(self).regions[i]).start
                            &&& forall|j: int| 0 <= j < i ==> !old(self).extent_fits(j, size as int)
                        }
                },
                Err(_) => {
                    &&& *final(self) == *old(self)
                    &&& forall|i: int|
                        0 <= i < final(self).regions.len() ==> !final(self).extent_fits(
                            i,
                            size as int,
                        )
                },
            },
    {
        let n = self.regions.len();
        let mut idx: usize = 0;
        while idx < n
            invariant
                self == old(self),
                self.wf(),
                size > 0,
                n == self.regions.len(),
                idx <= n,
                forall|j: int| 0 <= j < idx ==> !self.extent_fits(j, size as int),
            decreases n - idx,
        {
            let ext = self.regions[idx];
            if ext.end - ext.start >= size {
                let addr = ext.start;
                if ext.end - ext.start == size {
                    self.regions.remove(idx);
                    proof {
                        self.lemma_free_after_remove(*old(self), idx as int, addr as int, size as int);
                    }
                } else {
                    let shrunk = FreeExtent { start: ext.start + size, end: ext.end };
                    self.regions.set(idx, shrunk);
                    proof {
                        self.lemma_free_after_shrink(*old(self), idx as int, addr as int, size as int);
                    }
                }
                proof {
                    assert forall|a: int| addr <= a < addr + size implies old(self).is_free(a) by {
                        assert(old(self).regions[idx as int].start <= a < old(
                            self,
                        ).regions[idx as int].end);
                    }
                }
                return Ok(addr);
            }
            idx += 1;
        }
        Err(())
    }

    /// Takes `size` bytes at the first address that is a multiple of
    /// `alignment` inside the first extent that can host such a sub-extent,
    /// in address order.
    pub fn allocate_aligned(&mut self, size: usize, alignment: usize) -> (r: Result<usize, ()>)
        requires
            old(self).wf(),
            size > 0,
            alignment > 0,
        ensures
            final(self).wf(),
            match r {
                Ok(addr) => {
                    &&& addr + size <= usize::MAX
                    &&& (addr as int) % (alignment as int) == 0
                    &&& forall|a: int| addr <= a < addr + size ==> old(self).is_free(a)
                    &&& forall|a: int|
                        final(self).is_free(a) <==> (old(self).is_free(a) && !(addr <= a < addr
                            + size))
                    &&& exists|i: int|
                        {
                            &&& 0 <= i < old(self).regions.len()
                            &&& old(self).extent_fits_aligned(i, size as int, alignment as int)
                            &&& addr == spec_align_up(
                                (#[trigger] old(self).regions[i]).start as int,
                                alignment as int,
                            )
                            &&& forall|j: int|
                                0 <= j < i ==> !old(self).extent_fits_aligned(
                                    j,
                                    size as int,
                                    alignment as int,
                                )
                        }
                },
                Err(_) => {
                    &&& *final(self) == *old(self)
                    &&& forall|i: int|
                        0 <= i < final(self).regions.len() ==> !final(self).extent_fits_aligned(
                            i,
                            size as int,
                            alignment as int,
                        )
                },
            },
    {
        let n = self.regions.len();
        let mut idx: usize = 0;
        while idx < n
            invariant
                self == old(self),
                self.wf(),
                size > 0,
                alignment > 0,
                n == self.regions.len(),
                idx <= n,
                forall|j: int|
                    0 <= j < idx ==> !self.extent_fits_aligned(j, size as int, alignment as int),
            decreases n - idx,
        {
            let ext = self.regions[idx];
            proof {
                lemma_align_up_properties(ext.start as int, alignment as int);
            }
            // The first multiple of `alignment` at or above the extent start,
            // or none when that multiple does not fit in the address space.
            let rem = ext.start % alignment;
            let aligned_opt: Option<usize> = if rem == 0 {
                Some(ext.start)
            } else {
                ext.start.checked_add(alignment - rem)
            };
            proof {
                crate::align::lemma_align_up_form(ext.start as int, alignment as int);
            }
            match aligned_opt {
                Some(aligned) => {
                    assert(aligned == spec_align_up(ext.start as int, alignment as int));
                    if aligned <= ext.end && ext.end - aligned >= size {
                        self.carve(idx, aligned, size);
                        return Ok(aligned);
                    }
                },
                None => {
                    assert(!self.extent_fits_aligned(idx as int, size as int, alignment as int));
                },
            }
            idx += 1;
        }
        Err(())
    }

    /// Removes `[addr, addr + size)` from extent `i`, keeping the fragments
    /// before and after it.
    fn carve(&mut self, i: usize, addr: usize, size: usize)
        requires
            old(self).wf(),
            i < old(self).regions.len(),
            old(self).regions[i as int].start <= addr,
            addr + size <= old(self).regions[i as int].end,
            size > 0,
        ensures
            final(self).wf(),
            forall|a: int|
                final(self).is_free(a) <==> (old(self).is_free(a) && !(addr <= a < addr + size)),
    {
        let ext = self.regions[i];
        let has_front = addr > ext.start;
        let has_back = addr + size < ext.end;
        if has_front && has_back {
            self.regions.set(i, FreeExtent { start: ext.start, end: addr });
            self.regions.insert(i + 1, FreeExtent { start: addr + size, end: ext.end });
        } else if has_front {
            self.regions.set(i, FreeExtent { start: ext.start, end: addr });
        } else if has_back {
            self.regions.set(i, FreeExtent { start: addr + size, end: ext.end });
        } else {
            self.regions.remove(i);
        }
        proof {
            let pre = *old(self);
            let post = *self;
            assert forall|a: int|
                post.is_free(a) <==> (pre.is_free(a) && !(addr <= a < addr + size)) by {
                if post.is_free(a) {
                    let j = choose|j: int|
                        0 <= j < post.regions.len() && (#[trigger] post.regions[j]).start <= a
                            < post.regions[j].end;
                    if has_front && has_back {
                        let jj = if j <= i {
                            j
                        } else {
                            j - 1
                        };
                        assert(pre.regions[jj].start <= a < pre.regions[jj].end);
                    } else if has_front || has_back {
                        assert(pre.regions[j].start <= a < pre.regions[j].end);
                    } else {
                        let jj = if j < i {
                            j
                        } else {
                            j + 1
                        };
                        assert(pre.regions[jj].start <= a < pre.regions[jj].end);
                    }
                }
                if pre.is_free(a) && !(addr <= a < addr + size) {
                    let j = choose|j: int|
                        0 <= j < pre.regions.len() && (#[trigger] pre.regions[j]).start <= a
                            < pre.regions[j].end;
                    if j != i as int {
                        if has_front && has_back {
                            let jj = if j < i {
                                j
                            } else {
                                j + 1
                            };
                            assert(post.regions[jj].start <= a < post.regions[jj].end);
                        } else if has_front || has_back {
                            assert(post.regions[j].start <= a < post.regions[j].end);
                        } else {
                            let jj = if j < i {
                                j
                            } else {
                                j - 1
                            };
                            assert(post.regions[jj].start <= a < post.regions[jj].end);
                        }
                    } else {
                        if a < addr {
                            assert(post.regions[i as int].start <= a < post.regions[i as int].end);
                        } else {
                            if has_front && has_back {
                                assert(post.regions[i as int + 1].start <= a < post.regions[i as int
                                    + 1].end);
                            } else {
                                assert(post.regions[i as int].start <= a
                                    < post.regions[i as int].end);
                            }
                        }
                    }
                }
            }
        }
    }

    /// Returns `[addr, addr + size)` to the pool, merging it with the
    /// neighbouring extents when they touch it.
    #[verifier::rlimit(60)]
    pub fn deallocate(&mut self, addr: usize, size: usize)
        requires
            old(self).wf(),
            size > 0,
            addr + size <= usize::MAX,
            forall|a: int| addr <= a < addr + size ==> !old(self).is_free(a),
        ensures
            final(self).wf(),
            forall|a: int|
                final(self).is_free(a) <==> (old(self).is_free(a) || (addr <= a < addr + size)),
    {
        let n = self.regions.len();
        let mut idx: usize = 0;
        while idx < n && self.regions[idx].end < addr
            invariant
                self == old(self),
                self.wf(),
                n == self.regions.len(),
                idx <= n,
                forall|j: int| 0 <= j < idx ==> (#[trigger] self.regions[j]).end < addr,
            decreases n - idx,
        {
            idx += 1;
        }
        let ghost pre = *old(self);
        proof {
            // The freed range is disjoint from every extent; in particular
            // from extent `idx` onwards every extent lies entirely above it.
            assert forall|j: int|
                idx <= j < pre.regions.len() implies (#[trigger] pre.regions[j]).start >= addr
                + size || pre.regions[j].end == addr by {
                if pre.regions[j].end != addr && pre.regions[j].start < addr + size {
                    let e: int = if pre.regions[j].start <= addr {
                        addr as int
                    } else {
                        pre.regions[j].start as int
                    };
                    if pre.regions[j].end > addr {
                        assert(pre.regions[j].start <= e < pre.regions[j].end);
                        assert(pre.is_free(e));
                    } else {
                        assert(pre.regions[j].end < addr);
                        assert(pre.regions[idx as int].end >= addr);
                        if j < idx {
                        } else {
                            assert(pre.regions[idx as int].end < pre.regions[j].start);
                        }
                    }
                }
            }
        }
        if idx < n && self.regions[idx].end == addr {
            let left = self.regions[idx];
            if idx + 1 < n && self.regions[idx + 1].start == addr + size {
                // The freed range exactly bridges two extents.
                let right = self.regions[idx + 1];
                self.regions.set(idx, FreeExtent { start: left.start, end: right.end });
                self.regions.remove(idx + 1);
                proof {
                    let post = *self;
                    assert forall|a: int|
                        post.is_free(a) <==> (pre.is_free(a) || (addr <= a < addr + size)) by {
                        if post.is_free(a) {
                            let j = choose|j: int|
                                0 <= j < post.regions.len() && (#[trigger] post.regions[j]).start
                                    <= a < post.regions[j].end;
                            if j != idx {
                                let jj = if j < idx {
                                    j
                                } else {
                                    j + 1
                                };
                                assert(pre.regions[jj].start <= a < pre.regions[jj].end);
                            } else {
                                if a < addr {
                                    assert(pre.regions[idx as int].start <= a
                                        < pre.regions[idx as int].end);
                                } else if a >= addr + size {
                                    assert(pre.regions[idx as int + 1].start <= a
                                        < pre.regions[idx as int + 1].end);
                                }
                            }
                        }
                        if pre.is_free(a) {
                            let j = choose|j: int|
                                0 <= j < pre.regions.len() && (#[trigger] pre.regions[j]).start
                                    <= a < pre.regions[j].end;
                            let jj = if j <= idx as int + 1 {
                                if j == idx as int + 1 {
                                    idx as int
                                } else {
                                    j
                                }
                            } else {
                                j - 1
                            };
                            assert(post.regions[jj].start <= a < post.regions[jj].end);
                        }
                        if addr <= a < addr + size {
                            assert(post.regions[idx as int].start <= a
                                < post.regions[idx as int].end);
                        }
                    }
                }
            } else {
                // Extend the extent that ends exactly at the freed range.
                self.regions.set(idx, FreeExtent { start: left.start, end: addr + size });
                proof {
                    let post = *self;
                    assert forall|a: int|
                        post.is_free(a) <==> (pre.is_free(a) || (addr <= a < addr + size)) by {
                        if post.is_free(a) && !(addr <= a < addr + size) {
                            let j = choose|j: int|
                                0 <= j < post.regions.len() && (#[trigger] post.regions[j]).start
                                    <= a < post.regions[j].end;
                            if j == idx {
                                assert(pre.regions[idx as int].start <= a
                                    < pre.regions[idx as int].end);
                            } else {
                                assert(pre.regions[j].start <= a < pre.regions[j].end);
                            }
                        }
                        if pre.is_free(a) {
                            let j = choose|j: int|
                                0 <= j < pre.regions.len() && (#[trigger] pre.regions[j]).start
                                    <= a < pre.regions[j].end;
                            assert(post.regions[j].start <= a < post.regions[j].end);
                        }
                        if addr <= a < addr + size {
                            assert(post.regions[idx as int].start <= a
                                < post.regions[idx as int].end);
                        }
                    }
                }
            }
        } else if idx < n && self.regions[idx].start == addr + size {
            // Extend the extent that starts exactly at the end of the freed
            // range.
            let right = self.regions[idx];
            self.regions.set(idx, FreeExtent { start: addr, end: right.end });
            proof {
                let post = *self;
                assert forall|a: int|
                    post.is_free(a) <==> (pre.is_free(a) || (addr <= a < addr + size)) by {
                    if post.is_free(a) && !(addr <= a < addr + size) {
                        let j = choose|j: int|
                            0 <= j < post.regions.len() && (#[trigger] post.regions[j]).start <= a
                                < post.regions[j].end;
                        if j == idx {
                            assert(pre.regions[idx as int].start <= a
                                < pre.regions[idx as int].end);
                        } else {
                            assert(pre.regions[j].start <= a < pre.regions[j].end);
                        }
                    }
                    if pre.is_free(a) {
                        let j = choose|j: int|
                            0 <= j < pre.regions.len() && (#[trigger] pre.regions[j]).start <= a
                                < pre.regions[j].end;
                        assert(post.regions[j].start <= a < post.regions[j].end);
                    }
                    if addr <= a < addr + size {
                        assert(post.regions[idx as int].start <= a < post.regions[idx as int].end);
                    }
                }
            }
        } else {
            // No neighbour touches the freed range: insert a new extent.
            self.regions.insert(idx, FreeExtent { start: addr, end: addr + size });
            proof {
                let post = *self;
                assert forall|a: int|
                    post.is_free(a) <==> (pre.is_free(a) || (addr <= a < addr + size)) by {
                    if post.is_free(a) {
                        let j = choose|j: int|
                            0 <= j < post.regions.len() && (#[trigger] post.regions[j]).start <= a
                                < post.regions[j].end;
                        if j != idx {
                            let jj = if j < idx {
                                j
                            } else {
                                j - 1
                            };
                            assert(pre.regions[jj].start <= a < pre.regions[jj].end);
                        }
                    }
                    if pre.is_free(a) {
                        let j = choose|j: int|
                            0 <= j < pre.regions.len() && (#[trigger] pre.regions[j]).start <= a
                                < pre.regions[j].end;
                        let jj = if j < idx {
                            j
                        } else {
                            j + 1
                        };
                        assert(post.regions[jj].start <= a < post.regions[jj].end);
                    }
                    if addr <= a < addr + size {
                        assert(post.regions[idx as int].start <= a < post.regions[idx as int].end);
                    }
                }
            }
        }
    }

    /// After removing a fully consumed extent `i`, the free addresses are the
    /// old ones outside the consumed range, and the list stays well formed.
    proof fn lemma_free_after_remove(self, pre: FreeList, i: int, addr: int, size: int)
        requires
            pre.wf(),
            0 <= i < pre.regions.len(),
            addr == pre.regions[i].start,
            addr + size == pre.regions[i].end,
            size > 0,
            self.regions@ == pre.regions@.remove(i),
        ensures
            self.wf(),
            forall|a: int| self.is_free(a) <==> (pre.is_free(a) && !(addr <= a < addr + size)),
    {
        assert forall|a: int|
            self.is_free(a) <==> (pre.is_free(a) && !(addr <= a < addr + size)) by {
            if self.is_free(a) {
                let j = choose|j: int|
                    0 <= j < self.regions.len() && (#[trigger] self.regions[j]).start <= a
                        < self.regions[j].end;
                let jj = if j < i {
                    j
                } else {
                    j + 1
                };
                assert(pre.regions[jj].start <= a < pre.regions[jj].end);
            }
            if pre.is_free(a) && !(addr <= a < addr + size) {
                let j = choose|j: int|
                    0 <= j < pre.regions.len() && (#[trigger] pre.regions[j]).start <= a
                        < pre.regions[j].end;
                assert(j != i);
                let jj = if j < i {
                    j
                } else {
                    j - 1
                };
                assert(self.regions[jj].start <= a < self.regions[jj].end);
            }
        }
    }

    /// After shrinking extent `i` by `size` bytes at its start, the free
    /// addresses are the old ones outside the consumed range.
    proof fn lemma_free_after_shrink(self, pre: FreeList, i: int, addr: int, size: int)
        requires
            pre.wf(),
            0 <= i < pre.regions.len(),
            addr == pre.regions[i].start,
            addr + size < pre.regions[i].end,
            size > 0,
            self.regions@ == pre.regions@.update(
                i,
                FreeExtent { start: (addr + size) as usize, end: pre.regions[i].end },
            ),
        ensures
            self.wf(),
            forall|a: int| self.is_free(a) <==> (pre.is_free(a) && !(addr <= a < addr + size)),
    {
        assert forall|a: int|
            self.is_free(a) <==> (pre.is_free(a) && !(addr <= a < addr + size)) by {
            if self.is_free(a) {
                let j = choose|j: int|
                    0 <= j < self.regions.len() && (#[trigger] self.regions[j]).start <= a
                        < self.regions[j].end;
                assert(pre.regions[j].start <= a < pre.regions[j].end);
            }
            if pre.is_free(a) && !(addr <= a < addr + size) {
                let j = choose|j: int|
                    0 <= j < pre.regions.len() && (#[trigger] pre.regions[j]).start <= a
                        < pre.regions[j].end;
                assert(self.regions[j].start <= a < self.regions[j].end);
            }
        }
    }
}

} // verus!
