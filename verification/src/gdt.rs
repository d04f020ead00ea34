//! The global descriptor table shared by all cores, and the per-core
//! task-state segments with their interrupt stacks.

use vstd::prelude::*;

use x86::segmentation::{CodeSegmentType, DataSegmentType, DescriptorBuilder, SegmentDescriptorBuilder, BuildDescriptor, Descriptor};
use x86::Ring;

use crate::config::{DEFAULT_STACK_SIZE, KERNEL_STACK_SIZE};
use crate::mm::{AllocError, MemoryManager};
use crate::paging::BASE_PAGE_SIZE;
use crate::scheduler::TaskStatus;

verus! {

/// Selector index of the null descriptor.
pub const GDT_NULL: u16 = 0;

/// Selector index of the kernel code segment.
pub const GDT_KERNEL_CODE: u16 = 1;

/// Selector index of the kernel data segment.
pub const GDT_KERNEL_DATA: u16 = 2;

/// First slot used for task-state segment descriptors; core `c` owns the
/// two slots starting at `GDT_FIRST_TSS + 2 * c`.
pub const GDT_FIRST_TSS: u16 = 3;

/// Number of eight-byte slots in the table.
pub const GDT_ENTRIES: usize = 8192;

/// Interrupt stacks per core: one shared by ordinary interrupts, and one
/// each for the non-maskable, double-fault and machine-check exceptions.
pub const IST_ENTRIES: usize = 4;

/// Bytes of the hardware task-state segment structure in long mode.
pub const TSS_SIZE: usize = 104;

/// Offset kept free below every stack top for a trap-frame alignment word.
pub const STACK_TOP_OFFSET: usize = 16;

/// The 64-bit kernel code descriptor: base and limit fields as given,
/// execute/read type, present, ring 0, long mode.
pub open spec fn spec_code_descriptor(base: u32, limit: u32) -> u64 {
    (((base as u64 & 0xFFFF) << 16) | (limit as u64 & 0xFFFF)) | ((((base as u64 >> 16) & 0xFF) | (
    ((limit as u64 >> 16) & 0xF) << 16) | (((base as u64 >> 24) & 0xFF) << 24) | (1u64 << 15) | (
    1u64 << 21) | (1u64 << 12) | (0xAu64 << 8)) << 32)
}

/// The kernel data descriptor: base and limit fields as given, read/write
/// type, present, ring 0.
pub open spec fn spec_data_descriptor(base: u32, limit: u32) -> u64 {
    (((base as u64 & 0xFFFF) << 16) | (limit as u64 & 0xFFFF)) | ((((base as u64 >> 16) & 0xFF) | (
    ((limit as u64 >> 16) & 0xF) << 16) | (((base as u64 >> 24) & 0xFF) << 24) | (1u64 << 15) | (
    1u64 << 12) | (0x2u64 << 8)) << 32)
}

/// Low quadword of an available 64-bit TSS descriptor: the low 32 base bits
/// and low 20 limit bits scattered into their fields, type available TSS,
/// present, ring 0.
pub open spec fn spec_tss_descriptor_low(base: u64, limit: u64) -> u64 {
    ((base & 0xFFFF) << 16) | (limit & 0xFFFF) | ((((base >> 16) & 0xFF) | (((limit >> 16) & 0xF)
        << 16) | (((base >> 24) & 0xFF) << 24) | (1u64 << 15) | (0x9u64 << 8)) << 32)
}

/// High quadword of a 64-bit TSS descriptor: the high 32 base bits.
pub open spec fn spec_tss_descriptor_high(base: u64) -> u64 {
    base >> 32
}

/// The base address encoded in a 16-byte descriptor pair.
pub open spec fn spec_descriptor_pair_base(low: u64, high: u64) -> u64 {
    ((low >> 16) & 0xFFFF) | (((low >> 32) & 0xFF) << 16) | (((low >> 56) & 0xFF) << 24) | (high
        << 32)
}

/// Law: a TSS descriptor pair points back at exactly the base address it
/// was built for.
pub proof fn lemma_tss_descriptor_encodes_base(base: u64, limit: u64)
    ensures
        spec_descriptor_pair_base(
            spec_tss_descriptor_low(base, limit),
            spec_tss_descriptor_high(base),
        ) == base,
{
    let low = spec_tss_descriptor_low(base, limit);
    let high = spec_tss_descriptor_high(base);
    assert((((low >> 16) & 0xFFFF) | (((low >> 32) & 0xFF) << 16) | (((low >> 56) & 0xFF) << 24) | (
    high << 32)) == base) by (bit_vector)
        requires
            low == ((base & 0xFFFF) << 16) | (limit & 0xFFFF) | ((((base >> 16) & 0xFF) | (((limit
                >> 16) & 0xF) << 16) | (((base >> 24) & 0xFF) << 24) | (1u64 << 15) | (0x9u64 << 8))
                << 32),
            high == base >> 32,
    ;
}

/// Relies on the descriptor builder of the x86 crate: builds the 64-bit
/// kernel code descriptor (execute/read, present, ring 0, long mode) for
/// the given base and limit, and returns its raw bits.
#[verifier::external_body]
fn build_kernel_code_descriptor(base: u32, limit: u32) -> (r: u64)
    ensures
        r == spec_code_descriptor(base, limit),
{
    let d: Descriptor = DescriptorBuilder::code_descriptor(base, limit, CodeSegmentType::ExecuteRead)
        .present()
        .dpl(Ring::Ring0)
        .l()
        .finish();
    d.as_u64()
}

/// Relies on the descriptor builder of the x86 crate: builds the kernel
/// data descriptor (read/write, present, ring 0) for the given base and
/// limit, and returns its raw bits.
#[verifier::external_body]
fn build_kernel_data_descriptor(base: u32, limit: u32) -> (r: u64)
    ensures
        r == spec_data_descriptor(base, limit),
{
    let d: Descriptor = DescriptorBuilder::data_descriptor(base, limit, DataSegmentType::ReadWrite)
        .present()
        .dpl(Ring::Ring0)
        .finish();
    d.as_u64()
}

/// Builds the two quadwords of an available 64-bit TSS descriptor, present
/// and ring 0, for the given base address and byte limit.
fn build_tss_descriptor(base: u64, limit: u64) -> (r: (u64, u64))
    ensures
        r.0 == spec_tss_descriptor_low(base, limit),
        r.1 == spec_tss_descriptor_high(base),
{
    let low = ((base & 0xFFFF) << 16) | (limit & 0xFFFF) | ((((base >> 16) & 0xFF) | (((limit
        >> 16) & 0xF) << 16) | (((base >> 24) & 0xFF) << 24) | (1u64 << 15) | (0x9u64 << 8)) << 32);
    let high = base >> 32;
    (low, high)
}

/// `top` is the usable top of a per-core interrupt stack: `base` is a
/// page-aligned kernel-stack allocation that was free in `pre`, is consumed
/// and entirely mapped in `post`, and the top sits one guard offset below
/// its end.
pub open spec fn spec_fresh_interrupt_stack(
    pre: MemoryManager,
    post: MemoryManager,
    top: int,
    base: int,
) -> bool {
    &&& top == base + KERNEL_STACK_SIZE - STACK_TOP_OFFSET
    &&& base % (BASE_PAGE_SIZE as int) == 0
    &&& 0 <= base
    &&& base + KERNEL_STACK_SIZE <= usize::MAX
    &&& forall|a: int| base <= a < base + KERNEL_STACK_SIZE ==> pre.virtual_memory.is_free(a)
    &&& forall|a: int| base <= a < base + KERNEL_STACK_SIZE ==> !post.virtual_memory.is_free(a)
    &&& forall|a: int| base <= a < base + KERNEL_STACK_SIZE ==> post.page_table.covers(a)
}

/// Entry `k` of `ist` is the top of some fresh interrupt stack.
pub open spec fn spec_fresh_interrupt_stack_at(
    pre: MemoryManager,
    post: MemoryManager,
    ist: Seq<u64>,
    k: int,
) -> bool {
    exists|s: int| spec_fresh_interrupt_stack(pre, post, ist[k] as int, s)
}

/// The interrupt-stack tops of one core: each is the top of its own fresh,
/// page-aligned kernel-stack allocation, and no two share a stack.
pub open spec fn spec_fresh_interrupt_stacks(
    pre: MemoryManager,
    post: MemoryManager,
    ist: Seq<u64>,
) -> bool {
    &&& forall|k: int|
        0 <= k < ist.len() ==> #[trigger] spec_fresh_interrupt_stack_at(pre, post, ist, k)
    &&& forall|k1: int, k2: int| 0 <= k1 < k2 < ist.len() ==> ist[k1] != ist[k2]
}

/// The per-core task-state segment: where its hardware structure lives,
/// the ring-0 stack pointer, and the interrupt stack tops.
pub struct Tss {
    /// Address of the hardware TSS structure the descriptor points at.
    pub base: usize,
    /// Ring-0 stack pointer loaded on privilege change.
    pub rsp0: u64,
    /// Tops of the dedicated interrupt stacks.
    pub ist: Vec<u64>,
}

/// The global descriptor table and the task-state segments of the cores
/// already brought up.
pub struct Gdt {
    /// Address of the memory the table lives in.
    pub base: usize,
    /// The table's eight-byte slots.
    pub entries: Vec<u64>,
    /// Task-state segment of each core that has been added.
    pub tss: Vec<Option<Tss>>,
}

impl Gdt {
    /// The table has its full complement of slots.
    pub open spec fn wf(self) -> bool {
        self.entries.len() == GDT_ENTRIES
    }

    /// Allocates the table and writes the three fixed descriptors: null,
    /// kernel code and kernel data. Every other slot is null until a core
    /// claims its pair. Fails only when no extent of either memory pool can
    /// host the table, leaving the memory manager as it was.
    #[verifier::loop_isolation(false)]
    pub fn init(mm: &mut MemoryManager) -> (r: Result<Gdt, AllocError>)
        requires
            old(mm).wf(),
        ensures
            final(mm).wf(),
            final(mm).bounds_unchanged(*old(mm)),
            match r {
                Ok(gdt) => {
                    &&& gdt.wf()
                    &&& gdt.entries[GDT_NULL as int] == 0
                    &&& gdt.entries[GDT_KERNEL_CODE as int] == spec_code_descriptor(0, 0)
                    &&& gdt.entries[GDT_KERNEL_DATA as int] == spec_data_descriptor(0, 0)
                    &&& forall|i: int|
                        GDT_KERNEL_DATA < i < GDT_ENTRIES ==> gdt.entries[i] == 0
                    &&& gdt.tss.len() == 0
                },
                Err(e) => {
                    &&& e == AllocError::OutOfMemory
                    &&& final(mm).page_table == old(mm).page_table
                    &&& forall|a: int|
                        final(mm).physical.is_free(a) <==> old(mm).physical.is_free(a)
                    &&& forall|a: int|
                        final(mm).virtual_memory.is_free(a) <==> old(mm).virtual_memory.is_free(a)
                    &&& {
                        let size = crate::mm::spec_allocation_size(GDT_ENTRIES as int * 8);
                        ||| forall|i: int|
                            0 <= i < old(mm).physical.list.regions.len()
                                ==> !old(mm).physical.list.extent_fits_aligned(
                                i,
                                size,
                                BASE_PAGE_SIZE as int,
                            )
                        ||| forall|i: int|
                            0 <= i < old(mm).virtual_memory.list.regions.len()
                                ==> !old(mm).virtual_memory.list.extent_fits_aligned(
                                i,
                                size,
                                BASE_PAGE_SIZE as int,
                            )
                    }
                },
            },
    {
        let base = match mm.allocate(GDT_ENTRIES * 8, true) {
            Ok(v) => v,
            Err(_) => {
                return Err(AllocError::OutOfMemory);
            },
        };
        let mut entries: Vec<u64> = Vec::new();
        let mut i: usize = 0;
        while i < GDT_ENTRIES
            invariant
                i <= GDT_ENTRIES,
                entries.len() == i,
                forall|j: int| 0 <= j < i ==> entries[j] == 0,
            decreases GDT_ENTRIES - i,
        {
            entries.push(0);
            i += 1;
        }
        let code = build_kernel_code_descriptor(0, 0);
        let data = build_kernel_data_descriptor(0, 0);
        entries.set(GDT_KERNEL_CODE as usize, code);
        entries.set(GDT_KERNEL_DATA as usize, data);
        Ok(Gdt { base, entries, tss: Vec::new() })
    }

    /// Claims the slot pair of `core_id` for a TSS descriptor pointing at
    /// the hardware TSS at `tss_base`, sets its ring-0 stack to the top of
    /// the boot stack, and allocates the core's interrupt stacks. No other
    /// slot of the table is touched.
    #[verifier::loop_isolation(false)]
    pub fn add_current_core(
        &mut self,
        mm: &mut MemoryManager,
        core_id: usize,
        tss_base: usize,
        current_stack_address: u64,
    ) -> (r: Result<(), AllocError>)
        requires
            old(self).wf(),
            old(mm).wf(),
            core_id < (GDT_ENTRIES - GDT_FIRST_TSS as int) / 2,
            current_stack_address + KERNEL_STACK_SIZE <= u64::MAX,
        ensures
            final(self).wf(),
            final(mm).wf(),
            final(mm).bounds_unchanged(*old(mm)),
            forall|a: int| final(mm).physical.is_free(a) ==> old(mm).physical.is_free(a),
            forall|a: int|
                final(mm).virtual_memory.is_free(a) ==> old(mm).virtual_memory.is_free(a),
            forall|a: int| old(mm).page_table.covers(a) ==> final(mm).page_table.covers(a),
            match r {
                Ok(_) => {
                    let idx = GDT_FIRST_TSS as int + 2 * core_id;
                    &&& final(self).entries[idx] == spec_tss_descriptor_low(
                        tss_base as u64,
                        (TSS_SIZE - 1) as u64,
                    )
                    &&& final(self).entries[idx + 1] == spec_tss_descriptor_high(tss_base as u64)
                    &&& forall|j: int|
                        0 <= j < GDT_ENTRIES && j != idx && j != idx + 1
                            ==> final(self).entries[j] == old(self).entries[j]
                    &&& final(self).tss.len() > core_id
                    &&& match final(self).tss[core_id as int] {
                        Some(tss) => {
                            &&& tss.base == tss_base
                            &&& tss.rsp0 == current_stack_address + KERNEL_STACK_SIZE
                                - STACK_TOP_OFFSET
                            &&& tss.ist.len() == IST_ENTRIES
                            &&& spec_fresh_interrupt_stacks(*old(mm), *final(mm), tss.ist@)
                        },
                        None => false,
                    }
                    &&& forall|c: int|
                        0 <= c < old(self).tss.len() && c != core_id ==> final(self).tss[c] == old(
                            self,
                        ).tss[c]
                    &&& final(self).base == old(self).base
                },
                Err(e) => {
                    &&& e == AllocError::OutOfMemory
                    &&& *final(self) == *old(self)
                    &&& {
                        let size = crate::mm::spec_allocation_size(KERNEL_STACK_SIZE as int);
                        ||| forall|i: int|
                            0 <= i < final(mm).physical.list.regions.len()
                                ==> !final(mm).physical.list.extent_fits_aligned(
                                i,
                                size,
                                BASE_PAGE_SIZE as int,
                            )
                        ||| forall|i: int|
                            0 <= i < final(mm).virtual_memory.list.regions.len()
                                ==> !final(mm).virtual_memory.list.extent_fits_aligned(
                                i,
                                size,
                                BASE_PAGE_SIZE as int,
                            )
                    }
                },
            },
    {
        let rsp0 = current_stack_address + (KERNEL_STACK_SIZE as u64) - (STACK_TOP_OFFSET as u64);
        let mut ist: Vec<u64> = Vec::new();
        let ghost mut bases: Seq<int> = Seq::empty();
        let mut i: usize = 0;
        while i < IST_ENTRIES
            invariant
                old(mm).wf(),
                mm.wf(),
                mm.bounds_unchanged(*old(mm)),
                i <= IST_ENTRIES,
                ist.len() == i,
                bases.len() == i,
                self == old(self),
                forall|a: int| mm.physical.is_free(a) ==> old(mm).physical.is_free(a),
                forall|a: int| mm.virtual_memory.is_free(a) ==> old(mm).virtual_memory.is_free(a),
                forall|a: int| old(mm).page_table.covers(a) ==> mm.page_table.covers(a),
                forall|k: int|
                    0 <= k < i ==> #[trigger] spec_fresh_interrupt_stack(
                        *old(mm),
                        *mm,
                        ist[k] as int,
                        bases[k],
                    ),
                forall|k1: int, k2: int|
                    0 <= k1 < k2 < i ==> bases[k1] + KERNEL_STACK_SIZE <= bases[k2] || bases[k2]
                        + KERNEL_STACK_SIZE <= bases[k1],
            decreases IST_ENTRIES - i,
        {
            let ghost prev = *mm;
            let stack = match mm.allocate(KERNEL_STACK_SIZE, true) {
                Ok(v) => v,
                Err(_) => {
                    return Err(AllocError::OutOfMemory);
                },
            };
            proof {
                crate::align::lemma_align_up_properties(
                    KERNEL_STACK_SIZE as int,
                    BASE_PAGE_SIZE as int,
                );
                crate::align::lemma_aligned_is_fixed_point(
                    KERNEL_STACK_SIZE as int,
                    BASE_PAGE_SIZE as int,
                );
            }
            ist.push(((stack + KERNEL_STACK_SIZE) - STACK_TOP_OFFSET) as u64);
            proof {
                bases = bases.push(stack as int);
                // The new stack stays consumed and mapped, and the earlier
                // stacks stay so as well: the free ranges only shrink and
                // coverage only grows.
                assert forall|k: int|
                    0 <= k < i + 1 implies #[trigger] spec_fresh_interrupt_stack(
                    *old(mm),
                    *mm,
                    ist[k] as int,
                    bases[k],
                ) by {
                    if k < i {
                        assert(spec_fresh_interrupt_stack(
                            *old(mm),
                            prev,
                            ist[k] as int,
                            bases[k],
                        ));
                        assert forall|a: int|
                            bases[k] <= a < bases[k] + KERNEL_STACK_SIZE implies {
                            &&& !mm.virtual_memory.is_free(a)
                            &&& mm.page_table.covers(a)
                        } by {
                            assert(!prev.virtual_memory.is_free(a));
                            assert(prev.page_table.covers(a));
                        }
                    } else {
                        assert(ist[k] as int == stack + KERNEL_STACK_SIZE - STACK_TOP_OFFSET);
                        assert forall|a: int|
                            stack <= a < stack + KERNEL_STACK_SIZE implies old(
                        mm).virtual_memory.is_free(a) by {
                            assert(prev.virtual_memory.is_free(a));
                        }
                    }
                }
                // The new stack is disjoint from every earlier one: the
                // earlier ranges were already out of the free pool the new
                // one was carved from.
                assert forall|k1: int, k2: int|
                    0 <= k1 < k2 < i + 1 implies bases[k1] + KERNEL_STACK_SIZE <= bases[k2]
                    || bases[k2] + KERNEL_STACK_SIZE <= bases[k1] by {
                    if k2 == i {
                        assert(spec_fresh_interrupt_stack(
                            *old(mm),
                            prev,
                            ist[k1] as int,
                            bases[k1],
                        ));
                        crate::mm::lemma_live_extents_disjoint(
                            prev.virtual_memory,
                            bases[k1],
                            KERNEL_STACK_SIZE as int,
                            stack as int,
                            KERNEL_STACK_SIZE as int,
                        );
                    }
                }
            }
            i += 1;
        }
        let ghost ist_view = ist@;
        let idx = GDT_FIRST_TSS as usize + core_id * 2;
        let (low, high) = build_tss_descriptor(tss_base as u64, (TSS_SIZE - 1) as u64);
        self.entries.set(idx, low);
        self.entries.set(idx + 1, high);
        while self.tss.len() <= core_id
            invariant
                self.entries@ == old(self).entries@.update(idx as int, low).update(
                    idx as int + 1,
                    high,
                ),
                self.base == old(self).base,
                self.tss.len() >= old(self).tss.len(),
                forall|c: int|
                    0 <= c < old(self).tss.len() ==> self.tss[c] == old(self).tss[c],
            decreases core_id + 1 - self.tss.len(),
        {
            self.tss.push(None);
        }
        let tss = Tss { base: tss_base, rsp0, ist };
        self.tss.set(core_id, Some(tss));
        proof {
            assert(self.tss[core_id as int]->Some_0.ist@ == ist_view);
            assert forall|k: int|
                0 <= k < ist_view.len() implies #[trigger] spec_fresh_interrupt_stack_at(
                *old(mm),
                *mm,
                ist_view,
                k,
            ) by {
                assert(spec_fresh_interrupt_stack(
                    *old(mm),
                    *mm,
                    ist_view[k] as int,
                    bases[k],
                ));
            }
            assert forall|k1: int, k2: int|
                0 <= k1 < k2 < ist_view.len() implies ist_view[k1] != ist_view[k2] by {
                assert(spec_fresh_interrupt_stack(
                    *old(mm),
                    *mm,
                    ist_view[k1] as int,
                    bases[k1],
                ));
                assert(spec_fresh_interrupt_stack(
                    *old(mm),
                    *mm,
                    ist_view[k2] as int,
                    bases[k2],
                ));
                assert(bases[k1] + KERNEL_STACK_SIZE <= bases[k2] || bases[k2]
                    + KERNEL_STACK_SIZE <= bases[k1]);
            }
            assert(spec_fresh_interrupt_stacks(*old(mm), *mm, ist_view));
        }
        Ok(())
    }

    /// The ring-0 boot stack top recorded for a core.
    pub fn get_boot_stacks(&self, core_id: usize) -> (r: usize)
        requires
            core_id < self.tss.len(),
            self.tss[core_id as int] is Some,
        ensures
            r == self.tss[core_id as int]->Some_0.rsp0 as usize,
    {
        match &self.tss[core_id] {
            Some(tss) => tss.rsp0 as usize,
            None => 0,
        }
    }

    /// Points the core's ring-0 stack at the top of the current task's
    /// stack: the smaller boot-stack size for the idle task, the default
    /// task stack size for every other task.
    pub fn set_current_kernel_stack(
        &mut self,
        core_id: usize,
        status: TaskStatus,
        task_stack: usize,
    )
        requires
            core_id < old(self).tss.len(),
            old(self).tss[core_id as int] is Some,
            task_stack + DEFAULT_STACK_SIZE <= usize::MAX,
        ensures
            final(self).entries == old(self).entries,
            final(self).base == old(self).base,
            final(self).tss.len() == old(self).tss.len(),
            forall|c: int|
                0 <= c < old(self).tss.len() && c != core_id ==> final(self).tss[c] == old(
                    self,
                ).tss[c],
            match final(self).tss[core_id as int] {
                Some(tss) => {
                    let stack_size = if status == TaskStatus::Idle {
                        KERNEL_STACK_SIZE as int
                    } else {
                        DEFAULT_STACK_SIZE as int
                    };
                    &&& tss.rsp0 == task_stack + stack_size - STACK_TOP_OFFSET
                    &&& tss.base == old(self).tss[core_id as int]->Some_0.base
                    &&& tss.ist == old(self).tss[core_id as int]->Some_0.ist
                },
                None => false,
            },
    {
        let stack_size = if status == TaskStatus::Idle {
            KERNEL_STACK_SIZE
        } else {
            DEFAULT_STACK_SIZE
        };
        let rsp0 = ((task_stack + stack_size) - STACK_TOP_OFFSET) as u64;
        let old_tss = self.tss.remove(core_id);
        match old_tss {
            Some(tss) => {
                let updated = Tss { base: tss.base, rsp0, ist: tss.ist };
                self.tss.insert(core_id, Some(updated));
            },
            None => {
                self.tss.insert(core_id, None);
            },
        }
    }
}

} // verus!
