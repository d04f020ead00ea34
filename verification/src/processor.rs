//! CPU feature detection, per-core control-register configuration, the
//! floating-point save area, and the timestamp-based timer arithmetic.
//!
//! Reading the CPUID leaves, the model-specific registers and the control
//! registers, and writing any of them back, is privileged machine access
//! that happens at the crate's edge; the functions here take those raw
//! values and make every decision the kernel bases on them.

use vstd::prelude::*;

verus! {

/// System-call extensions enable bit of the extended-feature register.
pub const EFER_SCE: u64 = 1;

/// Long-mode-active bit of the extended-feature register.
pub const EFER_LMA: u64 = 0x400;

/// No-execute enable bit of the extended-feature register.
pub const EFER_NXE: u64 = 0x800;

/// Monitor-coprocessor bit of control register 0.
pub const CR0_MONITOR_COPROCESSOR: u64 = 2;

/// Coprocessor-emulation bit of control register 0.
pub const CR0_EMULATE_COPROCESSOR: u64 = 4;

/// Task-switched bit of control register 0; set so that the first
/// floating-point use of a task traps and loads its state lazily.
pub const CR0_TASK_SWITCHED: u64 = 8;

/// Numeric-error bit of control register 0.
pub const CR0_NUMERIC_ERROR: u64 = 0x20;

/// Write-protect bit of control register 0.
pub const CR0_WRITE_PROTECT: u64 = 0x10000;

/// Not-write-through bit of control register 0.
pub const CR0_NOT_WRITE_THROUGH: u64 = 0x20000000;

/// Cache-disable bit of control register 0.
pub const CR0_CACHE_DISABLE: u64 = 0x40000000;

/// Machine-check enable bit of control register 4.
pub const CR4_ENABLE_MACHINE_CHECK: u64 = 0x40;

/// Fast save/restore enable bit of control register 4.
pub const CR4_ENABLE_SSE: u64 = 0x200;

/// Unmasked-exceptions bit of control register 4.
pub const CR4_UNMASKED_SSE: u64 = 0x400;

/// Enable bit of control register 4 for the segment-base instructions that
/// thread-local storage needs.
pub const CR4_ENABLE_FSGSBASE: u64 = 0x10000;

/// Extended-state save enable bit of control register 4.
pub const CR4_ENABLE_OS_XSAVE: u64 = 0x40000;

/// Legacy floating-point state bit of the extended control register.
pub const XCR0_FPU_MMX_STATE: u64 = 1;

/// Streaming-extension state bit of the extended control register.
pub const XCR0_SSE_STATE: u64 = 2;

/// Advanced-vector-extension state bit of the extended control register.
pub const XCR0_AVX_STATE: u64 = 4;

/// Which instruction sequence reads the time-stamp counter.
#[derive(Clone, Copy, Debug, PartialEq, Eq, Structural)]
pub enum TimestampSource {
    /// Fenced plain counter read.
    Rdtsc,
    /// The serialising counter read, taken when the processor has it.
    Rdtscp,
}

/// The raw capability bits the boot CPU reports, as read from the CPUID
/// leaves at the crate's edge.
#[derive(Clone, Copy, Debug, PartialEq, Eq, Structural)]
pub struct CpuFeatureSnapshot {
    pub physical_address_bits: u8,
    pub linear_address_bits: u8,
    pub has_1gib_pages: bool,
    pub has_avx: bool,
    pub has_rdrand: bool,
    pub has_tsc_deadline: bool,
    pub has_x2apic: bool,
    pub has_xsave: bool,
    pub has_fsgsbase: bool,
    pub has_rdtscp: bool,
}

/// The process-wide feature record: written once at boot, read everywhere.
#[derive(Clone, Copy, Debug, PartialEq, Eq, Structural)]
pub struct CpuFeatures {
    pub physical_address_bits: u8,
    pub linear_address_bits: u8,
    pub supports_1gib_pages: bool,
    pub supports_avx: bool,
    pub supports_rdrand: bool,
    pub supports_tsc_deadline: bool,
    pub supports_x2apic: bool,
    pub supports_xsave: bool,
    pub supports_fsgs: bool,
    pub timestamp_source: TimestampSource,
}

/// Builds the feature record from what CPUID reported, and installs the
/// serialising timestamp read when the processor offers it.
pub fn detect_features(snapshot: CpuFeatureSnapshot) -> (r: CpuFeatures)
    ensures
        r.physical_address_bits == snapshot.physical_address_bits,
        r.linear_address_bits == snapshot.linear_address_bits,
        r.supports_1gib_pages == snapshot.has_1gib_pages,
        r.supports_avx == snapshot.has_avx,
        r.supports_rdrand == snapshot.has_rdrand,
        r.supports_tsc_deadline == snapshot.has_tsc_deadline,
        r.supports_x2apic == snapshot.has_x2apic,
        r.supports_xsave == snapshot.has_xsave,
        r.supports_fsgs == snapshot.has_fsgsbase,
        r.timestamp_source == if snapshot.has_rdtscp {
            TimestampSource::Rdtscp
        } else {
            TimestampSource::Rdtsc
        },
{
    CpuFeatures {
        physical_address_bits: snapshot.physical_address_bits,
        linear_address_bits: snapshot.linear_address_bits,
        supports_1gib_pages: snapshot.has_1gib_pages,
        supports_avx: snapshot.has_avx,
        supports_rdrand: snapshot.has_rdrand,
        supports_tsc_deadline: snapshot.has_tsc_deadline,
        supports_x2apic: snapshot.has_x2apic,
        supports_xsave: snapshot.has_xsave,
        supports_fsgs: snapshot.has_fsgsbase,
        timestamp_source: if snapshot.has_rdtscp {
            TimestampSource::Rdtscp
        } else {
            TimestampSource::Rdtsc
        },
    }
}

impl CpuFeatures {
    /// Bits of a physical address the processor decodes.
    pub fn get_physical_address_bits(&self) -> (r: u8)
        ensures
            r == self.physical_address_bits,
    {
        self.physical_address_bits
    }

    /// Bits of a linear address the processor decodes.
    pub fn get_linear_address_bits(&self) -> (r: u8)
        ensures
            r == self.linear_address_bits,
    {
        self.linear_address_bits
    }

    /// Whether 1 GiB pages can be mapped.
    pub fn supports_1gib_pages(&self) -> (r: bool)
        ensures
            r == self.supports_1gib_pages,
    {
        self.supports_1gib_pages
    }

    /// Whether the advanced vector extensions are available.
    pub fn supports_avx(&self) -> (r: bool)
        ensures
            r == self.supports_avx,
    {
        self.supports_avx
    }

    /// Whether the timer supports counter deadlines.
    pub fn supports_tsc_deadline(&self) -> (r: bool)
        ensures
            r == self.supports_tsc_deadline,
    {
        self.supports_tsc_deadline
    }

    /// Whether the extended interrupt controller mode is available.
    pub fn supports_x2apic(&self) -> (r: bool)
        ensures
            r == self.supports_x2apic,
    {
        self.supports_x2apic
    }

    /// Whether extended-state save and restore is available.
    pub fn supports_xsave(&self) -> (r: bool)
        ensures
            r == self.supports_xsave,
    {
        self.supports_xsave
    }

    /// Whether the segment-base instructions are available.
    pub fn supports_fsgs(&self) -> (r: bool)
        ensures
            r == self.supports_fsgs,
    {
        self.supports_fsgs
    }
}

/// The per-core configuration cannot proceed.
#[derive(Clone, Copy, Debug, PartialEq, Eq, Structural)]
pub enum ConfigureError {
    /// The segment-base instructions are missing; thread-local storage
    /// cannot work, and the kernel halts.
    FsgsbaseMissing,
}

/// The register values one core must install: computed here, written by
/// privileged code at the crate's edge.
#[derive(Clone, Copy, Debug, PartialEq, Eq, Structural)]
pub struct CpuConfigPlan {
    /// New extended-feature register value.
    pub efer: u64,
    /// New control register 0 value.
    pub cr0: u64,
    /// New control register 4 value.
    pub cr4: u64,
    /// New extended control register value, when extended state saving is
    /// available.
    pub xcr0: Option<u64>,
    /// The segment base used for thread-local storage starts at zero.
    pub fs_base: u64,
}

/// Computes the per-core register configuration from the current register
/// values: long mode, system calls and no-execute in the extended-feature
/// register; floating point enabled lazily, write protection on and caching
/// on in control register 0; machine checks, fast floating-point save and
/// the segment-base instructions in control register 4; and the extended
/// state components when saving them is possible. Fails exactly when the
/// segment-base instructions are missing.
pub fn configure(features: &CpuFeatures, efer: u64, cr0: u64, cr4: u64, xcr0: u64) -> (r: Result<
    CpuConfigPlan,
    ConfigureError,
>)
    ensures
        match r {
            Ok(plan) => {
                &&& features.supports_fsgs
                &&& plan.efer == efer | EFER_LMA | EFER_SCE | EFER_NXE
                &&& plan.cr0 == (cr0 | CR0_MONITOR_COPROCESSOR | CR0_NUMERIC_ERROR
                    | CR0_TASK_SWITCHED | CR0_WRITE_PROTECT) & !(CR0_EMULATE_COPROCESSOR
                    | CR0_CACHE_DISABLE | CR0_NOT_WRITE_THROUGH)
                &&& plan.cr4 == (cr4 | CR4_ENABLE_MACHINE_CHECK | CR4_ENABLE_SSE | CR4_UNMASKED_SSE
                    | CR4_ENABLE_FSGSBASE) | (if features.supports_xsave {
                    CR4_ENABLE_OS_XSAVE
                } else {
                    0
                })
                &&& plan.xcr0 == (if features.supports_xsave {
                    Some(
                        (xcr0 | XCR0_FPU_MMX_STATE | XCR0_SSE_STATE) | (if features.supports_avx {
                            XCR0_AVX_STATE
                        } else {
                            0
                        }),
                    )
                } else {
                    Option::<u64>::None
                })
                &&& plan.fs_base == 0
            },
            Err(e) => {
                &&& e == ConfigureError::FsgsbaseMissing
                &&& !features.supports_fsgs
            },
        },
{
    if !features.supports_fsgs {
        return Err(ConfigureError::FsgsbaseMissing);
    }
    let new_efer = efer | EFER_LMA | EFER_SCE | EFER_NXE;
    let new_cr0 = (cr0 | CR0_MONITOR_COPROCESSOR | CR0_NUMERIC_ERROR | CR0_TASK_SWITCHED
        | CR0_WRITE_PROTECT) & !(CR0_EMULATE_COPROCESSOR | CR0_CACHE_DISABLE
        | CR0_NOT_WRITE_THROUGH);
    let new_cr4 = (cr4 | CR4_ENABLE_MACHINE_CHECK | CR4_ENABLE_SSE | CR4_UNMASKED_SSE
        | CR4_ENABLE_FSGSBASE) | (if features.supports_xsave {
        CR4_ENABLE_OS_XSAVE
    } else {
        0
    });
    let new_xcr0 = if features.supports_xsave {
        Some(
            (xcr0 | XCR0_FPU_MMX_STATE | XCR0_SSE_STATE) | (if features.supports_avx {
                XCR0_AVX_STATE
            } else {
                0
            }),
        )
    } else {
        None
    };
    Ok(CpuConfigPlan { efer: new_efer, cr0: new_cr0, cr4: new_cr4, xcr0: new_xcr0, fs_base: 0 })
}

/// The legacy x87 and streaming-extension region of the save area.
pub struct XSaveLegacyRegion {
    pub fpu_control_word: u16,
    pub fpu_status_word: u16,
    pub fpu_tag_word: u16,
    pub fpu_opcode: u16,
    pub fpu_instruction_pointer: u32,
    pub fpu_instruction_pointer_high_or_cs: u32,
    pub fpu_data_pointer: u32,
    pub fpu_data_pointer_high_or_ds: u32,
    pub mxcsr: u32,
    pub mxcsr_mask: u32,
    pub st_space: [u8; 128],
    pub xmm_space: [u8; 256],
    pub padding: [u8; 96],
}

/// The save-area header naming the stored state components.
pub struct XSaveHeader {
    pub xstate_bv: u64,
    pub xcomp_bv: u64,
    pub reserved: [u64; 6],
}

/// High halves of the advanced-vector registers.
pub struct XSaveAVXState {
    pub ymmh_space: [u8; 256],
}

/// Save area of the lightweight-profiling extension.
pub struct XSaveLWPState {
    pub lwpcb_address: u64,
    pub flags: u32,
    pub buffer_head_offset: u32,
    pub buffer_base: u64,
    pub buffer_size: u32,
    pub filters: u32,
    pub saved_event_record: [u64; 4],
    pub event_counter: [u32; 16],
}

/// The bound registers of the memory-protection extension.
pub struct XSaveBndregs {
    pub bound_registers: [u8; 64],
}

/// Configuration and status of the memory-protection extension.
pub struct XSaveBndcsr {
    pub bndcfgu_register: u64,
    pub bndstatus_register: u64,
}

/// The extended processor state saved and restored per task: the legacy
/// region, the header, and the component areas. The hardware instructions
/// that fill and load it run at the crate's edge on a layout-compatible
/// copy.
pub struct FPUState {
    pub legacy_region: XSaveLegacyRegion,
    pub header: XSaveHeader,
    pub avx_state: XSaveAVXState,
    pub lwp_state: XSaveLWPState,
    pub bndregs: XSaveBndregs,
    pub bndcsr: XSaveBndcsr,
}

impl FPUState {
    /// The processor's documented reset state: default control word, all
    /// tags empty, default exception mask, everything else zero.
    pub fn new() -> (r: FPUState)
        ensures
            r.legacy_region.fpu_control_word == 0x37F,
            r.legacy_region.fpu_status_word == 0,
            r.legacy_region.fpu_tag_word == 0xFFFF,
            r.legacy_region.fpu_opcode == 0,
            r.legacy_region.fpu_instruction_pointer == 0,
            r.legacy_region.fpu_instruction_pointer_high_or_cs == 0,
            r.legacy_region.fpu_data_pointer == 0,
            r.legacy_region.fpu_data_pointer_high_or_ds == 0,
            r.legacy_region.mxcsr == 0x1F80,
            r.legacy_region.mxcsr_mask == 0,
            forall|i: int| 0 <= i < 128 ==> r.legacy_region.st_space[i] == 0,
            forall|i: int| 0 <= i < 256 ==> r.legacy_region.xmm_space[i] == 0,
            r.header.xstate_bv == 0,
            r.header.xcomp_bv == 0,
            forall|i: int| 0 <= i < 256 ==> r.avx_state.ymmh_space[i] == 0,
            r.lwp_state.lwpcb_address == 0,
            r.lwp_state.flags == 0,
            r.lwp_state.buffer_head_offset == 0,
            r.lwp_state.buffer_base == 0,
            r.lwp_state.buffer_size == 0,
            r.lwp_state.filters == 0,
            forall|i: int| 0 <= i < 96 ==> r.legacy_region.padding[i] == 0,
            forall|i: int| 0 <= i < 6 ==> r.header.reserved[i] == 0,
            forall|i: int| 0 <= i < 4 ==> r.lwp_state.saved_event_record[i] == 0,
            forall|i: int| 0 <= i < 16 ==> r.lwp_state.event_counter[i] == 0,
            forall|i: int| 0 <= i < 64 ==> r.bndregs.bound_registers[i] == 0,
            r.bndcsr.bndcfgu_register == 0,
            r.bndcsr.bndstatus_register == 0,
    {
        FPUState {
            legacy_region: XSaveLegacyRegion {
                fpu_control_word: 0x37F,
                fpu_status_word: 0,
                fpu_tag_word: 0xFFFF,
                fpu_opcode: 0,
                fpu_instruction_pointer: 0,
                fpu_instruction_pointer_high_or_cs: 0,
                fpu_data_pointer: 0,
                fpu_data_pointer_high_or_ds: 0,
                mxcsr: 0x1F80,
                mxcsr_mask: 0,
                st_space: [0; 128],
                xmm_space: [0; 256],
                padding: [0; 96],
            },
            header: XSaveHeader { xstate_bv: 0, xcomp_bv: 0, reserved: [0; 6] },
            avx_state: XSaveAVXState { ymmh_space: [0; 256] },
            lwp_state: XSaveLWPState {
                lwpcb_address: 0,
                flags: 0,
                buffer_head_offset: 0,
                buffer_base: 0,
                buffer_size: 0,
                filters: 0,
                saved_event_record: [0; 4],
                event_counter: [0; 16],
            },
            bndregs: XSaveBndregs { bound_registers: [0; 64] },
            bndcsr: XSaveBndcsr { bndcfgu_register: 0, bndstatus_register: 0 },
        }
    }
}

/// Index of the most significant set bit, or nothing for zero.
pub fn msb(value: u64) -> (r: Option<u64>)
    ensures
        match r {
            Some(i) => i < 64 && value >> i == 1,
            None => value == 0,
        },
{
    if value == 0 {
        return None;
    }
    let mut v: u64 = value;
    let mut i: u64 = 0;
    proof {
        assert(value >> 0u64 == value) by (bit_vector);
    }
    while v > 1
        invariant
            v == value >> i,
            i < 64,
            v >= 1,
        decreases v,
    {
        proof {
            assert(value >> 63u64 < 2) by (bit_vector);
            assert(i < 63) by {
                if i == 63 {
                    assert(v < 2);
                }
            }
            let ghost i_next = (i + 1) as u64;
            assert((value >> i) >> 1u64 == value >> i_next) by (bit_vector)
                requires
                    i_next == i + 1,
                    i < 63u64,
            ;
            assert(v >= 2 ==> (v >> 1u64 >= 1 && v >> 1u64 < v)) by (bit_vector);
        }
        v = v >> 1;
        i = i + 1;
    }
    Some(i)
}

/// Microseconds since boot: the time-stamp counter divided by the CPU
/// frequency, which gives the timer a one-microsecond resolution.
pub fn get_timer_ticks(timestamp: u64, frequency_mhz: u16) -> (r: u64)
    requires
        frequency_mhz > 0,
    ensures
        r == timestamp / (frequency_mhz as u64),
{
    timestamp / (frequency_mhz as u64)
}

/// The counter value at which a busy wait of `usecs` microseconds ends.
pub fn udelay_deadline(timestamp: u64, frequency_mhz: u16, usecs: u64) -> (r: u64)
    requires
        timestamp + (frequency_mhz as int) * usecs <= u64::MAX,
    ensures
        r == timestamp + (frequency_mhz as int) * usecs,
{
    timestamp + (frequency_mhz as u64) * usecs
}

} // verus!
