use hermit_core::config::{DEFAULT_STACK_SIZE, KERNEL_STACK_SIZE};
use hermit_core::gdt::{Gdt, GDT_ENTRIES, IST_ENTRIES, TSS_SIZE};
use hermit_core::mm::MemoryManager;
use hermit_core::scheduler::TaskStatus;

const MIB: usize = 1048576;

fn boot_manager() -> MemoryManager {
    MemoryManager::init(0, 16 * MIB, 128 * MIB, 0x800000000000, false).unwrap()
}

// The 16-byte available-TSS descriptor for a base and limit, written out
// independently of the library, following the architectural layout.
fn expected_tss_descriptor(base: u64, limit: u64) -> (u64, u64) {
    let mut low = 0u64;
    low |= limit & 0xFFFF; // limit 15:0
    low |= (base & 0xFFFFFF) << 16; // base 23:0
    low |= 0x9 << 40; // type: available 64-bit TSS
    low |= 1 << 47; // present
    low |= ((limit >> 16) & 0xF) << 48; // limit 19:16
    low |= ((base >> 24) & 0xFF) << 56; // base 31:24
    let high = base >> 32; // base 63:32
    (low, high)
}

#[test]
fn fixed_descriptors_after_init() {
    let mut mm = boot_manager();
    let gdt = Gdt::init(&mut mm).unwrap();
    assert_eq!(gdt.entries.len(), GDT_ENTRIES);
    assert_eq!(gdt.entries[0], 0);
    // The classic x86-64 flat kernel code and data descriptors.
    assert_eq!(gdt.entries[1], 0x0020_9A00_0000_0000);
    assert_eq!(gdt.entries[2], 0x0000_9200_0000_0000);
    for i in 3..64 {
        assert_eq!(gdt.entries[i], 0);
    }
}

#[test]
fn four_cores_claim_their_slot_pairs() {
    let mut mm = boot_manager();
    let mut gdt = Gdt::init(&mut mm).unwrap();
    let bases: [usize; 4] = [0x200000, 0x13570000, 0xFEDC0000, 0x1_2345_6000];
    for (core, &base) in bases.iter().enumerate() {
        gdt.add_current_core(&mut mm, core, base, 0x400000).unwrap();
    }
    for (core, &base) in bases.iter().enumerate() {
        let idx = 3 + 2 * core;
        let (low, high) = expected_tss_descriptor(base as u64, (TSS_SIZE - 1) as u64);
        assert_eq!(gdt.entries[idx], low);
        assert_eq!(gdt.entries[idx + 1], high);
    }
    // No slot beyond the claimed pairs is written.
    for i in 11..64 {
        assert_eq!(gdt.entries[i], 0);
    }
    assert_eq!(gdt.entries[0], 0);
}

#[test]
fn tss_records_boot_stack_and_interrupt_stacks() {
    let mut mm = boot_manager();
    let mut gdt = Gdt::init(&mut mm).unwrap();
    gdt.add_current_core(&mut mm, 0, 0x200000, 0x400000).unwrap();
    let expected = 0x400000 + KERNEL_STACK_SIZE - 0x10;
    assert_eq!(gdt.get_boot_stacks(0), expected);
    let tss = gdt.tss[0].as_ref().unwrap();
    assert_eq!(tss.ist.len(), IST_ENTRIES);
    for &top in tss.ist.iter() {
        // Each interrupt stack top sits 16 bytes below the end of a
        // page-aligned stack allocation.
        assert_eq!((top as usize + 0x10) % 4096, 0);
    }
    // The four interrupt stacks are distinct allocations.
    for i in 0..IST_ENTRIES {
        for j in 0..i {
            assert_ne!(tss.ist[i], tss.ist[j]);
        }
    }
}

#[test]
fn task_switch_updates_the_ring0_stack() {
    let mut mm = boot_manager();
    let mut gdt = Gdt::init(&mut mm).unwrap();
    gdt.add_current_core(&mut mm, 0, 0x200000, 0x400000).unwrap();
    gdt.set_current_kernel_stack(0, TaskStatus::Running, 0x900000);
    let expected_task = (0x900000 + DEFAULT_STACK_SIZE - 0x10) as u64;
    assert_eq!(gdt.tss[0].as_ref().unwrap().rsp0, expected_task);
    gdt.set_current_kernel_stack(0, TaskStatus::Idle, 0x700000);
    let expected_idle = (0x700000 + KERNEL_STACK_SIZE - 0x10) as u64;
    assert_eq!(gdt.tss[0].as_ref().unwrap().rsp0, expected_idle);
}
