use hermit_core::mm::{AllocError, InitError, MemoryManager};
use hermit_core::paging::{PageSize, BASE_PAGE_SIZE};
use hermit_core::physicalmem::PhysicalMemory;

const MIB: usize = 1048576;
const VIRTUAL_END: usize = 0x800000000000;

fn boot_manager() -> MemoryManager {
    // 128 MiB of memory, the image filling the first 16 MiB, no 1 GiB pages.
    MemoryManager::init(0, 16 * MIB, 128 * MIB, VIRTUAL_END, false).unwrap()
}

#[test]
fn heap_init_small_machine() {
    let mm = boot_manager();
    assert_eq!(mm.kernel_start_address(), 0);
    assert_eq!(mm.kernel_end_address(), 16 * MIB);
    // Page-table reserve: 65 + 1 + 1 pages plus one large page.
    let reserved = 67 * 4096 + 2 * MIB;
    let virt_size = (128 * MIB - 16 * MIB - reserved) / (2 * MIB) * (2 * MIB);
    // The heap base is the first 2 MiB-aligned free virtual address.
    assert_eq!(mm.task_heap_start(), 16 * MIB);
    assert_eq!(mm.task_heap_start() % (2 * MIB), 0);
    let heap_bytes = mm.task_heap_end() - mm.task_heap_start();
    assert_eq!(heap_bytes % (2 * MIB), 0);
    assert_eq!(heap_bytes, virt_size);
    assert!(heap_bytes <= 128 * MIB - 16 * MIB - reserved);
}

#[test]
fn heap_init_fails_without_memory() {
    let r = MemoryManager::init(0, 16 * MIB, 17 * MIB, VIRTUAL_END, false);
    assert_eq!(r.err(), Some(InitError::InsufficientMemory));
}

#[test]
fn allocate_maps_each_page() {
    let mut mm = boot_manager();
    let v = mm.allocate(2 * BASE_PAGE_SIZE, true).unwrap();
    assert_eq!(v % BASE_PAGE_SIZE, 0);
    let first = mm.page_table.get_page_table_entry(PageSize::Base, v).unwrap();
    let second = mm
        .page_table
        .get_page_table_entry(PageSize::Base, v + BASE_PAGE_SIZE)
        .unwrap();
    // Contiguous physical frames, with present, accessed, writable and
    // execute-disable flags.
    assert_eq!(second.address(), first.address() + BASE_PAGE_SIZE);
    assert_eq!(first.flags, 0x8000000000000023);
}

#[test]
fn lookup_misses_on_unmapped_addresses() {
    let mut mm = boot_manager();
    let v = mm.allocate(BASE_PAGE_SIZE, true).unwrap();
    let past_the_end = mm.page_table.get_page_table_entry(PageSize::Base, v + BASE_PAGE_SIZE);
    assert!(past_the_end.is_none());
}

#[test]
fn allocate_without_execute_disable_keeps_pages_executable() {
    let mut mm = boot_manager();
    let v = mm.allocate(BASE_PAGE_SIZE, false).unwrap();
    let entry = mm.page_table.get_page_table_entry(PageSize::Base, v).unwrap();
    assert_eq!(entry.flags, 0x23);
}

#[test]
fn allocate_iomem_is_execute_disabled() {
    let mut mm = boot_manager();
    let v = mm.allocate_iomem(BASE_PAGE_SIZE).unwrap();
    let entry = mm.page_table.get_page_table_entry(PageSize::Base, v).unwrap();
    assert_eq!(entry.flags, 0x8000000000000023);
}

#[test]
fn reallocation_reuses_the_freed_base() {
    let mut mm = boot_manager();
    let v1 = mm.allocate(BASE_PAGE_SIZE, true).unwrap();
    mm.deallocate(v1, BASE_PAGE_SIZE);
    let v2 = mm.allocate(BASE_PAGE_SIZE, true).unwrap();
    assert_eq!(v1, v2);
}

#[test]
fn distinct_live_allocations_get_distinct_bases() {
    let mut mm = boot_manager();
    let v1 = mm.allocate(3 * BASE_PAGE_SIZE, true).unwrap();
    let v2 = mm.allocate(BASE_PAGE_SIZE, true).unwrap();
    let v3 = mm.allocate(5 * BASE_PAGE_SIZE, false).unwrap();
    assert!(v1 != v2 && v2 != v3 && v1 != v3);
    assert!(v1 + 3 * BASE_PAGE_SIZE <= v2 || v2 + BASE_PAGE_SIZE <= v1);
    assert!(v2 + BASE_PAGE_SIZE <= v3 || v3 + 5 * BASE_PAGE_SIZE <= v2);
}

#[test]
fn zero_byte_request_reserves_one_page() {
    let mut mm = boot_manager();
    let a = mm.allocate(0, true).unwrap();
    let b = mm.allocate(BASE_PAGE_SIZE, true).unwrap();
    // The zero-byte request occupied one whole base page.
    assert_eq!(b, a + BASE_PAGE_SIZE);
}

#[test]
fn allocate_fails_when_memory_is_gone() {
    let mut mm = boot_manager();
    let r = mm.allocate(4096 * MIB, true);
    assert_eq!(r.err(), Some(AllocError::OutOfMemory));
}

#[test]
fn frame_allocator_rounds_and_aligns() {
    let mut phys = PhysicalMemory::init(4096, 11 * 4096);
    assert_eq!(phys.total_memory_size(), 11 * 4096);
    let a = phys.allocate(1).unwrap();
    assert_eq!(a, 4096);
    let b = phys.allocate(4097).unwrap();
    assert_eq!(b, 2 * 4096);
    let c = phys.allocate(4096).unwrap();
    assert_eq!(c, 4 * 4096);
}

#[test]
fn freed_neighbours_coalesce() {
    let mut phys = PhysicalMemory::init(4096, 11 * 4096);
    let a = phys.allocate(4096).unwrap();
    let b = phys.allocate(4096).unwrap();
    let c = phys.allocate(4096).unwrap();
    phys.deallocate(a, 4096);
    phys.deallocate(b, 4096);
    // A two-page request only fits the coalesced extent at the front.
    let d = phys.allocate(2 * 4096).unwrap();
    assert_eq!(d, a);
    phys.deallocate(c, 4096);
}

#[test]
fn aligned_allocation_carves_the_middle() {
    let mut phys = PhysicalMemory::init(4096, 64 * 4096);
    let a = phys.allocate_aligned(8 * 4096, 8 * 4096).unwrap();
    assert_eq!(a % (8 * 4096), 0);
    assert_eq!(a, 8 * 4096);
    // The fragment before the aligned extent is still free.
    let b = phys.allocate(4096).unwrap();
    assert_eq!(b, 4096);
}

#[test]
fn huge_pages_align_the_heap_when_supported() {
    // 4 GiB of memory, 1 GiB pages supported: the heap base is 1 GiB
    // aligned.
    let gib = 1024 * MIB;
    let mm = MemoryManager::init(0, 16 * MIB, 4 * gib, VIRTUAL_END, true).unwrap();
    assert_eq!(mm.task_heap_start() % gib, 0);
    assert!(mm.task_heap_end() > mm.task_heap_start());
}
