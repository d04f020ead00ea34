//! Core of a small x86-64 library operating system: the boot-time memory
//! manager (physical frames, virtual ranges, page-table mappings and the
//! kernel heap), the global descriptor table with per-core task-state
//! segments, CPU feature and frequency detection, a counting semaphore over a
//! priority wait queue, and the kernel message ring.

pub mod align;
pub mod config;
pub mod cpufreq;
pub mod freelist;
pub mod gdt;
pub mod kmsg;
pub mod mm;
pub mod paging;
pub mod physicalmem;
pub mod processor;
pub mod scheduler;
pub mod semaphore;
pub mod speedstep;
pub mod virtualmem;
