use hermit_core::cpufreq::{CpuFrequency, CpuFrequencySources};
use hermit_core::kmsg::{KmsgBuffer, KMSG_SIZE};
use hermit_core::processor::{
    configure, detect_features, get_timer_ticks, msb, udelay_deadline, ConfigureError,
    CpuFeatureSnapshot, FPUState, TimestampSource,
};
use hermit_core::speedstep::CpuSpeedStep;

fn snapshot() -> CpuFeatureSnapshot {
    CpuFeatureSnapshot {
        physical_address_bits: 39,
        linear_address_bits: 48,
        has_1gib_pages: true,
        has_avx: true,
        has_rdrand: true,
        has_tsc_deadline: false,
        has_x2apic: true,
        has_xsave: true,
        has_fsgsbase: true,
        has_rdtscp: true,
    }
}

#[test]
fn feature_record_mirrors_cpuid() {
    let f = detect_features(snapshot());
    assert_eq!(f.get_physical_address_bits(), 39);
    assert_eq!(f.get_linear_address_bits(), 48);
    assert!(f.supports_1gib_pages());
    assert!(f.supports_avx());
    assert!(!f.supports_tsc_deadline());
    assert!(f.supports_x2apic());
    assert!(f.supports_xsave());
    assert!(f.supports_fsgs());
    assert_eq!(f.timestamp_source, TimestampSource::Rdtscp);
    let mut without = snapshot();
    without.has_rdtscp = false;
    assert_eq!(detect_features(without).timestamp_source, TimestampSource::Rdtsc);
}

#[test]
fn configure_computes_the_register_values() {
    let f = detect_features(snapshot());
    let plan = configure(&f, 0x500, 0x60000015, 0x2000, 0x1).unwrap();
    assert_eq!(plan.efer, 0x500 | 0x400 | 0x1 | 0x800);
    assert_eq!(plan.cr0, 0x0001003B);
    assert_eq!(plan.cr4, 0x2000 | 0x40 | 0x200 | 0x400 | 0x10000 | 0x40000);
    assert_eq!(plan.xcr0, Some(0x7));
    assert_eq!(plan.fs_base, 0);
}

#[test]
fn configure_refuses_without_fsgsbase() {
    let mut s = snapshot();
    s.has_fsgsbase = false;
    let f = detect_features(s);
    assert_eq!(configure(&f, 0, 0, 0, 0).err(), Some(ConfigureError::FsgsbaseMissing));
}

#[test]
fn configure_without_xsave_leaves_extended_state_alone() {
    let mut s = snapshot();
    s.has_xsave = false;
    let f = detect_features(s);
    let plan = configure(&f, 0, 0, 0, 0).unwrap();
    assert_eq!(plan.xcr0, None);
    assert_eq!(plan.cr4 & 0x40000, 0);
}

#[test]
fn brand_string_parsing() {
    let mut freq = CpuFrequency::new();
    assert!(freq
        .detect_from_cpuid_brand_string("Intel(R) Core(TM) i7-8700K CPU @ 3.70GHz")
        .is_ok());
    assert_eq!(freq.get(), 3700);
    assert_eq!(freq.source, CpuFrequencySources::CpuIdBrandString);

    let mut freq2 = CpuFrequency::new();
    assert!(freq2.detect_from_cpuid_brand_string("Xeon @ 2.20GHz").is_ok());
    assert_eq!(freq2.get(), 2200);

    let mut bad = CpuFrequency::new();
    assert!(bad.detect_from_cpuid_brand_string("GHz at the front").is_err());
    assert!(bad.detect_from_cpuid_brand_string("no frequency here").is_err());
    assert!(bad.detect_from_cpuid_brand_string("runs at x.yzGHz speed").is_err());
    assert_eq!(bad.get(), 0);
    assert_eq!(bad.source, CpuFrequencySources::Invalid);
}

#[test]
fn detection_order_prefers_the_hypervisor() {
    let brand = "Intel(R) Xeon(R) CPU E5-2680 v2 @ 3.40GHz";
    let mut freq = CpuFrequency::new();
    assert!(freq.detect(2400, 0, brand, None).is_ok());
    assert_eq!(freq.get(), 2400);
    assert_eq!(freq.source, CpuFrequencySources::Hypervisor);

    let mut freq2 = CpuFrequency::new();
    assert!(freq2.detect(0, 0, brand, None).is_ok());
    assert_eq!(freq2.get(), 3400);
    assert_eq!(freq2.source, CpuFrequencySources::CpuIdBrandString);

    let mut freq3 = CpuFrequency::new();
    assert!(freq3.detect(0, 1800, brand, None).is_ok());
    assert_eq!(freq3.get(), 1800);
    assert_eq!(freq3.source, CpuFrequencySources::CommandLine);

    let mut freq4 = CpuFrequency::new();
    assert!(freq4.detect(0, 0, "plain brand", Some(72_000_000)).is_ok());
    assert_eq!(freq4.get(), 2400);
    assert_eq!(freq4.source, CpuFrequencySources::Measurement);

    let mut freq5 = CpuFrequency::new();
    assert!(freq5.detect(0, 0, "plain brand", None).is_err());
    assert_eq!(freq5.source, CpuFrequencySources::Invalid);
}

#[test]
fn detection_is_idempotent() {
    let brand = "Intel(R) Xeon(R) CPU E5-2680 v2 @ 3.40GHz";
    let mut first = CpuFrequency::new();
    let mut second = CpuFrequency::new();
    assert!(first.detect(0, 0, brand, Some(72_000_000)).is_ok());
    assert!(second.detect(0, 0, brand, Some(72_000_000)).is_ok());
    assert_eq!(first.get(), second.get());
    assert_eq!(first.source, second.source);
}

#[test]
fn measurement_over_three_ticks() {
    // One MHz is the slowest measurable host over three 100 Hz ticks.
    let mut freq = CpuFrequency::new();
    assert!(freq.measure_frequency(false, 30_000).is_ok());
    assert_eq!(freq.get(), 1);
    // A 2.4 GHz host counts 72 million cycles in 30 ms.
    let mut fast = CpuFrequency::new();
    assert!(fast.measure_frequency(false, 72_000_000).is_ok());
    assert_eq!(fast.get(), 2400);
    // Under the lightweight hypervisor no measurement is possible.
    let mut vm = CpuFrequency::new();
    assert!(vm.measure_frequency(true, 72_000_000).is_err());
}

#[test]
fn timer_ticks_and_delays() {
    assert_eq!(get_timer_ticks(2_000_000, 2000), 1000);
    assert_eq!(udelay_deadline(100, 2000, 50), 100 + 100_000);
}

#[test]
fn most_significant_bit() {
    assert_eq!(msb(0), None);
    assert_eq!(msb(1), Some(0));
    assert_eq!(msb(0x1234), Some(12));
    assert_eq!(msb(u64::MAX), Some(63));
    assert_eq!(msb(1 << 63), Some(63));
}

#[test]
fn fpu_state_reset_values() {
    let state = FPUState::new();
    assert_eq!(state.legacy_region.fpu_control_word, 0x37F);
    assert_eq!(state.legacy_region.fpu_tag_word, 0xFFFF);
    assert_eq!(state.legacy_region.mxcsr, 0x1F80);
    assert_eq!(state.legacy_region.fpu_status_word, 0);
    assert!(state.legacy_region.st_space.iter().all(|&b| b == 0));
    assert!(state.legacy_region.xmm_space.iter().all(|&b| b == 0));
    assert!(state.avx_state.ymmh_space.iter().all(|&b| b == 0));
    assert_eq!(state.header.xstate_bv, 0);
}

#[test]
fn speedstep_detection_and_plan() {
    let mut step = CpuSpeedStep::new();
    step.detect_features(false, 0, 0, 0, None);
    assert!(!step.eist_available);
    assert_eq!(step.configure().perf_ctl, None);

    let mut active = CpuSpeedStep::new();
    // Enabled, unlocked, turbo allowed; turbo ratio 44 beats base 40.
    active.detect_features(true, 0x10000, 40 << 8, 44, Some(true));
    assert!(active.eist_enabled && !active.eist_locked);
    assert_eq!(active.max_pstate, 44);
    assert!(active.is_turbo_pstate);
    let plan = active.configure();
    assert!(plan.write_energy_bias_zero);
    assert_eq!(plan.perf_ctl, Some((44 << 8) | (1 << 32)));

    let mut locked = CpuSpeedStep::new();
    locked.detect_features(true, 0x10000 | 0x100000, 40 << 8, 44, Some(true));
    assert!(locked.eist_locked);
    assert_eq!(locked.configure().perf_ctl, None);
}

#[test]
fn message_ring_wraps_and_keeps_its_sentinel() {
    let mut ring = KmsgBuffer::new();
    ring.write_byte(b'A');
    assert_eq!(ring.buffer[0], b'A');
    assert_eq!(ring.index, 1);
    for _ in 0..KMSG_SIZE {
        ring.write_byte(b'B');
    }
    // The last write wrapped around to the first slot.
    assert_eq!(ring.index, KMSG_SIZE + 1);
    assert_eq!(ring.buffer[0], b'B');
    assert_eq!(ring.buffer[1], b'B');
    // The sentinel byte past the ring is never overwritten.
    assert_eq!(ring.buffer[KMSG_SIZE], 0);
}
