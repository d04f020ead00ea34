//! CPU frequency detection: the hypervisor's boot-header hint, the command
//! line, the frequency printed in the CPUID brand string, and the timing
//! measurement against the programmable interval timer, tried in that
//! order. Reading the sources is the crate's edge; every decision and every
//! computation on what they yielded is made here.

use vstd::prelude::*;
use vstd::string::StringSliceAdditionalSpecFns;

verus! {

/// The reference frequency the measurement timer is programmed to, in
/// ticks per second.
pub const MEASUREMENT_FREQUENCY: u64 = 100;

/// How many timer ticks the measurement spans.
pub const MEASUREMENT_TICK_COUNT: u64 = 3;

/// Where the frequency value came from.
#[derive(Clone, Copy, Debug, PartialEq, Eq, Structural)]
pub enum CpuFrequencySources {
    Invalid,
    CommandLine,
    CpuIdBrandString,
    Measurement,
    Hypervisor,
}

/// The detected CPU frequency: written once at boot, read everywhere.
#[derive(Clone, Copy, Debug, PartialEq, Eq, Structural)]
pub struct CpuFrequency {
    pub mhz: u16,
    pub source: CpuFrequencySources,
}

/// The bytes `GHz` stand at position `i` of the brand string.
pub open spec fn spec_is_ghz_at(s: Seq<u8>, i: int) -> bool {
    &&& 0 <= i
    &&& i + 3 <= s.len()
    &&& s[i] == 71
    &&& s[i + 1] == 72
    &&& s[i + 2] == 122
}

/// The first position at or after `from` where `GHz` stands, if any.
pub open spec fn spec_find_ghz(s: Seq<u8>, from: int) -> Option<int>
    decreases s.len() - from,
{
    if from < 0 || from + 3 > s.len() {
        None
    } else if spec_is_ghz_at(s, from) {
        Some(from)
    } else {
        spec_find_ghz(s, from + 1)
    }
}

/// The byte is an ASCII decimal digit.
pub open spec fn spec_is_digit(b: u8) -> bool {
    48 <= b <= 57
}

/// The frequency in MHz printed in a brand string: the digits `D.DD`
/// immediately before the first `GHz`, when they are there.
pub open spec fn spec_brand_string_mhz(s: Seq<u8>) -> Option<u16> {
    match spec_find_ghz(s, 0) {
        None => None,
        Some(ghz) => if ghz < 4 {
            None
        } else if spec_is_digit(s[ghz - 4]) && s[ghz - 3] == 46 && spec_is_digit(s[ghz - 2])
            && spec_is_digit(s[ghz - 1]) {
            Some(
                ((s[ghz - 4] - 48) * 1000 + (s[ghz - 2] - 48) * 100 + (s[ghz - 1] - 48)
                    * 10) as u16,
            )
        } else {
            None
        },
    }
}

/// The MHz value a measurement of `cycle_count` counter increments over
/// the measurement span yields.
pub open spec fn spec_measured_mhz(cycle_count: int) -> int {
    (MEASUREMENT_FREQUENCY as int) * cycle_count / ((MEASUREMENT_TICK_COUNT as int) * 1000000)
}

/// What frequency detection as a whole yields from its four sources:
/// the hypervisor hint, the command-line value, the brand string, and,
/// when one could be taken, the timer measurement.
pub open spec fn spec_detect(
    hypervisor_cpu_freq: u32,
    cmdline_mhz: u16,
    brand_string: Seq<u8>,
    measured_cycles: Option<u64>,
) -> Option<(u16, CpuFrequencySources)> {
    if hypervisor_cpu_freq > 0 {
        Some((hypervisor_cpu_freq as u16, CpuFrequencySources::Hypervisor))
    } else if cmdline_mhz > 0 {
        Some((cmdline_mhz, CpuFrequencySources::CommandLine))
    } else if spec_brand_string_mhz(brand_string) is Some {
        Some((spec_brand_string_mhz(brand_string)->Some_0, CpuFrequencySources::CpuIdBrandString))
    } else {
        match measured_cycles {
            Some(cycles) => Some(
                (spec_measured_mhz(cycles as int) as u16, CpuFrequencySources::Measurement),
            ),
            None => None,
        }
    }
}

/// `spec_find_ghz` from the start returns `k` exactly when `GHz` stands at
/// `k` and nowhere before it.
proof fn lemma_find_ghz_first(s: Seq<u8>, from: int, k: int)
    requires
        0 <= from <= k,
        spec_is_ghz_at(s, k),
        forall|j: int| from <= j < k ==> !spec_is_ghz_at(s, j),
    ensures
        spec_find_ghz(s, from) == Some(k),
    decreases k - from,
{
    if from < k {
        lemma_find_ghz_first(s, from + 1, k);
    }
}

/// When `GHz` stands nowhere at or after `from`, the search finds nothing.
proof fn lemma_find_ghz_none(s: Seq<u8>, from: int)
    requires
        0 <= from,
        forall|j: int| from <= j ==> !spec_is_ghz_at(s, j),
    ensures
        spec_find_ghz(s, from) == Option::<int>::None,
    decreases s.len() - from,
{
    if from + 3 <= s.len() {
        lemma_find_ghz_none(s, from + 1);
    }
}

impl CpuFrequency {
    /// Nothing detected yet.
    pub fn new() -> (r: CpuFrequency)
        ensures
            r.mhz == 0,
            r.source == CpuFrequencySources::Invalid,
    {
        CpuFrequency { mhz: 0, source: CpuFrequencySources::Invalid }
    }

    /// The detected frequency in MHz.
    pub fn get(&self) -> (r: u16)
        ensures
            r == self.mhz,
    {
        self.mhz
    }

    /// Takes the frequency the command line gave, when one was given.
    pub fn detect_from_cmdline(&mut self, cmdline_mhz: u16) -> (r: Result<(), ()>)
        ensures
            cmdline_mhz > 0 ==> r is Ok && final(self).mhz == cmdline_mhz && final(self).source
                == CpuFrequencySources::CommandLine,
            cmdline_mhz == 0 ==> r is Err && *final(self) == *old(self),
    {
        if cmdline_mhz > 0 {
            self.mhz = cmdline_mhz;
            self.source = CpuFrequencySources::CommandLine;
            Ok(())
        } else {
            Err(())
        }
    }

    /// Takes the frequency the loader's boot header carried, when the
    /// hypervisor filled it in.
    pub fn detect_from_hypervisor(&mut self, cpu_freq: u32) -> (r: Result<(), ()>)
        ensures
            cpu_freq > 0 ==> r is Ok && final(self).mhz == cpu_freq as u16 && final(self).source
                == CpuFrequencySources::Hypervisor,
            cpu_freq == 0 ==> r is Err && *final(self) == *old(self),
    {
        if cpu_freq > 0 {
            self.mhz = #[verifier::truncate] (cpu_freq as u16);
            self.source = CpuFrequencySources::Hypervisor;
            Ok(())
        } else {
            Err(())
        }
    }

    /// Parses the frequency out of the CPUID brand string: the four
    /// characters `D.DD` before the first `GHz` give the frequency in
    /// units of ten MHz.
    #[verifier::loop_isolation(false)]
    pub fn detect_from_cpuid_brand_string(&mut self, brand_string: &str) -> (r: Result<(), ()>)
        ensures
            match spec_brand_string_mhz(brand_string.spec_bytes()) {
                Some(mhz) => r is Ok && final(self).mhz == mhz && final(self).source
                    == CpuFrequencySources::CpuIdBrandString,
                None => r is Err && *final(self) == *old(self),
            },
    {
        let bytes = brand_string.as_bytes();
        let n = bytes.len();
        let ghost s = brand_string.spec_bytes();
        let mut i: usize = 0;
        while n >= 3 && i <= n - 3
            invariant
                *self == *old(self),
                s == bytes@,
                n == bytes.len(),
                i <= n,
                forall|j: int| 0 <= j < i ==> !spec_is_ghz_at(s, j),
            decreases n - i,
        {
            if bytes[i] == 71 && bytes[i + 1] == 72 && bytes[i + 2] == 122 {
                proof {
                    lemma_find_ghz_first(s, 0, i as int);
                }
                if i < 4 {
                    return Err(());
                }
                let thousand = bytes[i - 4];
                let decimal = bytes[i - 3];
                let hundred = bytes[i - 2];
                let ten = bytes[i - 1];
                if 48 <= thousand && thousand <= 57 && decimal == 46 && 48 <= hundred && hundred
                    <= 57 && 48 <= ten && ten <= 57 {
                    self.mhz = ((thousand - 48) as u16) * 1000 + ((hundred - 48) as u16) * 100 + ((
                    ten - 48) as u16) * 10;
                    self.source = CpuFrequencySources::CpuIdBrandString;
                    return Ok(());
                }
                return Err(());
            }
            i += 1;
        }
        proof {
            assert forall|j: int| 0 <= j implies !spec_is_ghz_at(s, j) by {
                if j + 3 <= s.len() {
                    assert(j < i);
                }
            }
            lemma_find_ghz_none(s, 0);
        }
        Err(())
    }

    /// Takes the frequency a timer measurement yielded: the counter
    /// increments over three ticks of the 100 Hz reference timer, scaled
    /// to MHz. Under the lightweight hypervisor no timer exists and no
    /// measurement can be taken.
    pub fn measure_frequency(&mut self, is_uhyve: bool, cycle_count: u64) -> (r: Result<(), ()>)
        requires
            (MEASUREMENT_FREQUENCY as int) * cycle_count <= u64::MAX,
        ensures
            is_uhyve ==> r is Err && *final(self) == *old(self),
            !is_uhyve ==> r is Ok && final(self).mhz == spec_measured_mhz(cycle_count as int) as u16
                && final(self).source == CpuFrequencySources::Measurement,
    {
        if is_uhyve {
            return Err(());
        }
        self.mhz = #[verifier::truncate] ((MEASUREMENT_FREQUENCY * cycle_count
            / (MEASUREMENT_TICK_COUNT * 1000000)) as u16);
        self.source = CpuFrequencySources::Measurement;
        Ok(())
    }

    /// Tries the four sources in order and takes the first that yields a
    /// frequency: hypervisor hint, command line, brand string, timer
    /// measurement. Fails, leaving the record invalid, exactly when every
    /// source fails; the kernel cannot continue then.
    pub fn detect(
        &mut self,
        hypervisor_cpu_freq: u32,
        cmdline_mhz: u16,
        brand_string: &str,
        measured_cycles: Option<u64>,
    ) -> (r: Result<(), ()>)
        requires
            measured_cycles is Some ==> (MEASUREMENT_FREQUENCY as int)
                * measured_cycles->Some_0 <= u64::MAX,
        ensures
            match spec_detect(
                hypervisor_cpu_freq,
                cmdline_mhz,
                brand_string.spec_bytes(),
                measured_cycles,
            ) {
                Some(result) => r is Ok && final(self).mhz == result.0 && final(self).source
                    == result.1,
                None => r is Err && *final(self) == *old(self),
            },
    {
        if self.detect_from_hypervisor(hypervisor_cpu_freq).is_ok() {
            return Ok(());
        }
        if self.detect_from_cmdline(cmdline_mhz).is_ok() {
            return Ok(());
        }
        if self.detect_from_cpuid_brand_string(brand_string).is_ok() {
            return Ok(());
        }
        match measured_cycles {
            Some(cycles) => self.measure_frequency(false, cycles),
            None => Err(()),
        }
    }
}

/// Law: frequency detection is a function of its inputs; two runs on the
/// same sources yield the same frequency and the same source.
pub proof fn lemma_detect_deterministic(
    hypervisor_cpu_freq: u32,
    cmdline_mhz: u16,
    brand_string: Seq<u8>,
    measured_cycles: Option<u64>,
    r1: Option<(u16, CpuFrequencySources)>,
    r2: Option<(u16, CpuFrequencySources)>,
)
    requires
        r1 == spec_detect(hypervisor_cpu_freq, cmdline_mhz, brand_string, measured_cycles),
        r2 == spec_detect(hypervisor_cpu_freq, cmdline_mhz, brand_string, measured_cycles),
    ensures
        r1 == r2,
{
}

/// Law: a measurement over three ticks of the reference timer yields a
/// non-zero frequency on any host fast enough to reach one MHz, as long
/// as the true value fits the record.
pub proof fn lemma_measurement_nonzero(cycle_count: int)
    requires
        30000 <= cycle_count,
        spec_measured_mhz(cycle_count) < 0x10000,
    ensures
        spec_measured_mhz(cycle_count) as u16 > 0,
{
    assert(spec_measured_mhz(cycle_count) >= 1) by {
        assert((MEASUREMENT_FREQUENCY as int) * cycle_count >= 3000000) by (nonlinear_arith)
            requires
                cycle_count >= 30000,
        ;
        assert((MEASUREMENT_FREQUENCY as int) * cycle_count / 3000000 >= 1) by {
            vstd::arithmetic::div_mod::lemma_div_is_ordered(
                3000000,
                (MEASUREMENT_FREQUENCY as int) * cycle_count,
                3000000,
            );
        }
    }
}

} // verus!
