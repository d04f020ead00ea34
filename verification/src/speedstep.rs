//! Enhanced SpeedStep: decides from the machine-specific register values
//! whether and how to request the maximum performance state. Reading and
//! writing the registers is privileged access at the crate's edge.

use vstd::prelude::*;

verus! {

/// Enhanced-SpeedStep enable bit of the miscellaneous-features register.
pub const MISC_ENABLE_ENHANCED_SPEEDSTEP: u64 = 0x10000;

/// SpeedStep-lock bit of the miscellaneous-features register.
pub const MISC_ENABLE_SPEEDSTEP_LOCK: u64 = 0x100000;

/// Turbo-disable bit of the miscellaneous-features register.
pub const MISC_ENABLE_TURBO_DISABLE: u64 = 0x4000000000;

/// Turbo-request bit of the performance-control register.
pub const PERF_CTL_TURBO: u64 = 0x100000000;

/// What SpeedStep detection found on the boot CPU.
#[derive(Clone, Copy, Debug, PartialEq, Eq, Structural)]
pub struct CpuSpeedStep {
    pub eist_available: bool,
    pub eist_enabled: bool,
    pub eist_locked: bool,
    pub energy_bias_preference: bool,
    pub max_pstate: u8,
    pub is_turbo_pstate: bool,
}

impl CpuSpeedStep {
    /// Nothing detected yet.
    pub fn new() -> (r: CpuSpeedStep)
        ensures
            r == (CpuSpeedStep {
                eist_available: false,
                eist_enabled: false,
                eist_locked: false,
                energy_bias_preference: false,
                max_pstate: 0,
                is_turbo_pstate: false,
            }),
    {
        CpuSpeedStep {
            eist_available: false,
            eist_enabled: false,
            eist_locked: false,
            energy_bias_preference: false,
            max_pstate: 0,
            is_turbo_pstate: false,
        }
    }

    /// Reads the detection inputs: whether the processor reports the
    /// feature, the miscellaneous-features register, the platform-info and
    /// turbo-ratio registers, and whether an energy-bias preference
    /// register exists. Stops early when the feature is absent, disabled
    /// or locked; otherwise records the maximum performance state, taking
    /// the turbo ratio when turbo is not disabled and its ratio is higher.
    pub fn detect_features(
        &mut self,
        has_eist: bool,
        misc: u64,
        platform_info: u64,
        turbo_ratio_limit: u64,
        thermal_energy_bias: Option<bool>,
    )
        ensures
            !has_eist ==> *final(self) == (CpuSpeedStep { eist_available: false, ..*old(self) }),
            has_eist ==> {
                let enabled = misc & MISC_ENABLE_ENHANCED_SPEEDSTEP > 0;
                let locked = misc & MISC_ENABLE_SPEEDSTEP_LOCK > 0;
                let base_pstate = (platform_info >> 8) as u8;
                let turbo_pstate = turbo_ratio_limit as u8;
                let takes_turbo = misc & MISC_ENABLE_TURBO_DISABLE == 0 && turbo_pstate
                    > base_pstate;
                if !enabled || locked {
                    *final(self) == (CpuSpeedStep {
                        eist_available: true,
                        eist_enabled: enabled,
                        eist_locked: locked,
                        ..*old(self)
                    })
                } else {
                    *final(self) == (CpuSpeedStep {
                        eist_available: true,
                        eist_enabled: true,
                        eist_locked: false,
                        max_pstate: if takes_turbo {
                            turbo_pstate
                        } else {
                            base_pstate
                        },
                        is_turbo_pstate: if takes_turbo {
                            true
                        } else {
                            old(self).is_turbo_pstate
                        },
                        energy_bias_preference: match thermal_energy_bias {
                            Some(b) => b,
                            None => old(self).energy_bias_preference,
                        },
                    })
                }
            },
    {
        self.eist_available = has_eist;
        if !self.eist_available {
            return ;
        }
        self.eist_enabled = (misc & MISC_ENABLE_ENHANCED_SPEEDSTEP) > 0;
        self.eist_locked = (misc & MISC_ENABLE_SPEEDSTEP_LOCK) > 0;
        if !self.eist_enabled || self.eist_locked {
            return ;
        }
        self.max_pstate = #[verifier::truncate] ((platform_info >> 8) as u8);
        if (misc & MISC_ENABLE_TURBO_DISABLE) == 0 {
            let turbo_pstate = #[verifier::truncate] (turbo_ratio_limit as u8);
            if turbo_pstate > self.max_pstate {
                self.max_pstate = turbo_pstate;
                self.is_turbo_pstate = true;
            }
        }
        if let Some(b) = thermal_energy_bias {
            self.energy_bias_preference = b;
        }
    }

    /// The register writes a core performs to request the maximum
    /// performance state: clear the energy bias when the preference
    /// register exists, and write the performance-control value. Nothing
    /// is written when the feature is absent, disabled or locked.
    pub fn configure(&self) -> (r: SpeedStepPlan)
        ensures
            !(self.eist_available && self.eist_enabled && !self.eist_locked) ==> r == (
            SpeedStepPlan { write_energy_bias_zero: false, perf_ctl: None }),
            self.eist_available && self.eist_enabled && !self.eist_locked ==> {
                &&& r.write_energy_bias_zero == self.energy_bias_preference
                &&& r.perf_ctl == Some(
                    ((self.max_pstate as u64) << 8) | (if self.is_turbo_pstate {
                        PERF_CTL_TURBO
                    } else {
                        0
                    }),
                )
            },
    {
        if !self.eist_available || !self.eist_enabled || self.eist_locked {
            return SpeedStepPlan { write_energy_bias_zero: false, perf_ctl: None };
        }
        let mut perf_ctl_mask = (self.max_pstate as u64) << 8;
        proof {
            let ghost m = perf_ctl_mask;
            assert(m | 0u64 == m) by (bit_vector);
        }
        if self.is_turbo_pstate {
            perf_ctl_mask = perf_ctl_mask | PERF_CTL_TURBO;
        }
        SpeedStepPlan {
            write_energy_bias_zero: self.energy_bias_preference,
            perf_ctl: Some(perf_ctl_mask),
        }
    }
}

/// What a core should write to its performance registers.
#[derive(Clone, Copy, Debug, PartialEq, Eq, Structural)]
pub struct SpeedStepPlan {
    /// Write zero to the energy-bias preference register, requesting
    /// maximum performance.
    pub write_energy_bias_zero: bool,
    /// Value for the performance-control register, when one is to be
    /// written.
    pub perf_ctl: Option<u64>,
}

} // verus!
