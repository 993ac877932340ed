//! Platform timing capabilities.
//!
//! The embedding system probes the hardware (a cpuid-style feature query, a
//! cycle-counter read, a hypervisor leaf) and hands the raw reported values
//! to these functions; the decisions and conversions made on those values
//! are verified here.

use vstd::prelude::*;

verus! {

/// What the platform's timing collaborator reported when the logger was
/// initialized.
#[derive(Clone, Copy, PartialEq, Eq, Structural, Debug)]
pub struct PlatformCaps {
    /// A cycle counter exists.
    pub has_tsc: bool,
    /// The counter runs at a constant rate across power-state changes.
    pub has_invariant_tsc: bool,
    /// The counter's reading at initialization.
    pub counter: u64,
    /// Locally calibrated counter frequency, when one could be computed.
    pub tsc_frequency_hz: Option<u64>,
    /// Counter frequency reported by a virtualization host, when present.
    pub vmm_tsc_frequency_hz: Option<u64>,
}

/// Raw values of the counter-calibration leaf: the ratio of the counter to
/// the crystal clock, and the crystal's nominal frequency (zero when the
/// platform does not report it).
#[derive(Clone, Copy, PartialEq, Eq, Structural, Debug)]
pub struct TscInfo {
    pub denominator: u32,
    pub numerator: u32,
    pub nominal_frequency_hz: u32,
}

/// A counter is present: the feature leaf exists and reports one.
pub fn has_tsc(feature_tsc: Option<bool>) -> (r: bool)
    ensures
        r == (feature_tsc == Some(true)),
{
    match feature_tsc {
        Some(b) => b,
        None => false,
    }
}

/// The counter is invariant: the power-management leaf exists and says so.
pub fn has_invariant_tsc(apm_invariant_tsc: Option<bool>) -> (r: bool)
    ensures
        r == (apm_invariant_tsc == Some(true)),
{
    match apm_invariant_tsc {
        Some(b) => b,
        None => false,
    }
}

/// Counter reading on a platform without an accessible cycle counter: a
/// constant zero, which [`has_tsc`] directs callers never to rely on.
pub fn get_timestamp() -> (t: u64)
    ensures
        t == 0,
{
    0
}

/// The counter frequency derived from the calibration leaf: directly from
/// the crystal clock when its frequency is reported, else approximated from
/// the processor's base frequency, else unknown.
pub open spec fn spec_tsc_frequency_hz(info: Option<TscInfo>, base_mhz: Option<u16>) -> Option<
    u64,
> {
    match info {
        None => None,
        Some(t) => {
            if t.nominal_frequency_hz != 0 {
                if t.numerator != 0 && t.denominator != 0 {
                    Some(
                        ((t.nominal_frequency_hz as int) * (t.numerator as int) / (
                        t.denominator as int)) as u64,
                    )
                } else {
                    None
                }
            } else if t.numerator != 0 && t.denominator != 0 {
                match base_mhz {
                    Some(m) => Some(
                        ((m as int) * 1_000_000 * (t.denominator as int) / (t.numerator as int)
                            * (t.numerator as int) / (t.denominator as int)) as u64,
                    ),
                    None => None,
                }
            } else {
                None
            }
        },
    }
}

/// Compute the counter frequency in Hz from the raw calibration-leaf values
/// and, as a fallback for platforms that leave the crystal frequency zero,
/// the processor base frequency in MHz.
pub fn get_tsc_frequency_hz(info: Option<TscInfo>, cpu_base_frequency_mhz: Option<u16>) -> (r:
    Option<u64>)
    ensures
        r == spec_tsc_frequency_hz(info, cpu_base_frequency_mhz),
{
    match info {
        None => None,
        Some(t) => {
            if t.nominal_frequency_hz != 0 {
                if t.numerator != 0 && t.denominator != 0 {
                    proof {
                        assert((t.nominal_frequency_hz as int) * (t.numerator as int)
                            <= 0xffff_ffff * 0xffff_ffff) by (nonlinear_arith)
                            requires
                                t.nominal_frequency_hz <= 0xffff_ffffu32,
                                t.numerator <= 0xffff_ffffu32,
                        ;
                    }
                    let prod: u64 = (t.nominal_frequency_hz as u64) * (t.numerator as u64);
                    Some(prod / (t.denominator as u64))
                } else {
                    None
                }
            } else if t.numerator != 0 && t.denominator != 0 {
                match cpu_base_frequency_mhz {
                    Some(m) => {
                        let base_hz: u128 = (m as u128) * 1_000_000;
                        proof {
                            assert((base_hz as int) * (t.denominator as int) <= 0xffff_ffff_ffff
                                * 0xffff_ffff) by (nonlinear_arith)
                                requires
                                    base_hz <= 0xffff_ffff_ffffu128,
                                    t.denominator <= 0xffff_ffffu32,
                            ;
                        }
                        let scaled: u128 = base_hz * (t.denominator as u128);
                        let crystal: u128 = scaled / (t.numerator as u128);
                        proof {
                            vstd::arithmetic::div_mod::lemma_fundamental_div_mod(
                                scaled as int,
                                t.numerator as int,
                            );
                            vstd::arithmetic::div_mod::lemma_mod_bound(
                                scaled as int,
                                t.numerator as int,
                            );
                            assert((t.numerator as int) * ((scaled as int) / (t.numerator as int))
                                == (crystal as int) * (t.numerator as int)) by (nonlinear_arith)
                                requires
                                    crystal as int == (scaled as int) / (t.numerator as int),
                            ;
                            assert((crystal as int) * (t.numerator as int) <= scaled as int);
                        }
                        let rescaled: u128 = crystal * (t.numerator as u128);
                        let f: u128 = rescaled / (t.denominator as u128);
                        proof {
                            vstd::arithmetic::div_mod::lemma_div_is_ordered(
                                rescaled as int,
                                scaled as int,
                                t.denominator as int,
                            );
                            assert((scaled as int) / (t.denominator as int) == base_hz as int) by {
                                vstd::arithmetic::div_mod::lemma_div_multiples_vanish(
                                    base_hz as int,
                                    t.denominator as int,
                                );
                                assert(scaled as int == (t.denominator as int) * (base_hz as int))
                                    by (nonlinear_arith)
                                    requires
                                        scaled as int == (base_hz as int) * (t.denominator as int),
                                ;
                            }
                            assert(f as int <= base_hz as int);
                        }
                        Some(f as u64)
                    },
                    None => None,
                }
            } else {
                None
            }
        },
    }
}

/// A virtualization host reports the counter frequency in kHz; convert it to
/// Hz.
pub open spec fn spec_vmm_tsc_frequency_hz(hypervisor_tsc_khz: Option<u32>) -> Option<u64> {
    match hypervisor_tsc_khz {
        Some(k) => Some(((k as int) * 1000) as u64),
        None => None,
    }
}

/// Convert the hypervisor-reported counter frequency from kHz to Hz.
pub fn get_vmm_tsc_frequency_hz(hypervisor_tsc_khz: Option<u32>) -> (r: Option<u64>)
    ensures
        r == spec_vmm_tsc_frequency_hz(hypervisor_tsc_khz),
{
    match hypervisor_tsc_khz {
        Some(k) => Some((k as u64) * 1000),
        None => None,
    }
}

} // verus!
