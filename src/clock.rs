//! Clock-tree arithmetic for bring-up: fuse fields and the dividers derived
//! from them. Reading the fuses and writing the clock registers is left to
//! the caller.

use vstd::prelude::*;

verus! {

/// The ARM core clock the boot fuses select, before the low-power divider.
pub const FREQ_396MHZ: u32 = 396_000_000;
pub const FREQ_528MHZ: u32 = 528_000_000;

/// Highest AHB clock allowed.
pub const MAX_AHB_CLOCK: u32 = 144_000_000;

/// LPB_BOOT, bits 21 and 22 of the OCOTP CFG6 fuse word: the low-power boot
/// divider is `1 << value`.
pub fn rom_ocotp_lpb_boot_value(cfg6: u32) -> (r: u32)
    ensures
        r == (cfg6 / 0x20_0000) % 4,
{
    let r = (cfg6 & 0x0060_0000) >> 21;
    assert(r == (cfg6 / 0x20_0000) % 4) by (bit_vector)
        requires
            r == (cfg6 & 0x0060_0000) >> 21,
    ;
    r
}

/// BOOT_FREQ, bit 2 of the OCOTP CFG5 fuse word: 0 selects a 396 MHz core
/// clock, 1 a 528 MHz one.
pub fn rom_ocotp_boot_freq_value(cfg5: u32) -> (r: u32)
    ensures
        r == (cfg5 / 4) % 2,
{
    let r = (cfg5 & 0x04) >> 2;
    assert(r == (cfg5 / 4) % 2) by (bit_vector)
        requires
            r == (cfg5 & 0x04) >> 2,
    ;
    r
}

/// The clock settings derived from the boot fuses.
#[derive(Clone, Copy, Debug, PartialEq, Eq)]
pub struct ClockPlan {
    /// PLL_ARM loop divider: the PLL runs at 24 MHz times this over 2.
    pub arm_pll_div: u32,
    /// Core clock divider from the LPB_BOOT fuse.
    pub clock_divider: u32,
    /// Resulting core clock in Hz.
    pub system_core_clock: u32,
    /// Divider that brings the core clock down to the AHB limit.
    pub ahb_divider: u32,
}

/// The clock settings for the fuse values `fuse_div` (LPB_BOOT) and
/// `clock_freq` (BOOT_FREQ). The AHB divider is the smallest one that keeps
/// the bus at or below `MAX_AHB_CLOCK`.
pub fn clock_plan(fuse_div: u32, clock_freq: u32) -> (r: ClockPlan)
    requires
        fuse_div < 4,
    ensures
        r.clock_divider == if fuse_div == 0 {
            1u32
        } else if fuse_div == 1 {
            2u32
        } else if fuse_div == 2 {
            4u32
        } else {
            8u32
        },
        r.arm_pll_div == if clock_freq == 1 {
            88u32
        } else {
            66u32
        },
        r.system_core_clock == (if clock_freq == 0 {
            FREQ_396MHZ
        } else {
            FREQ_528MHZ
        }) / r.clock_divider,
        r.ahb_divider >= 1,
        r.system_core_clock / r.ahb_divider <= MAX_AHB_CLOCK,
        r.ahb_divider == 1 || r.system_core_clock / ((r.ahb_divider - 1) as u32) > MAX_AHB_CLOCK,
{
    let clock_divider: u32 = 1u32 << fuse_div;
    assert(clock_divider == if fuse_div == 0 {
        1u32
    } else if fuse_div == 1 {
        2u32
    } else if fuse_div == 2 {
        4u32
    } else {
        8u32
    }) by (bit_vector)
        requires
            fuse_div < 4,
            clock_divider == 1u32 << fuse_div,
    ;
    let arm_pll_div: u32 = if clock_freq == 1 {
        88
    } else {
        66
    };
    let system_core_clock = if clock_freq == 0 {
        FREQ_396MHZ
    } else {
        FREQ_528MHZ
    } / clock_divider;
    let mut ahb_divider: u32 = 1;
    while system_core_clock / ahb_divider > MAX_AHB_CLOCK
        invariant
            1 <= ahb_divider <= system_core_clock,
            ahb_divider == 1 || system_core_clock / ((ahb_divider - 1) as u32) > MAX_AHB_CLOCK,
        decreases system_core_clock - ahb_divider,
    {
        assert(ahb_divider < system_core_clock) by (nonlinear_arith)
            requires
                system_core_clock / ahb_divider > MAX_AHB_CLOCK,
                ahb_divider >= 1,
        ;
        ahb_divider = ahb_divider + 1;
    }
    ClockPlan { arm_pll_div, clock_divider, system_core_clock, ahb_divider }
}

} // verus!
