//! Audio PLL of the CRU: switches MCLK between the 44.1 kHz and 48 kHz
//! families.
use vstd::prelude::*;
use crate::hal::mmio::{self, HwOp};

verus! {

pub const CRU_BASE: usize = mmio::CRU_BASE;
pub const CRU_PLL_CON0: usize = CRU_BASE + 0x00;
pub const CRU_PLL_CON1: usize = CRU_BASE + 0x04;
pub const CRU_PLL_CON2: usize = CRU_BASE + 0x08;
pub const CRU_PLL_STATUS: usize = CRU_BASE + 0x0C;
pub const CRU_CLKSEL_CON0: usize = CRU_BASE + 0x20;
pub const CRU_CLKSEL_CON1: usize = CRU_BASE + 0x24;
pub const CRU_CLKGATE_CON0: usize = CRU_BASE + 0x40;

/// PLL lock status bit in CRU_PLL_STATUS.
pub const PLL_LOCK: u32 = 1 << 0;
/// PLL power-down bit in CRU_PLL_CON1.
pub const PLL_PD: u32 = 1 << 13;
/// Integer mode bit in CRU_PLL_CON1.
pub const PLL_DSMPD: u32 = 1 << 12;

/// Crystal frequency.
pub const XTAL_HZ: u32 = 24_000_000;

/// Audio clock family.
#[derive(Clone, Copy, Debug, PartialEq, Eq, Structural)]
pub enum AudioFamily {
    /// 44.1 kHz base: MCLK = 22.5792 MHz
    F44100,
    /// 48 kHz base: MCLK = 24.5760 MHz
    F48000,
}

impl AudioFamily {
    /// Target MCLK frequency in Hz (512 times the base rate).
    pub fn mclk_hz(self) -> (hz: u32)
        ensures
            hz == (match self {
                AudioFamily::F44100 => 22_579_200u32,
                AudioFamily::F48000 => 24_576_000u32,
            }),
    {
        match self {
            AudioFamily::F44100 => 22_579_200,
            AudioFamily::F48000 => 24_576_000,
        }
    }
}

/// PLL parameter set: Fout = Fin * (FBDIV + FRACDIV / 2^24) / (REFDIV * POSTDIV1 * POSTDIV2).
#[derive(Clone, Copy, Debug, PartialEq, Eq, Structural)]
pub struct PllParams {
    pub fbdiv: u32,
    pub fracdiv: u32,
    pub refdiv: u32,
    pub postdiv1: u32,
    pub postdiv2: u32,
}

pub open spec fn params_of(family: AudioFamily) -> PllParams {
    match family {
        AudioFamily::F44100 => PllParams { fbdiv: 188, fracdiv: 4_194_304, refdiv: 5, postdiv1: 4, postdiv2: 10 },
        AudioFamily::F48000 => PllParams { fbdiv: 204, fracdiv: 13_421_773, refdiv: 5, postdiv1: 4, postdiv2: 10 },
    }
}

/// The preset for a clock family (24 MHz crystal).
pub fn pll_params(family: AudioFamily) -> (p: PllParams)
    ensures
        p == params_of(family),
{
    match family {
        AudioFamily::F44100 => PllParams { fbdiv: 188, fracdiv: 4_194_304, refdiv: 5, postdiv1: 4, postdiv2: 10 },
        AudioFamily::F48000 => PllParams { fbdiv: 204, fracdiv: 13_421_773, refdiv: 5, postdiv1: 4, postdiv2: 10 },
    }
}

/// CON0: FBDIV in bits 11..0, POSTDIV1 in bits 19..16.
pub open spec fn con0_word(p: PllParams) -> u32 {
    (p.fbdiv & 0xFFF) | ((p.postdiv1 & 0x0F) << 16u32)
}

/// CON1: REFDIV in bits 5..0, POSTDIV2 in bits 11..8 (the presets' divider
/// of 10 needs all four); fractional mode (DSMPD, bit 12, clear), powered
/// on (PD, bit 13, clear).
pub open spec fn con1_word(p: PllParams) -> u32 {
    (p.refdiv & 0x3F) | ((p.postdiv2 & 0x0F) << 8u32)
}

/// Switch the audio PLL to the MCLK of the given family: power the PLL
/// down, program it, wait for lock, route it to the I2S MCLK undivided,
/// un-gate the I2S clock, and fence.
pub fn set_audio_clock(family: AudioFamily) -> (ops: Vec<HwOp>)
    ensures
        ops@ == seq![
            HwOp::SetBits { addr: CRU_PLL_CON1, mask: PLL_PD },
            HwOp::Write { addr: CRU_PLL_CON0, val: con0_word(params_of(family)) },
            HwOp::Write { addr: CRU_PLL_CON1, val: con1_word(params_of(family)) },
            HwOp::Write { addr: CRU_PLL_CON2, val: params_of(family).fracdiv & 0x00FF_FFFF },
            HwOp::WaitFor { addr: CRU_PLL_STATUS, mask: PLL_LOCK, expected: PLL_LOCK },
            HwOp::SetBits { addr: CRU_CLKSEL_CON0, mask: 1 },
            HwOp::Write { addr: CRU_CLKSEL_CON1, val: 0 },
            HwOp::ClearBits { addr: CRU_CLKGATE_CON0, mask: 1u32 << 4u32 },
            HwOp::Fence,
        ],
{
    let params = pll_params(family);
    assert((1u32 << 0u32) == 1u32) by (bit_vector);
    let mut ops: Vec<HwOp> = Vec::new();
    ops.push(mmio::set_bits(CRU_PLL_CON1, PLL_PD));
    let con0 = (params.fbdiv & 0xFFF) | ((params.postdiv1 & 0x0F) << 16);
    ops.push(mmio::write32(CRU_PLL_CON0, con0));
    let con1 = (params.refdiv & 0x3F) | ((params.postdiv2 & 0x0F) << 8);
    ops.push(mmio::write32(CRU_PLL_CON1, con1));
    ops.push(mmio::write32(CRU_PLL_CON2, params.fracdiv & 0x00FF_FFFF));
    ops.push(mmio::wait_for(CRU_PLL_STATUS, PLL_LOCK, PLL_LOCK));
    ops.push(mmio::set_bits(CRU_CLKSEL_CON0, 1 << 0));
    ops.push(mmio::write32(CRU_CLKSEL_CON1, 0x0000));
    ops.push(mmio::clear_bits(CRU_CLKGATE_CON0, 1 << 4));
    ops.push(HwOp::Fence);
    ops
}

/// Whether the PLL is locked, given the PLL status register.
pub fn is_pll_locked(status: u32) -> (locked: bool)
    ensures
        locked == (status & PLL_LOCK != 0),
{
    status & PLL_LOCK != 0
}

/// The divider product REFDIV * POSTDIV1 * POSTDIV2 encoded in CON0/CON1.
pub open spec fn denominator(con0: u32, con1: u32) -> int {
    (con1 & 0x3F) * ((con0 >> 16u32) & 0x0F) * ((con1 >> 8u32) & 0x0F)
}

/// The integer MCLK approximation XTAL / (REFDIV * POSTDIV1 * POSTDIV2) * FBDIV
/// (the fractional divider ignored), or 0 when a divider field is 0.
pub open spec fn mclk_from_regs(con0: u32, con1: u32) -> int {
    if denominator(con0, con1) == 0 {
        0
    } else {
        (XTAL_HZ as int / denominator(con0, con1)) * ((con0 & 0xFFF) as int)
    }
}

/// The MCLK frequency configured in the PLL, from the values read from
/// CRU_PLL_CON0 and CRU_PLL_CON1.
pub fn current_mclk_hz(con0: u32, con1: u32) -> (hz: u32)
    requires
        mclk_from_regs(con0, con1) <= u32::MAX,
    ensures
        hz == mclk_from_regs(con0, con1),
{
    let fbdiv = con0 & 0xFFF;
    let postdiv1 = (con0 >> 16) & 0x0F;
    let refdiv = con1 & 0x3F;
    let postdiv2 = (con1 >> 8) & 0x0F;
    assert(refdiv <= 0x3F && postdiv1 <= 15 && postdiv2 <= 15) by (bit_vector)
        requires
            refdiv == con1 & 0x3F,
            postdiv1 == (con0 >> 16u32) & 0x0F,
            postdiv2 == (con1 >> 8u32) & 0x0F;
    assert(refdiv * postdiv1 <= 63 * 15) by (nonlinear_arith)
        requires refdiv <= 63, postdiv1 <= 15;
    assert(refdiv * postdiv1 * postdiv2 <= 63 * 15 * 15) by (nonlinear_arith)
        requires refdiv * postdiv1 <= 63 * 15, postdiv2 <= 15;
    let denom = refdiv * postdiv1 * postdiv2;
    if denom == 0 {
        return 0;
    }
    XTAL_HZ / denom * fbdiv
}

/// Reading the PLL back after `set_audio_clock` gives the preset's integer
/// MCLK approximation XTAL / (REFDIV * POSTDIV1 * POSTDIV2) * FBDIV:
/// 24 MHz / 200 * 188 = 22.56 MHz for the 44.1 kHz family (target
/// 22.5792 MHz) and 24 MHz / 200 * 204 = 24.48 MHz for the 48 kHz family
/// (target 24.576 MHz); the fractional divider makes up the rest.
pub proof fn lemma_clock_readback(family: AudioFamily)
    ensures
        mclk_from_regs(con0_word(params_of(family)), con1_word(params_of(family)))
            == XTAL_HZ as int / (params_of(family).refdiv * params_of(family).postdiv1 * params_of(family).postdiv2)
                * params_of(family).fbdiv,
        mclk_from_regs(con0_word(params_of(family)), con1_word(params_of(family))) == match family {
            AudioFamily::F44100 => 22_560_000int,
            AudioFamily::F48000 => 24_480_000int,
        },
{
    let c0: u32 = (188u32 & 0xFFF) | ((4u32 & 0x0F) << 16u32);
    let d0: u32 = (204u32 & 0xFFF) | ((4u32 & 0x0F) << 16u32);
    let c1: u32 = (5u32 & 0x3F) | ((10u32 & 0x0F) << 8u32);
    assert(c0 & 0xFFF == 188 && (c0 >> 16u32) & 0x0F == 4) by (bit_vector)
        requires c0 == (188u32 & 0xFFF) | ((4u32 & 0x0F) << 16u32);
    assert(d0 & 0xFFF == 204 && (d0 >> 16u32) & 0x0F == 4) by (bit_vector)
        requires d0 == (204u32 & 0xFFF) | ((4u32 & 0x0F) << 16u32);
    assert(c1 & 0x3F == 5 && (c1 >> 8u32) & 0x0F == 10) by (bit_vector)
        requires c1 == (5u32 & 0x3F) | ((10u32 & 0x0F) << 8u32);
    assert(con1_word(params_of(family)) == c1);
    assert(denominator(con0_word(params_of(family)), c1) == 200);
    match family {
        AudioFamily::F44100 => {
            assert(con0_word(params_of(family)) == c0);
            assert(XTAL_HZ as int / 200 == 120_000);
        },
        AudioFamily::F48000 => {
            assert(con0_word(params_of(family)) == d0);
            assert(XTAL_HZ as int / 200 == 120_000);
        },
    }
}

} // verus!
