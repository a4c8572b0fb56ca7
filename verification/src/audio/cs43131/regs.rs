//! CS43131 register addresses (24-bit address space, 8-bit data).
use vstd::prelude::*;

verus! {

/// Device ID (read-only).
pub const DEVID_AB: u32 = 0x00_0001;
pub const DEVID_CD: u32 = 0x00_0002;
pub const DEVID_E: u32 = 0x00_0003;
pub const REV_ID: u32 = 0x00_0005;
pub const PWR_CTL1: u32 = 0x00_0006;
pub const PWR_CTL2: u32 = 0x00_0007;
pub const MCLK_SRC_SEL: u32 = 0x00_0008;
pub const MCLK_FREQ: u32 = 0x00_0009;
pub const SRC_CTL: u32 = 0x00_000A;
pub const MCLK_INT: u32 = 0x00_000B;
pub const ASP_CTL1: u32 = 0x00_000D;
pub const ASP_CTL2: u32 = 0x00_000E;
pub const ASP_CTL3: u32 = 0x00_000F;
pub const SP_SRATE: u32 = 0x00_0010;
pub const DAC_CTL1: u32 = 0x00_0020;
pub const DAC_CTL2: u32 = 0x00_0021;
pub const HP_A_VOL: u32 = 0x00_0022;
pub const HP_B_VOL: u32 = 0x00_0023;
pub const HP_CTL: u32 = 0x00_0024;
pub const HP_OUT_CTL: u32 = 0x00_0025;
pub const CLASS_H_CTL: u32 = 0x00_0026;
pub const DSD_CTL1: u32 = 0x00_0030;
pub const DSD_CTL2: u32 = 0x00_0031;
pub const DSD_PATH_CTL: u32 = 0x00_0032;
pub const INT_STATUS: u32 = 0x00_0040;
pub const INT_MASK: u32 = 0x00_0041;
pub const PCM_PATH_CTL1: u32 = 0x00_0050;
pub const PCM_PATH_CTL2: u32 = 0x00_0051;
pub const PLL_CTL: u32 = 0x00_0060;
pub const PLL_DIV_FRAC0: u32 = 0x00_0061;
pub const PLL_DIV_FRAC1: u32 = 0x00_0062;
pub const PLL_DIV_FRAC2: u32 = 0x00_0063;
pub const PLL_DIV_INT: u32 = 0x00_0064;

} // verus!
