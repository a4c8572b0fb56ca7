//! I2S master controller (I2S0) carrying PCM/DSD to the CS43131 DACs,
//! always framed at 32 bits for bit-perfect output.
use vstd::prelude::*;
use crate::hal::mmio::{self, HwOp, I2S0_BASE};

verus! {

pub const I2S_TXCR: usize = I2S0_BASE + 0x00;
pub const I2S_RXCR: usize = I2S0_BASE + 0x04;
pub const I2S_CKR: usize = I2S0_BASE + 0x08;
pub const I2S_FIFOLR: usize = I2S0_BASE + 0x0C;
pub const I2S_DMACR: usize = I2S0_BASE + 0x10;
pub const I2S_INTCR: usize = I2S0_BASE + 0x14;
pub const I2S_INTSR: usize = I2S0_BASE + 0x18;
pub const I2S_XFER: usize = I2S0_BASE + 0x1C;
pub const I2S_CLR: usize = I2S0_BASE + 0x20;
pub const I2S_TXDR: usize = I2S0_BASE + 0x24;
pub const I2S_RXDR: usize = I2S0_BASE + 0x28;

pub const TXCR_VDW_MASK: u32 = 0x1F;
pub const TXCR_FMT_I2S: u32 = 0 << 5;
pub const TXCR_FMT_LJ: u32 = 1 << 5;
pub const TXCR_PBM_STEREO: u32 = 0 << 7;
pub const TXCR_CSR_2CH: u32 = 0 << 15;
pub const TXCR_HWT: u32 = 0 << 14;

pub const CKR_MSS_MASTER: u32 = 0 << 27;
pub const CKR_CKP: u32 = 0 << 26;
pub const CKR_MDIV_SHIFT: u32 = 16;
pub const CKR_TSD_SHIFT: u32 = 8;
pub const CKR_RSD_SHIFT: u32 = 0;

pub const DMACR_TDE: u32 = 1 << 0;
pub const DMACR_TDL_SHIFT: u32 = 4;

pub const XFER_TXS: u32 = 1 << 0;
pub const XFER_RXS: u32 = 1 << 1;

pub const CLR_TXC: u32 = 1 << 0;
pub const CLR_RXC: u32 = 1 << 1;

/// Supported sample widths for the I2S transfer.
#[derive(Clone, Copy, Debug, PartialEq, Eq, Structural)]
pub enum SampleWidth {
    Bits16,
    Bits24,
    Bits32,
}

impl SampleWidth {
    /// The valid-data-width field of a width (width - 1).
    pub open spec fn spec_vdw(self) -> u32 {
        match self {
            SampleWidth::Bits16 => 15u32,
            SampleWidth::Bits24 => 23u32,
            SampleWidth::Bits32 => 31u32,
        }
    }

    /// The valid-data-width field (width - 1).
    pub fn vdw(self) -> (v: u32)
        ensures
            v == self.spec_vdw(),
    {
        match self {
            SampleWidth::Bits16 => 15,
            SampleWidth::Bits24 => 23,
            SampleWidth::Bits32 => 31,
        }
    }
}

/// I2S configuration passed to `init`.
#[derive(Clone, Copy, Debug, PartialEq, Eq, Structural)]
pub struct I2sConfig {
    pub sample_width: SampleWidth,
    /// MCLK divider: MCLK_out = MCLK_in / (mdiv + 1)
    pub mclk_div: u8,
    /// BCLK = MCLK / (2 * (bclk_div + 1))
    pub bclk_div: u8,
}

/// The TX control word: I2S format, stereo, two channels, and always
/// 32-bit frames (valid-data width 31) for bit-perfect transport; samples
/// of a narrower `sample_width` are zero-extended to the 32-bit frame.
pub open spec fn txcr_word() -> u32 {
    (SampleWidth::Bits32.spec_vdw() & TXCR_VDW_MASK) | TXCR_FMT_I2S | TXCR_PBM_STEREO | TXCR_CSR_2CH
}

/// The clock word: master mode, MCLK divider, TX and RX serial dividers.
pub open spec fn ckr_word(cfg: I2sConfig) -> u32 {
    CKR_MSS_MASTER | CKR_CKP | ((cfg.mclk_div as u32) << CKR_MDIV_SHIFT)
        | ((cfg.bclk_div as u32) << CKR_TSD_SHIFT) | ((cfg.bclk_div as u32) << CKR_RSD_SHIFT)
}

/// TX DMA enabled, watermark at half the FIFO (8 entries).
pub const DMACR_INIT: u32 = DMACR_TDE | (8 << DMACR_TDL_SHIFT);

/// Initialise the I2S peripheral in master / I2S-standard mode: stop,
/// clear both FIFOs, let them settle, then program TX, clock and DMA.
pub fn init(cfg: &I2sConfig) -> (ops: Vec<HwOp>)
    ensures
        ops@ == seq![
            HwOp::Write { addr: I2S_XFER, val: 0 },
            HwOp::Write { addr: I2S_CLR, val: CLR_TXC | CLR_RXC },
            HwOp::Spin { cycles: 100 },
            HwOp::Write { addr: I2S_TXCR, val: txcr_word() },
            HwOp::Write { addr: I2S_CKR, val: ckr_word(*cfg) },
            HwOp::Write { addr: I2S_DMACR, val: DMACR_INIT },
        ],
{
    let mut ops: Vec<HwOp> = Vec::new();
    ops.push(mmio::write32(I2S_XFER, 0));
    ops.push(mmio::write32(I2S_CLR, CLR_TXC | CLR_RXC));
    ops.push(HwOp::Spin { cycles: 100 });
    let txcr = (SampleWidth::Bits32.vdw() & TXCR_VDW_MASK) | TXCR_FMT_I2S | TXCR_PBM_STEREO | TXCR_CSR_2CH;
    ops.push(mmio::write32(I2S_TXCR, txcr));
    let ckr = CKR_MSS_MASTER | CKR_CKP | ((cfg.mclk_div as u32) << CKR_MDIV_SHIFT)
        | ((cfg.bclk_div as u32) << CKR_TSD_SHIFT) | ((cfg.bclk_div as u32) << CKR_RSD_SHIFT);
    ops.push(mmio::write32(I2S_CKR, ckr));
    ops.push(mmio::write32(I2S_DMACR, DMACR_INIT));
    ops
}

/// The physical address of the I2S TX data register (the DMA target).
pub fn data_register_addr() -> (a: usize)
    ensures
        a == I2S_TXDR,
{
    I2S_TXDR
}

/// Flush the TX FIFO.
pub fn flush_tx() -> (ops: Vec<HwOp>)
    ensures
        ops@ == seq![HwOp::Write { addr: I2S_CLR, val: CLR_TXC }, HwOp::Spin { cycles: 64 }],
{
    let mut ops: Vec<HwOp> = Vec::new();
    ops.push(mmio::write32(I2S_CLR, CLR_TXC));
    ops.push(HwOp::Spin { cycles: 64 });
    ops
}

/// Start I2S transmission.
pub fn start_tx() -> (ops: Vec<HwOp>)
    ensures
        ops@ == seq![HwOp::SetBits { addr: I2S_XFER, mask: XFER_TXS }],
{
    let mut ops: Vec<HwOp> = Vec::new();
    ops.push(mmio::set_bits(I2S_XFER, XFER_TXS));
    ops
}

/// Stop I2S transmission.
pub fn stop_tx() -> (ops: Vec<HwOp>)
    ensures
        ops@ == seq![HwOp::ClearBits { addr: I2S_XFER, mask: XFER_TXS }],
{
    let mut ops: Vec<HwOp> = Vec::new();
    ops.push(mmio::clear_bits(I2S_XFER, XFER_TXS));
    ops
}

/// Enable the I2S TX DMA request line.
pub fn enable_dma() -> (ops: Vec<HwOp>)
    ensures
        ops@ == seq![HwOp::SetBits { addr: I2S_DMACR, mask: DMACR_TDE }],
{
    let mut ops: Vec<HwOp> = Vec::new();
    ops.push(mmio::set_bits(I2S_DMACR, DMACR_TDE));
    ops
}

/// Disable the I2S TX DMA request line.
pub fn disable_dma() -> (ops: Vec<HwOp>)
    ensures
        ops@ == seq![HwOp::ClearBits { addr: I2S_DMACR, mask: DMACR_TDE }],
{
    let mut ops: Vec<HwOp> = Vec::new();
    ops.push(mmio::clear_bits(I2S_DMACR, DMACR_TDE));
    ops
}

/// Whether the TX FIFO is empty, given the FIFO level register (TX level in bits 5..0).
pub fn tx_fifo_empty(fifolr: u32) -> (empty: bool)
    ensures
        empty == (fifolr & 0x3F == 0),
{
    let level = fifolr & 0x3F;
    level == 0
}

} // verus!
