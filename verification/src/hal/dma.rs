//! DMA controller (DMAC) driver: single transfers for the LCD, linked-list
//! (ping-pong) transfers for audio, and the completion interrupt.
use vstd::prelude::*;
use crate::hal::mmio::{self, HwOp, DMA_BASE, extend_ops};

verus! {

pub const DMAC_INTST: usize = DMA_BASE + 0x00;
pub const DMAC_INTTC_ST: usize = DMA_BASE + 0x04;
pub const DMAC_INTTC_CL: usize = DMA_BASE + 0x08;
pub const DMAC_INTERR_ST: usize = DMA_BASE + 0x0C;
pub const DMAC_INTERR_CL: usize = DMA_BASE + 0x10;
pub const DMAC_ENBLD_CH: usize = DMA_BASE + 0x1C;
pub const DMAC_CFG: usize = DMA_BASE + 0x30;
pub const DMAC_SYNC: usize = DMA_BASE + 0x34;

pub const CH_STRIDE: usize = 0x20;
pub const CH_BASE_OFFSET: usize = 0x100;

pub const CH_SAR: usize = 0x00;
pub const CH_DAR: usize = 0x04;
pub const CH_LLP: usize = 0x08;
pub const CH_CTL: usize = 0x0C;
pub const CH_CTLH: usize = 0x10;
pub const CH_CFG: usize = 0x14;
pub const CH_CFGH: usize = 0x18;

pub const CTL_INT_EN: u32 = 1 << 0;
pub const CTL_SRC_TR_WIDTH_8: u32 = 0 << 4;
pub const CTL_SRC_TR_WIDTH_16: u32 = 1 << 4;
pub const CTL_SRC_TR_WIDTH_32: u32 = 2 << 4;
pub const CTL_DST_TR_WIDTH_8: u32 = 0 << 1;
pub const CTL_DST_TR_WIDTH_16: u32 = 1 << 1;
pub const CTL_DST_TR_WIDTH_32: u32 = 2 << 1;
pub const CTL_SINC: u32 = 0 << 9;
pub const CTL_SINC_NOINC: u32 = 2 << 9;
pub const CTL_DINC: u32 = 0 << 7;
pub const CTL_DINC_NOINC: u32 = 2 << 7;
pub const CTL_TT_FC_M2P: u32 = 1 << 20;
pub const CTL_LLP_DST_EN: u32 = 1 << 27;
pub const CTL_LLP_SRC_EN: u32 = 1 << 28;

pub const CFG_CH_EN: u32 = 1 << 0;
pub const CFG_CH_SUSP: u32 = 1 << 8;

pub const HS_I2S0_TX: u32 = 0;
pub const HS_SPI0_TX: u32 = 2;
pub const HS_I2S1_TX: u32 = 4;

/// Channel assignment: audio on ch0 (highest HW priority).
pub const CH_AUDIO: usize = 0;
/// LCD framebuffer DMA on ch1.
pub const CH_LCD: usize = 1;

/// Completion flags, set by the interrupt handler and consumed by the main loop.
#[derive(Clone, Copy, Debug, PartialEq, Eq, Structural)]
pub struct DmaFlags {
    pub audio_done: bool,
    pub lcd_done: bool,
}

impl DmaFlags {
    /// Both flags clear.
    pub fn new() -> (f: Self)
        ensures
            !f.audio_done,
            !f.lcd_done,
    {
        DmaFlags { audio_done: false, lcd_done: false }
    }

    /// Read and clear the LCD completion flag.
    pub fn take_lcd_done(&mut self) -> (was: bool)
        ensures
            was == old(self).lcd_done,
            !final(self).lcd_done,
            final(self).audio_done == old(self).audio_done,
    {
        let was = self.lcd_done;
        self.lcd_done = false;
        was
    }
}

/// Base address of a channel's registers.
pub open spec fn ch_addr(ch: usize) -> int {
    DMA_BASE + CH_BASE_OFFSET + ch * CH_STRIDE
}

/// Base address for a given DMA channel's registers.
pub fn ch_base(ch: usize) -> (b: usize)
    requires
        ch_addr(ch) <= usize::MAX,
    ensures
        b == ch_addr(ch),
{
    DMA_BASE + CH_BASE_OFFSET + ch * CH_STRIDE
}

/// A DMA linked-list item: the DMAC reads these from memory to chain transfers.
#[derive(Clone, Copy, Debug, PartialEq, Eq, Structural)]
pub struct DmaLli {
    pub src_addr: u32,
    pub dst_addr: u32,
    pub next_lli: u32,
    pub control: u32,
    pub size: u32,
}

/// Supported DMA transfer widths.
#[derive(Clone, Copy, Debug, PartialEq, Eq, Structural)]
pub enum TransferWidth {
    Byte,
    HalfWord,
    Word,
}

impl TransferWidth {
    /// The width code of the CTL register.
    pub fn code(self) -> (c: u32)
        ensures
            c == match self {
                TransferWidth::Byte => 0u32,
                TransferWidth::HalfWord => 1u32,
                TransferWidth::Word => 2u32,
            },
    {
        match self {
            TransferWidth::Byte => 0,
            TransferWidth::HalfWord => 1,
            TransferWidth::Word => 2,
        }
    }
}

pub open spec fn width_code(w: TransferWidth) -> u32 {
    match w {
        TransferWidth::Byte => 0u32,
        TransferWidth::HalfWord => 1u32,
        TransferWidth::Word => 2u32,
    }
}

/// Enable the DMAC and clear all pending interrupts.
pub fn init() -> (ops: Vec<HwOp>)
    ensures
        ops@ == seq![
            HwOp::Write { addr: DMAC_CFG, val: 1 },
            HwOp::Write { addr: DMAC_INTTC_CL, val: 0xFF },
            HwOp::Write { addr: DMAC_INTERR_CL, val: 0xFF },
        ],
{
    let mut ops: Vec<HwOp> = Vec::new();
    ops.push(mmio::write32(DMAC_CFG, 1));
    ops.push(mmio::write32(DMAC_INTTC_CL, 0xFF));
    ops.push(mmio::write32(DMAC_INTERR_CL, 0xFF));
    ops
}

/// The CTL word of a single memory-to-peripheral transfer: interrupt on
/// completion, the two widths, source incrementing, destination fixed.
pub open spec fn single_ctl(src_width: TransferWidth, dst_width: TransferWidth) -> u32 {
    CTL_INT_EN | (width_code(src_width) << 4u32) | (width_code(dst_width) << 1u32) | CTL_SINC | CTL_DINC_NOINC
        | CTL_TT_FC_M2P
}

/// The handshake field of CFG_H (destination peripheral).
pub open spec fn cfg_h(handshake: u32) -> u32 {
    (handshake & 0xF) << 7u32
}

/// Configure a channel for a single (non-linked-list) transfer of `count`
/// source-width units from memory at `src` to the peripheral register `dst`.
pub fn setup_single(
    ch: usize,
    src: usize,
    dst: usize,
    count: u32,
    handshake: u32,
    src_width: TransferWidth,
    dst_width: TransferWidth,
) -> (ops: Vec<HwOp>)
    requires
        ch_addr(ch) + CH_CFGH <= usize::MAX,
    ensures
        ops@ == seq![
            HwOp::Write { addr: (ch_addr(ch) + CH_SAR) as usize, val: src as u32 },
            HwOp::Write { addr: (ch_addr(ch) + CH_DAR) as usize, val: dst as u32 },
            HwOp::Write { addr: (ch_addr(ch) + CH_LLP) as usize, val: 0 },
            HwOp::Write { addr: (ch_addr(ch) + CH_CTL) as usize, val: single_ctl(src_width, dst_width) },
            HwOp::Write { addr: (ch_addr(ch) + CH_CTLH) as usize, val: count },
            HwOp::Write { addr: (ch_addr(ch) + CH_CFGH) as usize, val: cfg_h(handshake) },
            HwOp::Write { addr: (ch_addr(ch) + CH_CFG) as usize, val: CFG_CH_EN },
        ],
{
    let base = ch_base(ch);
    let mut ops: Vec<HwOp> = Vec::new();
    ops.push(mmio::write32(base + CH_SAR, src as u32));
    ops.push(mmio::write32(base + CH_DAR, dst as u32));
    ops.push(mmio::write32(base + CH_LLP, 0));
    let ctl = CTL_INT_EN | (src_width.code() << 4) | (dst_width.code() << 1) | CTL_SINC | CTL_DINC_NOINC
        | CTL_TT_FC_M2P;
    ops.push(mmio::write32(base + CH_CTL, ctl));
    ops.push(mmio::write32(base + CH_CTLH, count));
    ops.push(mmio::write32(base + CH_CFGH, (handshake & 0xF) << 7));
    ops.push(mmio::write32(base + CH_CFG, CFG_CH_EN));
    ops
}

/// The CTL word of a linked-list audio transfer: 32-bit widths, source
/// incrementing, destination fixed, memory to peripheral, source list enabled.
pub const LINKED_CTL: u32 = CTL_INT_EN | CTL_SRC_TR_WIDTH_32 | CTL_DST_TR_WIDTH_32 | CTL_SINC | CTL_DINC_NOINC
    | CTL_TT_FC_M2P | CTL_LLP_SRC_EN;

/// Start a linked-list transfer on a channel, from the item at `first_lli`.
pub fn start_linked(ch: usize, first_lli: usize, handshake: u32) -> (ops: Vec<HwOp>)
    requires
        ch_addr(ch) + CH_CFGH <= usize::MAX,
    ensures
        ops@ == seq![
            HwOp::Write { addr: (ch_addr(ch) + CH_LLP) as usize, val: first_lli as u32 },
            HwOp::Write { addr: (ch_addr(ch) + CH_CTL) as usize, val: LINKED_CTL },
            HwOp::Write { addr: (ch_addr(ch) + CH_CFGH) as usize, val: cfg_h(handshake) },
            HwOp::Write { addr: (ch_addr(ch) + CH_CFG) as usize, val: CFG_CH_EN },
        ],
{
    let base = ch_base(ch);
    let mut ops: Vec<HwOp> = Vec::new();
    ops.push(mmio::write32(base + CH_LLP, first_lli as u32));
    ops.push(mmio::write32(base + CH_CTL, LINKED_CTL));
    ops.push(mmio::write32(base + CH_CFGH, (handshake & 0xF) << 7));
    ops.push(mmio::write32(base + CH_CFG, CFG_CH_EN));
    ops
}

/// DMA interrupt: given the transfer-complete status (`DMAC_INTTC_ST`) and
/// the error status (`DMAC_INTERR_ST`), clear and record the completion of
/// the audio and LCD channels, then clear any error flags.
pub fn irq_handler(tc_status: u32, err_status: u32, flags: &mut DmaFlags) -> (ops: Vec<HwOp>)
    ensures
        final(flags).audio_done == (old(flags).audio_done || tc_status & 1 != 0),
        final(flags).lcd_done == (old(flags).lcd_done || tc_status & 2 != 0),
        ops@ == (if tc_status & 1 != 0 { seq![HwOp::Write { addr: DMAC_INTTC_CL, val: 1 }] } else { seq![] })
            + (if tc_status & 2 != 0 { seq![HwOp::Write { addr: DMAC_INTTC_CL, val: 2 }] } else { seq![] })
            + (if err_status != 0 { seq![HwOp::Write { addr: DMAC_INTERR_CL, val: err_status }] } else { seq![] }),
{
    let mut ops: Vec<HwOp> = Vec::new();
    assert((1u32 << 0usize) == 1 && (1u32 << 1usize) == 2) by (bit_vector);
    if tc_status & (1 << CH_AUDIO) != 0 {
        ops.push(mmio::write32(DMAC_INTTC_CL, 1 << CH_AUDIO));
        flags.audio_done = true;
    }
    if tc_status & (1 << CH_LCD) != 0 {
        ops.push(mmio::write32(DMAC_INTTC_CL, 1 << CH_LCD));
        flags.lcd_done = true;
    }
    assert(ops@ =~= (if tc_status & 1 != 0 { seq![HwOp::Write { addr: DMAC_INTTC_CL, val: 1 }] } else { seq![] })
            + (if tc_status & 2 != 0 { seq![HwOp::Write { addr: DMAC_INTTC_CL, val: 2 }] } else { seq![] }));
    extend_ops(&mut ops, clear_errors(err_status));
    ops
}

/// The clearing of the DMA error flags in `err_status`.
pub fn clear_errors(err_status: u32) -> (ops: Vec<HwOp>)
    ensures
        ops@ == if err_status != 0 { seq![HwOp::Write { addr: DMAC_INTERR_CL, val: err_status }] } else { seq![] },
{
    let mut ops: Vec<HwOp> = Vec::new();
    if err_status != 0 {
        ops.push(mmio::write32(DMAC_INTERR_CL, err_status));
    }
    ops
}

} // verus!
