//! DMA-driven audio engine: the DMA streams one half of the ping-pong
//! buffer to the I2S FIFO through a ring of two linked-list items, while
//! the CPU refills the other half.
use vstd::prelude::*;
use crate::hal::{dma, i2s, interrupt};
use crate::hal::mmio::{HwOp, extend_ops};
use crate::hal::dma::{DmaFlags, DmaLli};
use crate::hal::interrupt::HandlerTable;
use crate::mem::dma_buffer::{DmaRingBuffer, HALF_BUFFER_BYTES, writable_offset};

verus! {

/// Playback state shared by the DMA interrupt and the main loop.
#[derive(Clone, Copy, Debug, PartialEq, Eq, Structural)]
pub struct AudioEngine {
    /// Set by the DMA-complete interrupt; cleared once the free half is refilled.
    pub needs_refill: bool,
    /// Whether playback is running.
    pub playing: bool,
}

/// What `init` produces: the register program, and the two linked-list
/// items that the caller places in DMA memory at `lli_a_addr` and `lli_b_addr`.
pub struct EngineSetup {
    pub ops: Vec<HwOp>,
    pub lli_a: DmaLli,
    pub lli_b: DmaLli,
}

/// The DMA CTL word of an audio item: memory to peripheral with DMAC flow
/// control, bursts of 4, source incrementing, destination fixed, 32-bit
/// widths, interrupt enabled, source linked list enabled.
pub open spec fn audio_ctl() -> u32 {
    0b001u32 | (0b010u32 << 4u32) | (0b010u32 << 8u32) | (1u32 << 11u32) | (0u32 << 12u32)
        | (0b10u32 << 13u32) | (0b10u32 << 15u32) | (1u32 << 18u32) | (1u32 << 27u32)
}

/// Build the DMA CTL word for an audio linked-list item.
pub fn build_ctl_word() -> (w: u32)
    ensures
        w == audio_ctl(),
{
    let tt_fc: u32 = 0b001;
    let src_msize: u32 = 0b010 << 4;
    let dst_msize: u32 = 0b010 << 8;
    let sinc: u32 = 1 << 11;
    let dinc: u32 = 0 << 12;
    let src_width: u32 = 0b10 << 13;
    let dst_width: u32 = 0b10 << 15;
    let int_en: u32 = 1 << 18;
    let llp_src_en: u32 = 1 << 27;
    tt_fc | src_msize | dst_msize | sinc | dinc | src_width | dst_width | int_en | llp_src_en
}

/// The I2S set-up of the engine: 32-bit stereo, MCLK divider 1, BCLK divider 4.
pub open spec fn audio_i2s_config() -> i2s::I2sConfig {
    i2s::I2sConfig { sample_width: i2s::SampleWidth::Bits32, mclk_div: 1, bclk_div: 4 }
}

/// The linked-list item that plays `half` (a physical address) and chains to `next`.
pub open spec fn audio_lli(half: usize, next: usize) -> DmaLli {
    DmaLli {
        src_addr: half as u32,
        dst_addr: i2s::I2S_TXDR as u32,
        next_lli: next as u32,
        control: audio_ctl(),
        size: (HALF_BUFFER_BYTES / 4) as u32,
    }
}

impl AudioEngine {
    /// Stopped, with nothing to refill.
    pub fn new() -> (e: Self)
        ensures
            !e.needs_refill,
            !e.playing,
    {
        AudioEngine { needs_refill: false, playing: false }
    }
}

/// Initialise the engine: configure and flush I2S, enable the DMAC, build
/// the two linked-list items (A plays half A and chains to B, B plays half B
/// and chains back to A), and register `isr` for the DMA interrupt.
pub fn init<F: Copy>(
    table: &mut HandlerTable<F>,
    isr: F,
    buf: &DmaRingBuffer,
    lli_a_addr: usize,
    lli_b_addr: usize,
) -> (setup: EngineSetup)
    requires
        old(table).view().len() == interrupt::IRQ_COUNT,
        buf.wf(),
    ensures
        final(table).view() == old(table).view().update(interrupt::IRQ_DMA as int, isr),
        setup.ops@ == seq![
            HwOp::Write { addr: i2s::I2S_XFER, val: 0 },
            HwOp::Write { addr: i2s::I2S_CLR, val: i2s::CLR_TXC | i2s::CLR_RXC },
            HwOp::Spin { cycles: 100 },
            HwOp::Write { addr: i2s::I2S_TXCR, val: i2s::txcr_word() },
            HwOp::Write { addr: i2s::I2S_CKR, val: i2s::ckr_word(audio_i2s_config()) },
            HwOp::Write { addr: i2s::I2S_DMACR, val: i2s::DMACR_INIT },
            HwOp::Write { addr: i2s::I2S_CLR, val: i2s::CLR_TXC },
            HwOp::Spin { cycles: 64 },
            HwOp::Write { addr: dma::DMAC_CFG, val: 1 },
            HwOp::Write { addr: dma::DMAC_INTTC_CL, val: 0xFF },
            HwOp::Write { addr: dma::DMAC_INTERR_CL, val: 0xFF },
        ],
        setup.lli_a == audio_lli(buf.phys(), lli_b_addr),
        setup.lli_b == audio_lli((buf.phys() + HALF_BUFFER_BYTES) as usize, lli_a_addr),
{
    let cfg = i2s::I2sConfig { sample_width: i2s::SampleWidth::Bits32, mclk_div: 1, bclk_div: 4 };
    let mut ops = i2s::init(&cfg);
    extend_ops(&mut ops, i2s::flush_tx());
    extend_ops(&mut ops, dma::init());

    let i2s_dr = i2s::data_register_addr() as u32;
    let transfer_count = (HALF_BUFFER_BYTES / 4) as u32;
    let ctl = build_ctl_word();
    let lli_a = DmaLli {
        src_addr: buf.half_a_phys() as u32,
        dst_addr: i2s_dr,
        size: transfer_count,
        control: ctl,
        next_lli: lli_b_addr as u32,
    };
    let lli_b = DmaLli {
        src_addr: buf.half_b_phys() as u32,
        dst_addr: i2s_dr,
        size: transfer_count,
        control: ctl,
        next_lli: lli_a_addr as u32,
    };
    interrupt::register(table, interrupt::IRQ_DMA, isr);
    assert(ops@ =~= seq![
        HwOp::Write { addr: i2s::I2S_XFER, val: 0 },
        HwOp::Write { addr: i2s::I2S_CLR, val: i2s::CLR_TXC | i2s::CLR_RXC },
        HwOp::Spin { cycles: 100 },
        HwOp::Write { addr: i2s::I2S_TXCR, val: i2s::txcr_word() },
        HwOp::Write { addr: i2s::I2S_CKR, val: i2s::ckr_word(audio_i2s_config()) },
        HwOp::Write { addr: i2s::I2S_DMACR, val: i2s::DMACR_INIT },
        HwOp::Write { addr: i2s::I2S_CLR, val: i2s::CLR_TXC },
        HwOp::Spin { cycles: 64 },
        HwOp::Write { addr: dma::DMAC_CFG, val: 1 },
        HwOp::Write { addr: dma::DMAC_INTTC_CL, val: 0xFF },
        HwOp::Write { addr: dma::DMAC_INTERR_CL, val: 0xFF },
    ]);
    EngineSetup { ops, lli_a, lli_b }
}

/// Start playback: kick the DMA ring from item A and enable I2S TX.
pub fn start(engine: &mut AudioEngine, lli_a_addr: usize) -> (ops: Vec<HwOp>)
    ensures
        final(engine).playing,
        final(engine).needs_refill == old(engine).needs_refill,
        ops@ == seq![
            HwOp::Write { addr: (dma::ch_addr(dma::CH_AUDIO) + dma::CH_LLP) as usize, val: lli_a_addr as u32 },
            HwOp::Write { addr: (dma::ch_addr(dma::CH_AUDIO) + dma::CH_CTL) as usize, val: dma::LINKED_CTL },
            HwOp::Write { addr: (dma::ch_addr(dma::CH_AUDIO) + dma::CH_CFGH) as usize, val: dma::cfg_h(dma::HS_I2S0_TX) },
            HwOp::Write { addr: (dma::ch_addr(dma::CH_AUDIO) + dma::CH_CFG) as usize, val: dma::CFG_CH_EN },
            HwOp::SetBits { addr: i2s::I2S_XFER, mask: i2s::XFER_TXS },
        ],
{
    let mut ops = dma::start_linked(dma::CH_AUDIO, lli_a_addr, dma::HS_I2S0_TX);
    extend_ops(&mut ops, i2s::start_tx());
    engine.playing = true;
    ops
}

/// Stop playback: stop I2S TX and flush its FIFO.
pub fn stop(engine: &mut AudioEngine) -> (ops: Vec<HwOp>)
    ensures
        !final(engine).playing,
        final(engine).needs_refill == old(engine).needs_refill,
        ops@ == seq![
            HwOp::ClearBits { addr: i2s::I2S_XFER, mask: i2s::XFER_TXS },
            HwOp::Write { addr: i2s::I2S_CLR, val: i2s::CLR_TXC },
            HwOp::Spin { cycles: 64 },
        ],
{
    engine.playing = false;
    let mut ops = i2s::stop_tx();
    extend_ops(&mut ops, i2s::flush_tx());
    ops
}

/// Whether the main loop should call `refill_from_decoder`.
pub fn needs_refill(engine: &AudioEngine) -> (r: bool)
    ensures
        r == engine.needs_refill,
{
    engine.needs_refill
}

/// Fill the writable half with the next decoded frames: silence, until a
/// decoder is plugged in.
pub fn decode_into(buf: &mut DmaRingBuffer)
    requires
        old(buf).wf(),
    ensures
        final(buf).wf(),
        final(buf).active() == old(buf).active(),
        final(buf).phys() == old(buf).phys(),
        final(buf).bytes().len() == old(buf).bytes().len(),
        forall|j: int| 0 <= j < 2 * HALF_BUFFER_BYTES ==> #[trigger] final(buf).bytes()[j] == if writable_offset(
            old(buf).active(),
        ) <= j < writable_offset(old(buf).active()) + HALF_BUFFER_BYTES {
            0u8
        } else {
            old(buf).bytes()[j]
        },
{
    let mut i: usize = 0;
    while i < HALF_BUFFER_BYTES
        invariant
            buf.wf(),
            buf.active() == old(buf).active(),
            buf.phys() == old(buf).phys(),
            i <= HALF_BUFFER_BYTES,
            forall|j: int| 0 <= j < 2 * HALF_BUFFER_BYTES ==> #[trigger] buf.bytes()[j] == if writable_offset(
                old(buf).active(),
            ) <= j < writable_offset(old(buf).active()) + i {
                0u8
            } else {
                old(buf).bytes()[j]
            },
        decreases HALF_BUFFER_BYTES - i,
    {
        buf.write_writable(i, 0);
        i = i + 1;
    }
}

/// Refill the writable half if the DMA asked for it, then clear the request.
pub fn refill_from_decoder(engine: &mut AudioEngine, buf: &mut DmaRingBuffer)
    requires
        old(buf).wf(),
    ensures
        final(buf).wf(),
        !final(engine).needs_refill,
        final(engine).playing == old(engine).playing,
        final(buf).active() == old(buf).active(),
        final(buf).phys() == old(buf).phys(),
        !old(engine).needs_refill ==> final(buf).bytes() == old(buf).bytes(),
        old(engine).needs_refill ==> forall|j: int| 0 <= j < 2 * HALF_BUFFER_BYTES ==> #[trigger] final(buf).bytes()[j]
            == if writable_offset(old(buf).active()) <= j < writable_offset(old(buf).active()) + HALF_BUFFER_BYTES {
            0u8
        } else {
            old(buf).bytes()[j]
        },
{
    if !engine.needs_refill {
        return;
    }
    decode_into(buf);
    engine.needs_refill = false;
}

/// The DMA-complete interrupt: acknowledge the DMA (completion and error
/// flags, from the two status values read), hand the half just played back
/// to the CPU, and ask the main loop for a refill.
pub fn audio_dma_isr(
    engine: &mut AudioEngine,
    buf: &mut DmaRingBuffer,
    flags: &mut DmaFlags,
    tc_status: u32,
    err_status: u32,
) -> (ops: Vec<HwOp>)
    requires
        old(buf).wf(),
    ensures
        final(buf).wf(),
        final(engine).needs_refill,
        final(engine).playing == old(engine).playing,
        final(buf).active() == 1 - old(buf).active(),
        final(buf).bytes() == old(buf).bytes(),
        final(buf).phys() == old(buf).phys(),
        final(flags).audio_done == (old(flags).audio_done || tc_status & 1 != 0),
        final(flags).lcd_done == (old(flags).lcd_done || tc_status & 2 != 0),
        ops@ == (if tc_status & 1 != 0 { seq![HwOp::Write { addr: dma::DMAC_INTTC_CL, val: 1 }] } else { seq![] })
            + (if tc_status & 2 != 0 { seq![HwOp::Write { addr: dma::DMAC_INTTC_CL, val: 2 }] } else { seq![] })
            + (if err_status != 0 { seq![HwOp::Write { addr: dma::DMAC_INTERR_CL, val: err_status }] } else { seq![] }),
{
    let ops = dma::irq_handler(tc_status, err_status, flags);
    buf.swap();
    engine.needs_refill = true;
    ops
}

/// Bit-perfect transport: the engine's I2S port carries 32-bit samples and
/// its DMA items move the buffer as 32-bit words, source incrementing and
/// destination fixed on the I2S data register.
pub proof fn lemma_audio_is_32_bit(half: usize, next: usize)
    ensures
        audio_i2s_config().sample_width == i2s::SampleWidth::Bits32,
        i2s::txcr_word() & i2s::TXCR_VDW_MASK == 31,
        (audio_ctl() >> 13u32) & 3 == 2,
        (audio_ctl() >> 15u32) & 3 == 2,
        (audio_ctl() >> 11u32) & 1 == 1,
        (audio_ctl() >> 12u32) & 1 == 0,
        audio_lli(half, next).dst_addr == i2s::I2S_TXDR as u32,
        audio_lli(half, next).size * 4 == HALF_BUFFER_BYTES,
{
    assert(((31u32 & 0x1F) | (0u32 << 5u32) | (0u32 << 7u32) | (0u32 << 15u32)) & 0x1F == 31) by (bit_vector);
    let c: u32 = 0b001u32 | (0b010u32 << 4u32) | (0b010u32 << 8u32) | (1u32 << 11u32) | (0u32 << 12u32)
        | (0b10u32 << 13u32) | (0b10u32 << 15u32) | (1u32 << 18u32) | (1u32 << 27u32);
    assert((c >> 13u32) & 3 == 2 && (c >> 15u32) & 3 == 2 && (c >> 11u32) & 1 == 1 && (c >> 12u32) & 1 == 0) by (bit_vector)
        requires c == 0b001u32 | (0b010u32 << 4u32) | (0b010u32 << 8u32) | (1u32 << 11u32) | (0u32 << 12u32)
            | (0b10u32 << 13u32) | (0b10u32 << 15u32) | (1u32 << 18u32) | (1u32 << 27u32);
}

/// After a DMA interrupt and the refill that follows it, the half the DMA
/// had just played holds the new (silent) frames, and the half it plays
/// now is untouched.
pub proof fn lemma_isr_then_refill(before: Seq<u8>, active: u8, after: Seq<u8>)
    requires
        active == 0 || active == 1,
        before.len() == 2 * HALF_BUFFER_BYTES,
        after.len() == 2 * HALF_BUFFER_BYTES,
        forall|j: int| 0 <= j < 2 * HALF_BUFFER_BYTES ==> #[trigger] after[j]
            == if writable_offset((1 - active) as u8) <= j < writable_offset((1 - active) as u8) + HALF_BUFFER_BYTES {
            0u8
        } else {
            before[j]
        },
    ensures
        forall|j: int| crate::mem::dma_buffer::half_offset(active) <= j < crate::mem::dma_buffer::half_offset(active) + HALF_BUFFER_BYTES
            ==> #[trigger] after[j] == 0,
        forall|j: int| crate::mem::dma_buffer::half_offset((1 - active) as u8) <= j
            < crate::mem::dma_buffer::half_offset((1 - active) as u8) + HALF_BUFFER_BYTES ==> #[trigger] after[j] == before[j],
{
}

} // verus!
