use echo_mini_os::audio::cs43131::regs;
use echo_mini_os::audio::cs43131::{
    filter_from_code, filter_value, rate_from_code, read_value, set_balanced_mode, set_se_mode, Cs43131, DacBus,
    DacInit, DacOp, DigitalFilter, SampleRateCode,
};
use echo_mini_os::audio::engine::{
    audio_dma_isr, build_ctl_word, decode_into, init, needs_refill, refill_from_decoder, start, stop, AudioEngine,
};
use echo_mini_os::hal::dma::{DmaFlags, DMAC_INTERR_CL, DMAC_INTTC_CL};
use echo_mini_os::hal::i2c::I2cBus;
use echo_mini_os::hal::interrupt::{dispatch, HandlerTable, IRQ_DMA};
use echo_mini_os::hal::mmio::{HwOp, I2C0_BASE, I2C1_BASE};
use echo_mini_os::hal::i2s;
use echo_mini_os::mem::dma_buffer::{audio_buffer_phys, DmaRingBuffer, HalfSelect, HALF_BUFFER_BYTES};

#[test]
fn codes_of_rates_and_filters() {
    assert_eq!(SampleRateCode::Rate44100.code(), 0x04);
    assert_eq!(SampleRateCode::Rate384000.code(), 0x11);
    assert_eq!(SampleRateCode::DSD256.code(), 0x22);
    assert_eq!(DigitalFilter::Brickwall.code(), 6);
    assert_eq!(rate_from_code(0x0D), SampleRateCode::Rate192000);
    assert_eq!(rate_from_code(0x77), SampleRateCode::Rate44100);
    assert_eq!(filter_from_code(3), DigitalFilter::SlowMinPhase);
    assert_eq!(filter_from_code(200), DigitalFilter::FastRolloff);
    for r in [SampleRateCode::Rate32000, SampleRateCode::Rate96000, SampleRateCode::Rate352800] {
        assert_eq!(rate_from_code(r.code()), r);
    }
    for f in [DigitalFilter::FastRolloff, DigitalFilter::HybridFastRolloff, DigitalFilter::Brickwall] {
        assert_eq!(filter_from_code(f.code()), f);
    }
}

#[test]
fn filter_value_keeps_upper_bits() {
    assert_eq!(filter_value(0xFF, DigitalFilter::FastRolloff), 0xF8);
    assert_eq!(filter_value(0xF8, DigitalFilter::Brickwall), 0xFE);
    assert_eq!(filter_value(0x03, DigitalFilter::SlowRolloff), 0x01);
    assert_eq!(read_value(&[]), 0);
    assert_eq!(read_value(&[0x42, 1]), 0x42);
}

#[test]
fn dac_register_writes_are_i2c_frames() {
    let dac = Cs43131::new(DacBus::Right);
    let bus = I2cBus::new(I2C1_BASE);
    assert_eq!(dac.write_reg(regs::HP_A_VOL, 0x10), bus.write(0x32, &[0x00, 0x00, 0x22, 0x10]));
    assert_eq!(dac.read_reg(regs::REV_ID), bus.write_read(0x32, &[0x00, 0x00, 0x05], 1));
    assert_eq!(dac.revision(), dac.read_reg(regs::REV_ID));
    let left = Cs43131::new(DacBus::Left);
    assert_eq!(left.write_reg(0x01_0203, 9), I2cBus::new(I2C0_BASE).write(0x30, &[1, 2, 3, 9]));
}

#[test]
fn dac_lowering_of_filter_write_uses_last_read() {
    let dac = Cs43131::new(DacBus::Left);
    assert_eq!(
        dac.lower(DacOp::WriteFilter { filter: DigitalFilter::Brickwall }, 0xF8),
        dac.write_reg(regs::DAC_CTL1, 0xFE)
    );
    assert_eq!(dac.lower(DacOp::BusInit { fast: true }, 0), I2cBus::new(I2C0_BASE).init(true));
}

#[test]
fn dac_command_sequences() {
    let mut dac = Cs43131::new(DacBus::Left);
    assert_eq!(
        dac.set_volume(0x20),
        vec![DacOp::WriteReg { reg: regs::HP_A_VOL, val: 0x20 }, DacOp::WriteReg { reg: regs::HP_B_VOL, val: 0x20 }]
    );
    assert_eq!(
        dac.set_digital_filter(DigitalFilter::SlowRolloff),
        vec![DacOp::ReadReg { reg: regs::DAC_CTL1 }, DacOp::WriteFilter { filter: DigitalFilter::SlowRolloff }]
    );
    assert_eq!(dac.set_sample_rate(SampleRateCode::Rate96000), vec![DacOp::WriteReg { reg: regs::SP_SRATE, val: 0x09 }]);
    assert_eq!(dac.power_down(), vec![DacOp::WriteReg { reg: regs::PWR_CTL1, val: 0x01 }]);
    assert_eq!(dac.power_up(), vec![DacOp::WriteReg { reg: regs::PWR_CTL1, val: 0x00 }]);
    assert_eq!(dac.enable_dsd(SampleRateCode::DSD64)[2], DacOp::WriteReg { reg: regs::SP_SRATE, val: 0x20 });
    assert_eq!(dac.disable_dsd().len(), 2);
    let init = dac.init_balanced();
    assert_eq!(init[0], DacOp::BusInit { fast: true });
    assert_eq!(init.len(), 19);
    assert_eq!(init[17], DacOp::WriteReg { reg: regs::PCM_PATH_CTL1, val: 0x00 });
    assert_eq!(dac.init_se()[17], DacOp::WriteReg { reg: regs::PCM_PATH_CTL1, val: 0x02 });
}

#[test]
fn balanced_mode_routes_one_channel_per_dac() {
    let mut left = Cs43131::new(DacBus::Left);
    let mut right = Cs43131::new(DacBus::Right);
    let ops = set_balanced_mode(&mut left, &mut right);
    assert_eq!(ops.len(), 38);
    // All of the left DAC's steps come first.
    assert!(ops[..19].iter().all(|(side, _)| *side == DacBus::Left));
    assert!(ops[19..].iter().all(|(side, _)| *side == DacBus::Right));
    assert_eq!(ops[17], (DacBus::Left, DacOp::WriteReg { reg: regs::PCM_PATH_CTL1, val: 0x00 }));
    assert_eq!(ops[19 + 17], (DacBus::Right, DacOp::WriteReg { reg: regs::PCM_PATH_CTL1, val: 0x01 }));
    assert_eq!(ops[18], (DacBus::Left, DacOp::WriteReg { reg: regs::HP_OUT_CTL, val: 0x0C }));
    assert_eq!(left.side(), DacBus::Left);
}

#[test]
fn se_mode_runs_left_then_powers_down_right() {
    let mut left = Cs43131::new(DacBus::Left);
    let mut right = Cs43131::new(DacBus::Right);
    let ops = set_se_mode(&mut left, &mut right);
    assert_eq!(ops.len(), 20);
    assert!(ops[..19].iter().all(|(side, _)| *side == DacBus::Left));
    assert_eq!(ops[16], (DacBus::Left, DacOp::WriteReg { reg: regs::SP_SRATE, val: 0x04 }));
    assert_eq!(ops[17], (DacBus::Left, DacOp::WriteReg { reg: regs::PCM_PATH_CTL1, val: 0x02 }));
    assert_eq!(ops[18], (DacBus::Left, DacOp::WriteReg { reg: regs::HP_OUT_CTL, val: 0x04 }));
    assert_eq!(ops[19], (DacBus::Right, DacOp::WriteReg { reg: regs::PWR_CTL1, val: 0x01 }));
}

#[test]
fn dac_init_trait_decodes_raw_codes() {
    let mut dac = Cs43131::new(DacBus::Left);
    assert_eq!(DacInit::set_sample_rate(&mut dac, 0x05), vec![DacOp::WriteReg { reg: regs::SP_SRATE, val: 0x05 }]);
    assert_eq!(DacInit::set_sample_rate(&mut dac, 0xEE), vec![DacOp::WriteReg { reg: regs::SP_SRATE, val: 0x04 }]);
    assert_eq!(DacInit::set_filter(&mut dac, 9)[1], DacOp::WriteFilter { filter: DigitalFilter::FastRolloff });
    assert_eq!(DacInit::set_volume(&mut dac, 255).len(), 2);
    assert_eq!(DacInit::init_balanced(&mut dac).len(), 19);
}

#[test]
fn ctl_word_value() {
    assert_eq!(build_ctl_word(), 0x0805_4A21);
}

#[test]
fn engine_init_builds_ring_and_registers_isr() {
    let mut table = HandlerTable::new(0u8);
    let buf = DmaRingBuffer::new(0x2000_0000);
    let setup = init(&mut table, 5u8, &buf, 0x2100_0000, 0x2100_0020);
    assert_eq!(dispatch(&table, IRQ_DMA), 5);
    assert_eq!(setup.lli_a.src_addr, 0x2000_0000);
    assert_eq!(setup.lli_a.next_lli, 0x2100_0020);
    assert_eq!(setup.lli_b.src_addr, 0x2000_0000 + HALF_BUFFER_BYTES as u32);
    assert_eq!(setup.lli_b.next_lli, 0x2100_0000);
    assert_eq!(setup.lli_a.dst_addr, i2s::I2S_TXDR as u32);
    assert_eq!(setup.lli_a.size, (HALF_BUFFER_BYTES / 4) as u32);
    assert_eq!(setup.lli_a.control, build_ctl_word());
    assert_eq!(setup.ops.len(), 11);
    // 32-bit I2S samples, and 32-bit DMA words.
    assert_eq!(setup.ops[3], HwOp::Write { addr: i2s::I2S_TXCR, val: 31 });
    assert_eq!((setup.lli_a.control >> 13) & 3, 2);
    assert_eq!((setup.lli_a.control >> 15) & 3, 2);
}

#[test]
fn engine_start_stop() {
    let mut engine = AudioEngine::new();
    assert!(!engine.playing && !needs_refill(&engine));
    let ops = start(&mut engine, 0x2100_0000);
    assert!(engine.playing);
    assert_eq!(*ops.last().unwrap(), HwOp::SetBits { addr: i2s::I2S_XFER, mask: i2s::XFER_TXS });
    let ops = stop(&mut engine);
    assert!(!engine.playing);
    assert_eq!(ops[0], HwOp::ClearBits { addr: i2s::I2S_XFER, mask: i2s::XFER_TXS });
}

#[test]
fn isr_swaps_halves_and_requests_refill() {
    let mut engine = AudioEngine::new();
    let mut buf = DmaRingBuffer::new(0x2000_0000);
    let mut flags = DmaFlags::new();
    assert_eq!(buf.current_active(), HalfSelect::First);
    let ops = audio_dma_isr(&mut engine, &mut buf, &mut flags, 1, 0);
    assert_eq!(ops, vec![HwOp::Write { addr: DMAC_INTTC_CL, val: 1 }]);
    assert!(needs_refill(&engine));
    assert!(flags.audio_done);
    assert_eq!(buf.current_active(), HalfSelect::Second);
    let ops = audio_dma_isr(&mut engine, &mut buf, &mut flags, 2, 0x10);
    assert_eq!(
        ops,
        vec![HwOp::Write { addr: DMAC_INTTC_CL, val: 2 }, HwOp::Write { addr: DMAC_INTERR_CL, val: 0x10 }]
    );
    assert_eq!(buf.current_active(), HalfSelect::First);
}

#[test]
fn refill_fills_only_the_free_half() {
    let mut engine = AudioEngine::new();
    let mut buf = DmaRingBuffer::new(0x2000_0000);
    let mut flags = DmaFlags::new();
    // Put a marker in the writable half (half B while the DMA reads half A).
    buf.write_writable(0, 0xAA);
    refill_from_decoder(&mut engine, &mut buf);
    // No refill was requested: nothing changes.
    assert_eq!(buf.writable_half(), HALF_BUFFER_BYTES);
    audio_dma_isr(&mut engine, &mut buf, &mut flags, 1, 0);
    // Now the DMA reads half B (with the marker); half A is writable.
    assert_eq!(buf.active_half_slice()[0], 0xAA);
    buf.write_writable(1, 0x55);
    refill_from_decoder(&mut engine, &mut buf);
    assert!(!needs_refill(&engine));
    assert_eq!(buf.active_half_slice()[0], 0xAA);
    assert_eq!(buf.writable_half(), 0);
    audio_dma_isr(&mut engine, &mut buf, &mut flags, 1, 0);
    assert_eq!(buf.active_half_slice()[1], 0);
}

#[test]
fn decode_into_zeroes_writable_half() {
    let mut buf = DmaRingBuffer::new(0);
    buf.write_writable(5, 9);
    decode_into(&mut buf);
    buf.swap();
    assert!(buf.active_half_slice().iter().all(|&b| b == 0));
}

#[test]
fn ring_buffer_addresses() {
    let mut buf = DmaRingBuffer::new(0x2000_0000);
    assert_eq!(buf.half_a_phys(), 0x2000_0000);
    assert_eq!(buf.half_b_phys(), 0x2000_0000 + HALF_BUFFER_BYTES);
    assert_eq!(audio_buffer_phys(&buf), 0x2000_0000);
    assert_eq!(HALF_BUFFER_BYTES, 8192);
    assert_eq!(buf.active_half_slice().len(), HALF_BUFFER_BYTES);
    buf.swap();
    buf.swap();
    assert_eq!(buf.current_active(), HalfSelect::First);
}

#[test]
fn swaps_alternate_halves() {
    let mut buf = DmaRingBuffer::new(0x2000_0000);
    for n in 1..=7u32 {
        buf.swap();
        let expected = if n % 2 == 0 { HalfSelect::First } else { HalfSelect::Second };
        assert_eq!(buf.current_active(), expected);
    }
    assert_eq!(audio_buffer_phys(&buf) % 32, 0);
    assert_eq!(buf.half_b_phys() % 32, 0);
}
