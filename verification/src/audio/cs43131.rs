//! Cirrus Logic CS43131 DAC driver for the dual-DAC (left/right) topology.
//!
//! A DAC is configured by a sequence of register commands (`DacOp`); each
//! command becomes an I2C program.  Selecting a digital filter reads the
//! filter register and writes back a modified value, so that step is split
//! into a read command and a write command that uses the value read.
use vstd::prelude::*;
use crate::hal::i2c::{I2cBus, write_ops, write_read_ops};
use crate::hal::mmio::{self, HwOp};

pub mod regs;

verus! {

/// I2C address of the left DAC (AD0 low).
pub const CS43131_ADDR_LEFT: u8 = 0x30;
/// I2C address of the right DAC (AD0 high).
pub const CS43131_ADDR_RIGHT: u8 = 0x32;

/// Digital reconstruction filters (`DAC_CTL1[2:0]`).
#[derive(Clone, Copy, Debug, PartialEq, Eq, Structural)]
pub enum DigitalFilter {
    FastRolloff,
    SlowRolloff,
    FastMinPhase,
    SlowMinPhase,
    ApodizingFast,
    HybridFastRolloff,
    Brickwall,
}

pub open spec fn filter_code(f: DigitalFilter) -> u8 {
    match f {
        DigitalFilter::FastRolloff => 0x00,
        DigitalFilter::SlowRolloff => 0x01,
        DigitalFilter::FastMinPhase => 0x02,
        DigitalFilter::SlowMinPhase => 0x03,
        DigitalFilter::ApodizingFast => 0x04,
        DigitalFilter::HybridFastRolloff => 0x05,
        DigitalFilter::Brickwall => 0x06,
    }
}

impl DigitalFilter {
    /// The register code of the filter.
    pub fn code(self) -> (c: u8)
        ensures
            c == filter_code(self),
    {
        match self {
            DigitalFilter::FastRolloff => 0x00,
            DigitalFilter::SlowRolloff => 0x01,
            DigitalFilter::FastMinPhase => 0x02,
            DigitalFilter::SlowMinPhase => 0x03,
            DigitalFilter::ApodizingFast => 0x04,
            DigitalFilter::HybridFastRolloff => 0x05,
            DigitalFilter::Brickwall => 0x06,
        }
    }
}

/// Sample-rate codes of the `SP_SRATE` register.
#[derive(Clone, Copy, Debug, PartialEq, Eq, Structural)]
pub enum SampleRateCode {
    Rate32000,
    Rate44100,
    Rate48000,
    Rate88200,
    Rate96000,
    Rate176400,
    Rate192000,
    Rate352800,
    Rate384000,
    DSD64,
    DSD128,
    DSD256,
}

pub open spec fn rate_code(r: SampleRateCode) -> u8 {
    match r {
        SampleRateCode::Rate32000 => 0x02,
        SampleRateCode::Rate44100 => 0x04,
        SampleRateCode::Rate48000 => 0x05,
        SampleRateCode::Rate88200 => 0x08,
        SampleRateCode::Rate96000 => 0x09,
        SampleRateCode::Rate176400 => 0x0C,
        SampleRateCode::Rate192000 => 0x0D,
        SampleRateCode::Rate352800 => 0x10,
        SampleRateCode::Rate384000 => 0x11,
        SampleRateCode::DSD64 => 0x20,
        SampleRateCode::DSD128 => 0x21,
        SampleRateCode::DSD256 => 0x22,
    }
}

impl SampleRateCode {
    /// The register code of the rate.
    pub fn code(self) -> (c: u8)
        ensures
            c == rate_code(self),
    {
        match self {
            SampleRateCode::Rate32000 => 0x02,
            SampleRateCode::Rate44100 => 0x04,
            SampleRateCode::Rate48000 => 0x05,
            SampleRateCode::Rate88200 => 0x08,
            SampleRateCode::Rate96000 => 0x09,
            SampleRateCode::Rate176400 => 0x0C,
            SampleRateCode::Rate192000 => 0x0D,
            SampleRateCode::Rate352800 => 0x10,
            SampleRateCode::Rate384000 => 0x11,
            SampleRateCode::DSD64 => 0x20,
            SampleRateCode::DSD128 => 0x21,
            SampleRateCode::DSD256 => 0x22,
        }
    }
}

/// Which physical I2C bus a DAC sits on.
#[derive(Clone, Copy, Debug, PartialEq, Eq, Structural)]
pub enum DacBus {
    Left,
    Right,
}

/// One step of a DAC configuration sequence.
#[derive(Clone, Copy, Debug, PartialEq, Eq, Structural)]
pub enum DacOp {
    /// Initialise the I2C controller (fast mode or standard mode).
    BusInit { fast: bool },
    /// Write `val` to register `reg`.
    WriteReg { reg: u32, val: u8 },
    /// Read register `reg`.
    ReadReg { reg: u32 },
    /// Write `filter` into `DAC_CTL1[2:0]`, keeping the other bits of the
    /// value read by the `ReadReg` just before.
    WriteFilter { filter: DigitalFilter },
}

/// The new `DAC_CTL1` value selecting `filter`, from the `current` value.
pub open spec fn filter_reg_value(current: u8, filter: DigitalFilter) -> u8 {
    (current & !0x07u8) | (filter_code(filter) & 0x07)
}

/// The new `DAC_CTL1` value selecting `filter`, from the `current` value.
pub fn filter_value(current: u8, filter: DigitalFilter) -> (v: u8)
    ensures
        v == filter_reg_value(current, filter),
{
    (current & !0x07) | (filter.code() & 0x07)
}

/// The 4-byte I2C frame that writes `val` to register `reg`: the 24-bit
/// address, most significant byte first, then the value.
pub open spec fn reg_frame(reg: u32, val: u8) -> Seq<u8> {
    seq![((reg >> 16u32) & 0xFF) as u8, ((reg >> 8u32) & 0xFF) as u8, (reg & 0xFF) as u8, val]
}

/// The 3-byte address frame that selects register `reg` for reading.
pub open spec fn addr_frame(reg: u32) -> Seq<u8> {
    seq![((reg >> 16u32) & 0xFF) as u8, ((reg >> 8u32) & 0xFF) as u8, (reg & 0xFF) as u8]
}

/// The value a register read gave, from the bytes the I2C program captured
/// (0 when the transfer failed before the byte arrived).
pub fn read_value(captured: &[u8]) -> (v: u8)
    ensures
        v == (if captured@.len() > 0 { captured@[0] } else { 0 }),
{
    if captured.len() > 0 {
        captured[0]
    } else {
        0
    }
}

/// Driver for one CS43131 of the dual-DAC pair.
pub struct Cs43131 {
    bus: I2cBus,
    addr: u8,
    side: DacBus,
}

/// The register sequence of the common initialisation: I2C in fast mode,
/// device ID read, power up, external MCLK, 32-bit I2S slave port, fast
/// roll-off filter, unity gain with soft ramp, adaptive Class-H,
/// interrupts unmasked, 44.1 kHz.
pub open spec fn init_core_ops() -> Seq<DacOp> {
    seq![
        DacOp::BusInit { fast: true },
        DacOp::ReadReg { reg: regs::DEVID_AB },
        DacOp::WriteReg { reg: regs::PWR_CTL1, val: 0x00 },
        DacOp::WriteReg { reg: regs::PWR_CTL2, val: 0x03 },
        DacOp::WriteReg { reg: regs::MCLK_SRC_SEL, val: 0x00 },
        DacOp::WriteReg { reg: regs::MCLK_FREQ, val: 0x00 },
        DacOp::WriteReg { reg: regs::ASP_CTL1, val: 0x00 },
        DacOp::WriteReg { reg: regs::ASP_CTL2, val: 0x07 },
        DacOp::WriteReg { reg: regs::ASP_CTL3, val: 0x00 },
        DacOp::ReadReg { reg: regs::DAC_CTL1 },
        DacOp::WriteFilter { filter: DigitalFilter::FastRolloff },
        DacOp::WriteReg { reg: regs::HP_A_VOL, val: 0x00 },
        DacOp::WriteReg { reg: regs::HP_B_VOL, val: 0x00 },
        DacOp::WriteReg { reg: regs::HP_CTL, val: 0x03 },
        DacOp::WriteReg { reg: regs::CLASS_H_CTL, val: 0x01 },
        DacOp::WriteReg { reg: regs::INT_MASK, val: 0x00 },
        DacOp::WriteReg { reg: regs::SP_SRATE, val: 0x04 },
    ]
}

/// Balanced mode: route this DAC's channel, drive HP A/B differentially.
pub open spec fn balanced_ops(side: DacBus) -> Seq<DacOp> {
    seq![
        DacOp::WriteReg { reg: regs::PCM_PATH_CTL1, val: if side == DacBus::Left { 0x00 } else { 0x01 } },
        DacOp::WriteReg { reg: regs::HP_OUT_CTL, val: 0x0C },
    ]
}

/// Single-ended stereo mode on one DAC.
pub open spec fn se_ops() -> Seq<DacOp> {
    seq![
        DacOp::WriteReg { reg: regs::PCM_PATH_CTL1, val: 0x02 },
        DacOp::WriteReg { reg: regs::HP_OUT_CTL, val: 0x04 },
    ]
}

/// Append the write of `val` to register `reg`.
pub fn push_write(ops: &mut Vec<DacOp>, reg: u32, val: u8)
    ensures
        final(ops)@ == old(ops)@.push(DacOp::WriteReg { reg, val }),
{
    ops.push(DacOp::WriteReg { reg, val });
}

impl Cs43131 {
    pub closed spec fn bus_base(&self) -> usize {
        self.bus.base
    }

    pub closed spec fn i2c_addr(&self) -> u8 {
        self.addr
    }

    pub closed spec fn spec_side(&self) -> DacBus {
        self.side
    }

    pub open spec fn wf(&self) -> bool {
        self.bus_base() + crate::hal::i2c::I2C_TX_ABRT <= usize::MAX
    }

    /// The driver for one side of the pair: the left DAC is on I2C0 at
    /// 0x30, the right one on I2C1 at 0x32.
    pub fn new(side: DacBus) -> (d: Self)
        ensures
            d.wf(),
            d.spec_side() == side,
            d.bus_base() == (if side == DacBus::Left { mmio::I2C0_BASE } else { mmio::I2C1_BASE }),
            d.i2c_addr() == (if side == DacBus::Left { CS43131_ADDR_LEFT } else { CS43131_ADDR_RIGHT }),
    {
        let (base, addr) = match side {
            DacBus::Left => (mmio::I2C0_BASE, CS43131_ADDR_LEFT),
            DacBus::Right => (mmio::I2C1_BASE, CS43131_ADDR_RIGHT),
        };
        let bus = I2cBus::new(base);
        Cs43131 { bus, addr, side }
    }

    /// The I2C program that writes a single register.
    pub fn write_reg(&self, reg: u32, val: u8) -> (ops: Vec<HwOp>)
        requires
            self.wf(),
        ensures
            ops@ == write_ops(self.bus_base(), self.i2c_addr(), reg_frame(reg, val)),
    {
        let buf = [((reg >> 16) & 0xFF) as u8, ((reg >> 8) & 0xFF) as u8, (reg & 0xFF) as u8, val];
        assert(buf@ =~= reg_frame(reg, val));
        self.bus.write(self.addr, &buf)
    }

    /// The I2C program that reads a single register (the byte it captures
    /// is the register's value).
    pub fn read_reg(&self, reg: u32) -> (ops: Vec<HwOp>)
        requires
            self.wf(),
        ensures
            ops@ == write_read_ops(self.bus_base(), self.i2c_addr(), addr_frame(reg), 1),
    {
        let addr_buf = [((reg >> 16) & 0xFF) as u8, ((reg >> 8) & 0xFF) as u8, (reg & 0xFF) as u8];
        assert(addr_buf@ =~= addr_frame(reg));
        self.bus.write_read(self.addr, &addr_buf, 1)
    }

    /// The I2C program for one configuration step; `last_read` is the value
    /// of the register read by the step before (used by `WriteFilter`).
    pub fn lower(&self, op: DacOp, last_read: u8) -> (ops: Vec<HwOp>)
        requires
            self.wf(),
        ensures
            ops@ == match op {
                DacOp::BusInit { fast } => crate::hal::i2c::init_ops(self.bus_base(), fast),
                DacOp::WriteReg { reg, val } => write_ops(self.bus_base(), self.i2c_addr(), reg_frame(reg, val)),
                DacOp::ReadReg { reg } => write_read_ops(self.bus_base(), self.i2c_addr(), addr_frame(reg), 1),
                DacOp::WriteFilter { filter } => write_ops(
                    self.bus_base(),
                    self.i2c_addr(),
                    reg_frame(regs::DAC_CTL1, filter_reg_value(last_read, filter)),
                ),
            },
    {
        match op {
            DacOp::BusInit { fast } => self.bus.init(fast),
            DacOp::WriteReg { reg, val } => self.write_reg(reg, val),
            DacOp::ReadReg { reg } => self.read_reg(reg),
            DacOp::WriteFilter { filter } => self.write_reg(regs::DAC_CTL1, filter_value(last_read, filter)),
        }
    }

    /// Core initialisation shared by both output modes.
    pub fn init_core(&mut self) -> (ops: Vec<DacOp>)
        ensures
            *final(self) == *old(self),
            ops@ == init_core_ops(),
    {
        let mut ops: Vec<DacOp> = Vec::new();
        ops.push(DacOp::BusInit { fast: true });
        ops.push(DacOp::ReadReg { reg: regs::DEVID_AB });
        push_write(&mut ops, regs::PWR_CTL1, 0x00);
        push_write(&mut ops, regs::PWR_CTL2, 0x03);
        push_write(&mut ops, regs::MCLK_SRC_SEL, 0x00);
        push_write(&mut ops, regs::MCLK_FREQ, 0x00);
        push_write(&mut ops, regs::ASP_CTL1, 0x00);
        push_write(&mut ops, regs::ASP_CTL2, 0x07);
        push_write(&mut ops, regs::ASP_CTL3, 0x00);
        let mut f = self.set_digital_filter(DigitalFilter::FastRolloff);
        ops.append(&mut f);
        push_write(&mut ops, regs::HP_A_VOL, 0x00);
        push_write(&mut ops, regs::HP_B_VOL, 0x00);
        push_write(&mut ops, regs::HP_CTL, 0x03);
        push_write(&mut ops, regs::CLASS_H_CTL, 0x01);
        push_write(&mut ops, regs::INT_MASK, 0x00);
        let mut r = self.set_sample_rate(SampleRateCode::Rate44100);
        ops.append(&mut r);
        assert(ops@ =~= init_core_ops());
        ops
    }

    /// Configure balanced mode (differential mono, one channel per DAC).
    pub fn configure_balanced(&mut self) -> (ops: Vec<DacOp>)
        ensures
            *final(self) == *old(self),
            ops@ == balanced_ops(old(self).spec_side()),
    {
        let mut ops: Vec<DacOp> = Vec::new();
        match self.side {
            DacBus::Left => {
                push_write(&mut ops, regs::PCM_PATH_CTL1, 0x00);
            },
            DacBus::Right => {
                push_write(&mut ops, regs::PCM_PATH_CTL1, 0x01);
            },
        }
        push_write(&mut ops, regs::HP_OUT_CTL, 0x0C);
        ops
    }

    /// Configure single-ended stereo mode (both channels on this DAC).
    pub fn configure_se_stereo(&mut self) -> (ops: Vec<DacOp>)
        ensures
            *final(self) == *old(self),
            ops@ == se_ops(),
    {
        let mut ops: Vec<DacOp> = Vec::new();
        push_write(&mut ops, regs::PCM_PATH_CTL1, 0x02);
        push_write(&mut ops, regs::HP_OUT_CTL, 0x04);
        ops
    }

    /// Full initialisation for balanced headphone output.
    pub fn init_balanced(&mut self) -> (ops: Vec<DacOp>)
        ensures
            *final(self) == *old(self),
            ops@ == init_core_ops() + balanced_ops(old(self).spec_side()),
    {
        let mut ops = self.init_core();
        let mut b = self.configure_balanced();
        ops.append(&mut b);
        ops
    }

    /// Full initialisation for single-ended output.
    pub fn init_se(&mut self) -> (ops: Vec<DacOp>)
        ensures
            *final(self) == *old(self),
            ops@ == init_core_ops() + se_ops(),
    {
        let mut ops = self.init_core();
        let mut b = self.configure_se_stereo();
        ops.append(&mut b);
        ops
    }

    /// Set the sample-rate register (the SoC must switch MCLK to match).
    pub fn set_sample_rate(&mut self, rate: SampleRateCode) -> (ops: Vec<DacOp>)
        ensures
            *final(self) == *old(self),
            ops@ == seq![DacOp::WriteReg { reg: regs::SP_SRATE, val: rate_code(rate) }],
    {
        let mut ops: Vec<DacOp> = Vec::new();
        push_write(&mut ops, regs::SP_SRATE, rate.code());
        ops
    }

    /// Select the digital filter: read `DAC_CTL1`, then rewrite its low three bits.
    pub fn set_digital_filter(&mut self, filter: DigitalFilter) -> (ops: Vec<DacOp>)
        ensures
            *final(self) == *old(self),
            ops@ == seq![DacOp::ReadReg { reg: regs::DAC_CTL1 }, DacOp::WriteFilter { filter }],
    {
        let mut ops: Vec<DacOp> = Vec::new();
        ops.push(DacOp::ReadReg { reg: regs::DAC_CTL1 });
        ops.push(DacOp::WriteFilter { filter });
        ops
    }

    /// Set the analog volume attenuation of both outputs (0 = 0 dB, 255 = mute).
    pub fn set_volume(&mut self, atten: u8) -> (ops: Vec<DacOp>)
        ensures
            *final(self) == *old(self),
            ops@ == seq![
                DacOp::WriteReg { reg: regs::HP_A_VOL, val: atten },
                DacOp::WriteReg { reg: regs::HP_B_VOL, val: atten },
            ],
    {
        let mut ops: Vec<DacOp> = Vec::new();
        push_write(&mut ops, regs::HP_A_VOL, atten);
        push_write(&mut ops, regs::HP_B_VOL, atten);
        ops
    }

    /// Switch to native DSD playback at the given rate.
    pub fn enable_dsd(&mut self, rate: SampleRateCode) -> (ops: Vec<DacOp>)
        ensures
            *final(self) == *old(self),
            ops@ == seq![
                DacOp::WriteReg { reg: regs::DSD_CTL1, val: 0x01 },
                DacOp::WriteReg { reg: regs::DSD_PATH_CTL, val: 0x01 },
                DacOp::WriteReg { reg: regs::SP_SRATE, val: rate_code(rate) },
            ],
    {
        let mut ops: Vec<DacOp> = Vec::new();
        push_write(&mut ops, regs::DSD_CTL1, 0x01);
        push_write(&mut ops, regs::DSD_PATH_CTL, 0x01);
        let mut r = self.set_sample_rate(rate);
        ops.append(&mut r);
        ops
    }

    /// Return to PCM after DSD playback.
    pub fn disable_dsd(&mut self) -> (ops: Vec<DacOp>)
        ensures
            *final(self) == *old(self),
            ops@ == seq![
                DacOp::WriteReg { reg: regs::DSD_CTL1, val: 0x00 },
                DacOp::WriteReg { reg: regs::DSD_PATH_CTL, val: 0x00 },
            ],
    {
        let mut ops: Vec<DacOp> = Vec::new();
        push_write(&mut ops, regs::DSD_CTL1, 0x00);
        push_write(&mut ops, regs::DSD_PATH_CTL, 0x00);
        ops
    }

    /// Soft power-down (I2C stays alive).
    pub fn power_down(&mut self) -> (ops: Vec<DacOp>)
        ensures
            *final(self) == *old(self),
            ops@ == seq![DacOp::WriteReg { reg: regs::PWR_CTL1, val: 0x01 }],
    {
        let mut ops: Vec<DacOp> = Vec::new();
        push_write(&mut ops, regs::PWR_CTL1, 0x01);
        ops
    }

    /// Wake from soft power-down.
    pub fn power_up(&mut self) -> (ops: Vec<DacOp>)
        ensures
            *final(self) == *old(self),
            ops@ == seq![DacOp::WriteReg { reg: regs::PWR_CTL1, val: 0x00 }],
    {
        let mut ops: Vec<DacOp> = Vec::new();
        push_write(&mut ops, regs::PWR_CTL1, 0x00);
        ops
    }

    /// The I2C program that reads the silicon revision.
    pub fn revision(&self) -> (ops: Vec<HwOp>)
        requires
            self.wf(),
        ensures
            ops@ == write_read_ops(self.bus_base(), self.i2c_addr(), addr_frame(regs::REV_ID), 1),
    {
        self.read_reg(regs::REV_ID)
    }
}

/// The steps of `ops`, each tagged with the DAC (by its bus) that performs it.
pub open spec fn on_dac(side: DacBus, ops: Seq<DacOp>) -> Seq<(DacBus, DacOp)> {
    Seq::new(ops.len(), |i: int| (side, ops[i]))
}

/// Append the steps of `ops`, tagged with `side`, to `out`.
fn push_on_dac(out: &mut Vec<(DacBus, DacOp)>, side: DacBus, ops: Vec<DacOp>)
    ensures
        final(out)@ == old(out)@ + on_dac(side, ops@),
{
    let ghost start = out@;
    let mut i: usize = 0;
    while i < ops.len()
        invariant
            i <= ops@.len(),
            out@ == start + on_dac(side, ops@.take(i as int)),
        decreases ops@.len() - i,
    {
        out.push((side, ops[i]));
        assert(out@ =~= start + on_dac(side, ops@.take(i + 1)));
        i = i + 1;
    }
    assert(ops@.take(ops@.len() as int) =~= ops@);
}

impl Cs43131 {
    /// The bus (side) this DAC sits on.
    pub fn side(&self) -> (s: DacBus)
        ensures
            s == self.spec_side(),
    {
        self.side
    }
}

/// Balanced mode: both DACs in differential mono.  The steps come in the
/// order they run, each tagged with its DAC's bus: all of the left DAC's
/// initialisation, then all of the right one's.
pub fn set_balanced_mode(left: &mut Cs43131, right: &mut Cs43131) -> (ops: Vec<(DacBus, DacOp)>)
    ensures
        *final(left) == *old(left),
        *final(right) == *old(right),
        ops@ == on_dac(old(left).spec_side(), init_core_ops() + balanced_ops(old(left).spec_side()))
            + on_dac(old(right).spec_side(), init_core_ops() + balanced_ops(old(right).spec_side())),
{
    let mut ops: Vec<(DacBus, DacOp)> = Vec::new();
    let l = left.init_balanced();
    push_on_dac(&mut ops, left.side(), l);
    let r = right.init_balanced();
    push_on_dac(&mut ops, right.side(), r);
    ops
}

/// Single-ended mode: the left DAC drives stereo, then the right one powers
/// down; the steps come in that order, each tagged with its DAC's bus.
pub fn set_se_mode(left: &mut Cs43131, right: &mut Cs43131) -> (ops: Vec<(DacBus, DacOp)>)
    ensures
        *final(left) == *old(left),
        *final(right) == *old(right),
        ops@ == on_dac(old(left).spec_side(), init_core_ops() + se_ops())
            + on_dac(old(right).spec_side(), seq![DacOp::WriteReg { reg: regs::PWR_CTL1, val: 0x01 }]),
{
    let mut ops: Vec<(DacBus, DacOp)> = Vec::new();
    let l = left.init_se();
    push_on_dac(&mut ops, left.side(), l);
    let r = right.power_down();
    push_on_dac(&mut ops, right.side(), r);
    ops
}

/// The rate selected by a raw `SP_SRATE` code; unknown codes (and the DSD
/// codes) select 44.1 kHz.
pub open spec fn rate_for_code(code: u8) -> SampleRateCode {
    if code == 0x02 { SampleRateCode::Rate32000 }
    else if code == 0x04 { SampleRateCode::Rate44100 }
    else if code == 0x05 { SampleRateCode::Rate48000 }
    else if code == 0x08 { SampleRateCode::Rate88200 }
    else if code == 0x09 { SampleRateCode::Rate96000 }
    else if code == 0x0C { SampleRateCode::Rate176400 }
    else if code == 0x0D { SampleRateCode::Rate192000 }
    else if code == 0x10 { SampleRateCode::Rate352800 }
    else if code == 0x11 { SampleRateCode::Rate384000 }
    else { SampleRateCode::Rate44100 }
}

/// The filter selected by a raw code; unknown codes select fast roll-off.
pub open spec fn filter_for_code(code: u8) -> DigitalFilter {
    if code == 1 { DigitalFilter::SlowRolloff }
    else if code == 2 { DigitalFilter::FastMinPhase }
    else if code == 3 { DigitalFilter::SlowMinPhase }
    else if code == 4 { DigitalFilter::ApodizingFast }
    else if code == 5 { DigitalFilter::HybridFastRolloff }
    else if code == 6 { DigitalFilter::Brickwall }
    else { DigitalFilter::FastRolloff }
}

/// Decode a raw sample-rate code.
pub fn rate_from_code(code: u8) -> (r: SampleRateCode)
    ensures
        r == rate_for_code(code),
{
    match code {
        0x02 => SampleRateCode::Rate32000,
        0x04 => SampleRateCode::Rate44100,
        0x05 => SampleRateCode::Rate48000,
        0x08 => SampleRateCode::Rate88200,
        0x09 => SampleRateCode::Rate96000,
        0x0C => SampleRateCode::Rate176400,
        0x0D => SampleRateCode::Rate192000,
        0x10 => SampleRateCode::Rate352800,
        0x11 => SampleRateCode::Rate384000,
        _ => SampleRateCode::Rate44100,
    }
}

/// Decode a raw filter code.
pub fn filter_from_code(code: u8) -> (f: DigitalFilter)
    ensures
        f == filter_for_code(code),
{
    match code {
        0 => DigitalFilter::FastRolloff,
        1 => DigitalFilter::SlowRolloff,
        2 => DigitalFilter::FastMinPhase,
        3 => DigitalFilter::SlowMinPhase,
        4 => DigitalFilter::ApodizingFast,
        5 => DigitalFilter::HybridFastRolloff,
        6 => DigitalFilter::Brickwall,
        _ => DigitalFilter::FastRolloff,
    }
}

/// Decoding a rate's own code gives the rate back, for every PCM rate.
pub proof fn lemma_rate_code_roundtrip(r: SampleRateCode)
    requires
        !(r is DSD64 || r is DSD128 || r is DSD256),
    ensures
        rate_for_code(rate_code(r)) == r,
{
}

/// Decoding a filter's own code gives the filter back.
pub proof fn lemma_filter_code_roundtrip(f: DigitalFilter)
    ensures
        filter_for_code(filter_code(f)) == f,
{
}

/// Interface for DACs that can be swapped in: each method yields the
/// configuration sequence that performs it.
pub trait DacInit {
    /// Full initialisation into bit-perfect balanced mode.
    fn init_balanced(&mut self) -> Vec<DacOp>;
    /// Set hardware (analog) volume: 0 = 0 dB, 255 = mute.
    fn set_volume(&mut self, attenuation: u8) -> Vec<DacOp>;
    /// The sequence that configures the sample rate with raw code `rate_code`.
    spec fn sample_rate_ops(&self, rate_code: u8) -> Seq<DacOp>;

    /// Configure the sample rate from its raw code.
    fn set_sample_rate(&mut self, rate_code: u8) -> (ops: Vec<DacOp>)
        ensures
            ops@ == old(self).sample_rate_ops(rate_code),
    ;
    /// Select the reconstruction filter from its raw code.
    fn set_filter(&mut self, filter_code: u8) -> Vec<DacOp>;
}

impl DacInit for Cs43131 {
    fn init_balanced(&mut self) -> (ops: Vec<DacOp>)
        ensures
            *final(self) == *old(self),
            ops@ == init_core_ops() + balanced_ops(old(self).spec_side()),
    {
        Cs43131::init_balanced(self)
    }

    fn set_volume(&mut self, attenuation: u8) -> (ops: Vec<DacOp>)
        ensures
            *final(self) == *old(self),
            ops@ == seq![
                DacOp::WriteReg { reg: regs::HP_A_VOL, val: attenuation },
                DacOp::WriteReg { reg: regs::HP_B_VOL, val: attenuation },
            ],
    {
        Cs43131::set_volume(self, attenuation)
    }

    /// The write of the rate's `SP_SRATE` code; unknown codes select 44.1 kHz.
    open spec fn sample_rate_ops(&self, code: u8) -> Seq<DacOp> {
        seq![DacOp::WriteReg { reg: regs::SP_SRATE, val: rate_code(rate_for_code(code)) }]
    }

    fn set_sample_rate(&mut self, code: u8) -> (ops: Vec<DacOp>) {
        let rate = rate_from_code(code);
        Cs43131::set_sample_rate(self, rate)
    }

    fn set_filter(&mut self, code: u8) -> (ops: Vec<DacOp>)
        ensures
            *final(self) == *old(self),
            ops@ == seq![DacOp::ReadReg { reg: regs::DAC_CTL1 }, DacOp::WriteFilter { filter: filter_for_code(code) }],
    {
        let filter = filter_from_code(code);
        Cs43131::set_digital_filter(self, filter)
    }
}

} // verus!
