//! SPI master driver (SPI0) for the 1.99" LCD.
use vstd::prelude::*;
use crate::hal::gpio;
use crate::hal::mmio::{self, HwOp, ops_for, extend_ops, SPI0_BASE};

verus! {

pub const SPI_CTRLR0: usize = SPI0_BASE + 0x00;
pub const SPI_CTRLR1: usize = SPI0_BASE + 0x04;
pub const SPI_ENR: usize = SPI0_BASE + 0x08;
pub const SPI_SER: usize = SPI0_BASE + 0x0C;
pub const SPI_BAUDR: usize = SPI0_BASE + 0x10;
pub const SPI_TXFTLR: usize = SPI0_BASE + 0x14;
pub const SPI_RXFTLR: usize = SPI0_BASE + 0x18;
pub const SPI_TXFLR: usize = SPI0_BASE + 0x1C;
pub const SPI_RXFLR: usize = SPI0_BASE + 0x20;
pub const SPI_SR: usize = SPI0_BASE + 0x24;
pub const SPI_DR: usize = SPI0_BASE + 0x60;

/// TX FIFO empty.
pub const SR_TFE: u32 = 1 << 2;
/// Transfer in progress.
pub const SR_BUSY: u32 = 1 << 0;
/// TX FIFO not full.
pub const SR_TFNF: u32 = 1 << 1;

/// SPI chip select lines.
#[derive(Clone, Copy, Debug, PartialEq, Eq, Structural)]
pub enum CsPin {
    Cs0,
}

/// Control register 0: 8-bit frames (DFS = 7), mode 0, transmit and receive.
pub const CTRLR0_MODE0_8BIT: u32 = (0x07 << 0) | (0 << 6) | (0 << 7) | (0 << 8);

/// Initialise SPI0 in master mode 0 with 8-bit frames and the given clock divider.
pub fn init(divider: u32) -> (ops: Vec<HwOp>)
    ensures
        ops@ == seq![
            HwOp::Write { addr: SPI_ENR, val: 0 },
            HwOp::Write { addr: SPI_CTRLR0, val: CTRLR0_MODE0_8BIT },
            HwOp::Write { addr: SPI_BAUDR, val: divider },
            HwOp::Write { addr: SPI_TXFTLR, val: 0 },
            HwOp::Write { addr: SPI_ENR, val: 1 },
        ],
{
    let mut ops: Vec<HwOp> = Vec::new();
    ops.push(mmio::write32(SPI_ENR, 0));
    ops.push(mmio::write32(SPI_CTRLR0, CTRLR0_MODE0_8BIT));
    ops.push(mmio::write32(SPI_BAUDR, divider));
    ops.push(mmio::write32(SPI_TXFTLR, 0));
    ops.push(mmio::write32(SPI_ENR, 1));
    ops
}

/// GPIO bank of the LCD chip-select line.
pub fn gpio_cs_bank() -> (b: usize)
    ensures
        b == 0,
{
    0
}

/// GPIO pin of the LCD chip-select line.
pub fn gpio_cs_pin() -> (p: u8)
    ensures
        p == 20,
{
    20
}

/// GPIO bank of the LCD data/command line.
pub fn gpio_dc_bank() -> (b: usize)
    ensures
        b == 0,
{
    0
}

/// GPIO pin of the LCD data/command line (low: command, high: data).
pub fn gpio_dc_pin() -> (p: u8)
    ensures
        p == 21,
{
    21
}

/// Assert chip-select (active low, driven by GPIO).
pub fn cs_assert(_pin: CsPin) -> (ops: Vec<HwOp>)
    ensures
        ops@ == seq![HwOp::ClearBits { addr: GPIO0_DR, mask: 1u32 << 20u32 }],
{
    gpio::write_pin(gpio_cs_bank(), gpio_cs_pin(), false)
}

/// De-assert chip-select.
pub fn cs_deassert(_pin: CsPin) -> (ops: Vec<HwOp>)
    ensures
        ops@ == seq![HwOp::SetBits { addr: GPIO0_DR, mask: 1u32 << 20u32 }],
{
    gpio::write_pin(gpio_cs_bank(), gpio_cs_pin(), true)
}

/// The output data register of GPIO bank 0, where the LCD control lines sit.
pub const GPIO0_DR: usize = mmio::GPIO0_BASE;

/// The program that sends one byte: wait for room in the TX FIFO, write the
/// byte, wait until the FIFO drains and the bus is idle.
pub open spec fn byte_ops(b: u8) -> Seq<HwOp> {
    seq![
        HwOp::WaitFor { addr: SPI_SR, mask: SR_TFNF, expected: SR_TFNF },
        HwOp::Write { addr: SPI_DR, val: b as u32 },
        HwOp::WaitFor { addr: SPI_SR, mask: SR_TFE, expected: SR_TFE },
        HwOp::WaitFor { addr: SPI_SR, mask: SR_BUSY, expected: 0 },
    ]
}

/// Blocking: send a single byte.
pub fn write_byte(b: u8) -> (ops: Vec<HwOp>)
    ensures
        ops@ == byte_ops(b),
{
    let mut ops: Vec<HwOp> = Vec::new();
    ops.push(mmio::wait_for(SPI_SR, SR_TFNF, SR_TFNF));
    ops.push(mmio::write32(SPI_DR, b as u32));
    ops.push(mmio::wait_for(SPI_SR, SR_TFE, SR_TFE));
    ops.push(mmio::wait_for(SPI_SR, SR_BUSY, 0));
    ops
}

/// The program that sends a command byte: D/C low, the byte, D/C high.
pub open spec fn cmd_ops(cmd: u8) -> Seq<HwOp> {
    seq![HwOp::ClearBits { addr: GPIO0_DR, mask: 1u32 << 21u32 }]
        + byte_ops(cmd)
        + seq![HwOp::SetBits { addr: GPIO0_DR, mask: 1u32 << 21u32 }]
}

/// Blocking: send a command byte with D/C low, then leave D/C high for data.
pub fn lcd_write_cmd(cmd: u8) -> (ops: Vec<HwOp>)
    ensures
        ops@ == cmd_ops(cmd),
{
    let mut ops = gpio::write_pin(gpio_dc_bank(), gpio_dc_pin(), false);
    extend_ops(&mut ops, write_byte(cmd));
    extend_ops(&mut ops, gpio::write_pin(gpio_dc_bank(), gpio_dc_pin(), true));
    ops
}

/// The program that sends every byte of `data` in order.
pub open spec fn data_ops(data: Seq<u8>) -> Seq<HwOp> {
    ops_for(data.len() as int, |i: int| byte_ops(data[i]))
}

/// Blocking: send a slice of data bytes.
pub fn write_data(data: &[u8]) -> (ops: Vec<HwOp>)
    ensures
        ops@ == data_ops(data@),
{
    let mut ops: Vec<HwOp> = Vec::new();
    let mut i: usize = 0;
    while i < data.len()
        invariant
            i <= data@.len(),
            ops@ == ops_for(i as int, |k: int| byte_ops(data@[k])),
        decreases data@.len() - i,
    {
        extend_ops(&mut ops, write_byte(data[i]));
        i = i + 1;
    }
    ops
}

/// Physical address of the SPI data register (for DMA transfers).
pub fn data_register_addr() -> (a: usize)
    ensures
        a == SPI_DR,
{
    SPI_DR
}

} // verus!
