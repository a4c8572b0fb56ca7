//! GPIO driver for the RKNanoD (DesignWare GPIO, banks of 32 pins).
use vstd::prelude::*;
use crate::hal::mmio::{self, HwOp, GPIO0_BASE, CRU_BASE};

verus! {

/// GPIO bank stride (0x400 between banks).
pub const BANK_STRIDE: usize = 0x400;

pub const SWPORTA_DR: usize = 0x00;
pub const SWPORTA_DDR: usize = 0x04;
pub const INTEN: usize = 0x30;
pub const INTMASK: usize = 0x34;
pub const INTTYPE: usize = 0x38;
pub const INTPOL: usize = 0x3C;
pub const INTSTATUS: usize = 0x40;
pub const EOI: usize = 0x4C;
pub const EXT_PORTA: usize = 0x50;

/// Base address of a GPIO bank.
pub open spec fn bank_addr(bank: usize) -> int {
    GPIO0_BASE + bank * BANK_STRIDE
}

/// The mask of one pin.
pub open spec fn pin_bit(pin: u8) -> u32 {
    1u32 << pin
}

/// The program of `set_output`.
pub open spec fn set_output_ops(bank: usize, pin: u8) -> Seq<HwOp> {
    seq![
        HwOp::SetBits { addr: (bank_addr(bank) + SWPORTA_DDR) as usize, mask: pin_bit(pin) },
        HwOp::ClearBits { addr: (bank_addr(bank) + INTEN) as usize, mask: pin_bit(pin) },
    ]
}

/// The program of `write_pin`.
pub open spec fn write_pin_ops(bank: usize, pin: u8, high: bool) -> Seq<HwOp> {
    if high {
        seq![HwOp::SetBits { addr: bank_addr(bank) as usize, mask: pin_bit(pin) }]
    } else {
        seq![HwOp::ClearBits { addr: bank_addr(bank) as usize, mask: pin_bit(pin) }]
    }
}

/// The program of `set_input_irq_falling`.
pub open spec fn irq_falling_ops(bank: usize, pin: u8) -> Seq<HwOp> {
    seq![
        HwOp::ClearBits { addr: (bank_addr(bank) + SWPORTA_DDR) as usize, mask: pin_bit(pin) },
        HwOp::SetBits { addr: (bank_addr(bank) + INTTYPE) as usize, mask: pin_bit(pin) },
        HwOp::ClearBits { addr: (bank_addr(bank) + INTPOL) as usize, mask: pin_bit(pin) },
        HwOp::ClearBits { addr: (bank_addr(bank) + INTMASK) as usize, mask: pin_bit(pin) },
        HwOp::SetBits { addr: (bank_addr(bank) + INTEN) as usize, mask: pin_bit(pin) },
        HwOp::Write { addr: (bank_addr(bank) + EOI) as usize, val: pin_bit(pin) },
    ]
}

/// The program of `clear_irq`.
pub open spec fn clear_irq_ops(bank: usize, pin: u8) -> Seq<HwOp> {
    seq![HwOp::Write { addr: (bank_addr(bank) + EOI) as usize, val: pin_bit(pin) }]
}

/// Bank base address.
pub fn bank_base(bank: usize) -> (base: usize)
    requires
        bank_addr(bank) <= usize::MAX,
    ensures
        base == bank_addr(bank),
{
    GPIO0_BASE + bank * BANK_STRIDE
}

/// Configure a pin as GPIO output: direction out, interrupt disabled.
pub fn set_output(bank: usize, pin: u8) -> (ops: Vec<HwOp>)
    requires
        bank_addr(bank) + INTEN <= usize::MAX,
        pin < 32,
    ensures
        ops@ == set_output_ops(bank, pin),
{
    let base = bank_base(bank);
    let bit = 1u32 << pin;
    let mut ops: Vec<HwOp> = Vec::new();
    ops.push(mmio::set_bits(base + SWPORTA_DDR, bit));
    ops.push(mmio::clear_bits(base + INTEN, bit));
    ops
}

/// Configure a pin as GPIO input: direction in, interrupt disabled.
pub fn set_input(bank: usize, pin: u8) -> (ops: Vec<HwOp>)
    requires
        bank_addr(bank) + INTEN <= usize::MAX,
        pin < 32,
    ensures
        ops@ == seq![
            HwOp::ClearBits { addr: (bank_addr(bank) + SWPORTA_DDR) as usize, mask: pin_bit(pin) },
            HwOp::ClearBits { addr: (bank_addr(bank) + INTEN) as usize, mask: pin_bit(pin) },
        ],
{
    let base = bank_base(bank);
    let bit = 1u32 << pin;
    let mut ops: Vec<HwOp> = Vec::new();
    ops.push(mmio::clear_bits(base + SWPORTA_DDR, bit));
    ops.push(mmio::clear_bits(base + INTEN, bit));
    ops
}

/// Configure a pin as input with an interrupt on the falling edge.
pub fn set_input_irq_falling(bank: usize, pin: u8) -> (ops: Vec<HwOp>)
    requires
        bank_addr(bank) + EOI <= usize::MAX,
        pin < 32,
    ensures
        ops@ == irq_falling_ops(bank, pin),
{
    let base = bank_base(bank);
    let bit = 1u32 << pin;
    let mut ops: Vec<HwOp> = Vec::new();
    ops.push(mmio::clear_bits(base + SWPORTA_DDR, bit));
    ops.push(mmio::set_bits(base + INTTYPE, bit));
    ops.push(mmio::clear_bits(base + INTPOL, bit));
    ops.push(mmio::clear_bits(base + INTMASK, bit));
    ops.push(mmio::set_bits(base + INTEN, bit));
    ops.push(mmio::write32(base + EOI, bit));
    ops
}

/// Drive an output pin high or low.
pub fn write_pin(bank: usize, pin: u8, high: bool) -> (ops: Vec<HwOp>)
    requires
        bank_addr(bank) <= usize::MAX,
        pin < 32,
    ensures
        ops@ == write_pin_ops(bank, pin, high),
{
    let base = bank_base(bank);
    let bit = 1u32 << pin;
    let mut ops: Vec<HwOp> = Vec::new();
    if high {
        ops.push(mmio::set_bits(base + SWPORTA_DR, bit));
    } else {
        ops.push(mmio::clear_bits(base + SWPORTA_DR, bit));
    }
    ops
}

/// Address of the register that holds the input level of every pin of a bank.
pub fn ext_port_addr(bank: usize) -> (addr: usize)
    requires
        bank_addr(bank) + EXT_PORTA <= usize::MAX,
    ensures
        addr == bank_addr(bank) + EXT_PORTA,
{
    bank_base(bank) + EXT_PORTA
}

/// The level of `pin`, given the value read from its bank's input register.
pub fn read_pin(ext_port: u32, pin: u8) -> (high: bool)
    requires
        pin < 32,
    ensures
        high == (ext_port & pin_bit(pin) != 0),
{
    ext_port & (1u32 << pin) != 0
}

/// Clear the edge-interrupt flag of a pin.
pub fn clear_irq(bank: usize, pin: u8) -> (ops: Vec<HwOp>)
    requires
        bank_addr(bank) + EOI <= usize::MAX,
        pin < 32,
    ensures
        ops@ == clear_irq_ops(bank, pin),
{
    let base = bank_base(bank);
    let mut ops: Vec<HwOp> = Vec::new();
    ops.push(mmio::write32(base + EOI, 1u32 << pin));
    ops
}

/// The read of a bank's pending edge-interrupt flags (INTSTATUS); the value
/// read has bit `n` set when pin `n` has a pending interrupt.
pub fn pending_irqs(bank: usize) -> (op: HwOp)
    requires
        bank_addr(bank) + INTSTATUS <= usize::MAX,
    ensures
        op == (HwOp::Read { addr: (bank_addr(bank) + INTSTATUS) as usize }),
{
    mmio::read32(bank_base(bank) + INTSTATUS)
}

/// Address of the IOMUX register of a bank (two bits per pin, in the CRU).
pub open spec fn iomux_addr(bank: usize) -> int {
    CRU_BASE + 0xC0 + bank * 4
}

/// Select the alternate function `func` (0 = GPIO, 1..3) of a pin.
pub fn set_function(bank: usize, pin: u8, func: u8) -> (ops: Vec<HwOp>)
    requires
        iomux_addr(bank) <= usize::MAX,
        pin < 16,
    ensures
        ops@ == seq![HwOp::Modify {
            addr: iomux_addr(bank) as usize,
            clear: 3u32 << (2 * pin) as u32,
            set: ((func as u32) & 3u32) << (2 * pin) as u32,
        }],
{
    let iomux_base = CRU_BASE + 0xC0 + bank * 4;
    let shift = (pin as u32) * 2;
    let mask = 0x3u32 << shift;
    let val = ((func as u32) & 0x3) << shift;
    let mut ops: Vec<HwOp> = Vec::new();
    ops.push(mmio::modify_bits(iomux_base, mask, val));
    ops
}

} // verus!
