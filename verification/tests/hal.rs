use std::collections::HashMap;

use echo_mini_os::hal::dma::{self, DmaFlags, TransferWidth, DMAC_INTERR_CL, DMAC_INTTC_CL};
use echo_mini_os::hal::gpio;
use echo_mini_os::hal::i2c::{
    I2cBus, I2cError, I2cOperation, I2C_CLR_TX_ABRT, I2C_DATACMD, I2C_STATUS, I2C_TAR, I2C_TX_ABRT, STATUS_RFNE,
    STATUS_TFNF,
};
use echo_mini_os::hal::i2s::{self, I2sConfig, SampleWidth};
use echo_mini_os::hal::interrupt::{dispatch, nvic_enabled, nvic_priorities, register, HandlerTable, IrqNum, IRQ_COUNT};
use echo_mini_os::hal::mmio::{self, Executor, Fault, HwOp, Request, I2C0_BASE};
use echo_mini_os::hal::spi::{self, CsPin};

/// Run a program against a register file; returns the outcome and the writes made.
fn run(ops: Vec<HwOp>, regs: &mut HashMap<usize, u32>) -> (Result<Vec<u8>, Fault>, Vec<(usize, u32)>) {
    run_with_rx(ops, regs, None)
}

/// Like `run`, but reads of `rx.0` always give `rx.1` (a receive FIFO that
/// writes to the same address do not change).
fn run_with_rx(
    ops: Vec<HwOp>,
    regs: &mut HashMap<usize, u32>,
    rx: Option<(usize, u32)>,
) -> (Result<Vec<u8>, Fault>, Vec<(usize, u32)>) {
    let mut ex = Executor::new(ops);
    let mut writes = Vec::new();
    loop {
        match ex.request() {
            Request::Done => break,
            Request::Read { addr } => {
                let v = match rx {
                    Some((a, v)) if a == addr => v,
                    _ => *regs.get(&addr).unwrap_or(&0),
                };
                ex.complete(v);
            }
            Request::Write { addr, val } => {
                regs.insert(addr, val);
                writes.push((addr, val));
                ex.complete(0);
            }
            Request::Spin { .. } | Request::Fence | Request::AwaitLcdDma | Request::ResetLcdDma => ex.complete(0),
        }
    }
    (ex.outcome(), writes)
}

fn ready_i2c() -> HashMap<usize, u32> {
    let mut regs = HashMap::new();
    regs.insert(I2C0_BASE + I2C_STATUS, STATUS_TFNF | STATUS_RFNE);
    regs
}

#[test]
fn executor_read_modify_write() {
    let mut regs = HashMap::new();
    regs.insert(0x100, 0b0011);
    regs.insert(0x104, 0b1111);
    regs.insert(0x108, 0xF0);
    let ops = vec![
        mmio::set_bits(0x100, 0b0100),
        mmio::clear_bits(0x104, 0b0110),
        mmio::modify_bits(0x108, 0xF0, 0x0A),
        mmio::write32(0x10C, 7),
    ];
    let (out, writes) = run(ops, &mut regs);
    assert_eq!(out, Ok(vec![]));
    assert_eq!(writes, vec![(0x100, 0b0111), (0x104, 0b1001), (0x108, 0x0A), (0x10C, 7)]);
}

#[test]
fn executor_poll_times_out() {
    let mut regs = HashMap::new();
    let ops = vec![HwOp::Poll { addr: 0x200, mask: 1, expected: 1, limit: 3 }, mmio::write32(0x204, 1)];
    let (out, writes) = run(ops, &mut regs);
    assert_eq!(out, Err(Fault::Timeout));
    assert!(writes.is_empty());
}

#[test]
fn executor_wait_for_and_capture() {
    let mut regs = HashMap::new();
    regs.insert(0x300, 0x81);
    regs.insert(0x304, 0x1234);
    let ops = vec![mmio::wait_for(0x300, 0x80, 0x80), HwOp::Capture { addr: 0x304 }, mmio::read32(0x300)];
    let (out, _) = run(ops, &mut regs);
    assert_eq!(out, Ok(vec![0x34]));
}

#[test]
fn init_platform_program() {
    let ops = mmio::init_platform();
    assert_eq!(ops[0], HwOp::Write { addr: mmio::WDT_BASE, val: 0 });
    assert_eq!(
        ops[1],
        HwOp::Modify { addr: mmio::CRU_BASE + 0x80, clear: mmio::CLK_ENABLE_MASK, set: mmio::CLK_ENABLE_MASK << 16 }
    );
    assert_eq!(mmio::CLK_ENABLE_MASK, 0x132F);
}

#[test]
fn i2c_write_sends_bytes_with_stop_on_last() {
    let bus = I2cBus::new(I2C0_BASE);
    let mut regs = ready_i2c();
    let (out, writes) = run(bus.write(0x30, &[0xAA, 0xBB]), &mut regs);
    assert_eq!(out, Ok(vec![]));
    assert!(writes.contains(&(I2C0_BASE + I2C_TAR, 0x30)));
    let data: Vec<u32> = writes.iter().filter(|w| w.0 == I2C0_BASE + I2C_DATACMD).map(|w| w.1).collect();
    assert_eq!(data, vec![0xAA, 0xBB | (1 << 9)]);
}

#[test]
fn i2c_write_read_captures_bytes() {
    let bus = I2cBus::new(I2C0_BASE);
    let mut regs = ready_i2c();
    let (out, writes) = run_with_rx(bus.write_read(0x32, &[0x01], 2), &mut regs, Some((I2C0_BASE + I2C_DATACMD, 0x5A)));
    assert_eq!(out, Ok(vec![0x5A, 0x5A]));
    let data: Vec<u32> = writes.iter().filter(|w| w.0 == I2C0_BASE + I2C_DATACMD).map(|w| w.1).collect();
    assert_eq!(data, vec![0x01, 1 << 8, (1 << 8) | (1 << 9)]);
}

#[test]
fn i2c_nack_is_reported_and_acknowledged() {
    let bus = I2cBus::new(I2C0_BASE);
    let mut regs = ready_i2c();
    regs.insert(I2C0_BASE + I2C_TX_ABRT, 1);
    let ops = bus.write(0x30, &[1]);
    let mut ex = Executor::new(ops);
    let mut cleared = false;
    loop {
        match ex.request() {
            Request::Done => break,
            Request::Read { addr } => {
                if addr == I2C0_BASE + I2C_CLR_TX_ABRT {
                    cleared = true;
                }
                ex.complete(*regs.get(&addr).unwrap_or(&0));
            }
            _ => ex.complete(0),
        }
    }
    assert!(cleared);
    let err = ex.outcome().unwrap_err();
    assert_eq!(err, Fault::Aborted);
    assert_eq!(I2cError::from_fault(err), I2cError::Nack);
}

#[test]
fn i2c_timeout_error() {
    let bus = I2cBus::new(I2C0_BASE);
    let mut regs = HashMap::new();
    regs.insert(I2C0_BASE + I2C_STATUS, 1 << 5); // busy forever
    let (out, _) = run(bus.write(0x30, &[1]), &mut regs);
    assert_eq!(out, Err(Fault::Timeout));
    assert_eq!(I2cError::from_fault(Fault::Timeout), I2cError::Timeout);
}

#[test]
fn i2c_transaction_runs_operations_in_order() {
    let bus = I2cBus::new(I2C0_BASE);
    let ops = bus.transaction(0x30, &[I2cOperation::Write(vec![1, 2]), I2cOperation::Read(1)]);
    let mut expected = bus.write(0x30, &[1, 2]);
    expected.extend(bus.write_read(0x30, &[], 1));
    assert_eq!(ops, expected);
    let mut regs = ready_i2c();
    let (out, _) = run_with_rx(ops, &mut regs, Some((I2C0_BASE + I2C_DATACMD, 0x77)));
    assert_eq!(out, Ok(vec![0x77]));
    assert!(bus.transaction(0x30, &[]).is_empty());
}

#[test]
fn i2c_init_speed_modes() {
    let bus = I2cBus::new(I2C0_BASE);
    let fast = bus.init(true);
    let std = bus.init(false);
    assert_eq!(fast[0], HwOp::Write { addr: I2C0_BASE + 0x6C, val: 0 });
    assert_eq!(fast[1], HwOp::Write { addr: I2C0_BASE, val: 1 | (2 << 1) | (1 << 5) | (1 << 6) });
    assert_eq!(std[1], HwOp::Write { addr: I2C0_BASE, val: 1 | (1 << 1) | (1 << 5) | (1 << 6) });
    assert_eq!(*fast.last().unwrap(), HwOp::Write { addr: I2C0_BASE + 0x6C, val: 1 });
}

#[test]
fn gpio_programs() {
    let base = mmio::GPIO0_BASE + 0x400;
    assert_eq!(
        gpio::set_output(1, 3),
        vec![HwOp::SetBits { addr: base + 0x04, mask: 8 }, HwOp::ClearBits { addr: base + 0x30, mask: 8 }]
    );
    assert_eq!(gpio::write_pin(1, 3, true), vec![HwOp::SetBits { addr: base, mask: 8 }]);
    assert_eq!(gpio::write_pin(1, 3, false), vec![HwOp::ClearBits { addr: base, mask: 8 }]);
    assert_eq!(gpio::clear_irq(0, 4), vec![HwOp::Write { addr: mmio::GPIO0_BASE + 0x4C, val: 16 }]);
    assert_eq!(gpio::pending_irqs(1), HwOp::Read { addr: base + 0x40 });
    assert_eq!(gpio::set_input_irq_falling(0, 1).len(), 6);
    assert_eq!(gpio::set_input(0, 2)[0], HwOp::ClearBits { addr: mmio::GPIO0_BASE + 0x04, mask: 4 });
    assert_eq!(
        gpio::set_function(1, 5, 2),
        vec![HwOp::Modify { addr: mmio::CRU_BASE + 0xC0 + 4, clear: 3 << 10, set: 2 << 10 }]
    );
    assert_eq!(gpio::set_function(0, 0, 7)[0], HwOp::Modify { addr: mmio::CRU_BASE + 0xC0, clear: 3, set: 3 });
}

#[test]
fn gpio_read_pin_bits() {
    assert!(gpio::read_pin(0b1000, 3));
    assert!(!gpio::read_pin(0b1000, 2));
    assert!(gpio::read_pin(1 << 31, 31));
}

#[test]
fn dma_programs_and_irq_flags() {
    let ops = dma::setup_single(1, 0x1000, 0x2000, 64, dma::HS_SPI0_TX, TransferWidth::HalfWord, TransferWidth::HalfWord);
    let base = dma::ch_base(1);
    assert_eq!(base, mmio::DMA_BASE + 0x120);
    assert_eq!(ops[0], HwOp::Write { addr: base, val: 0x1000 });
    assert_eq!(ops[3], HwOp::Write { addr: base + 0x0C, val: 1 | (1 << 4) | (1 << 1) | (2 << 7) | (1 << 20) });
    assert_eq!(ops[5], HwOp::Write { addr: base + 0x18, val: 2 << 7 });
    let linked = dma::start_linked(0, 0x3000, dma::HS_I2S0_TX);
    assert_eq!(linked[1], HwOp::Write { addr: dma::ch_base(0) + 0x0C, val: dma::LINKED_CTL });
    assert_eq!(TransferWidth::Word.code(), 2);

    let mut flags = DmaFlags::new();
    let ops = dma::irq_handler(0b11, 0, &mut flags);
    assert!(flags.audio_done && flags.lcd_done);
    assert_eq!(ops, vec![HwOp::Write { addr: DMAC_INTTC_CL, val: 1 }, HwOp::Write { addr: DMAC_INTTC_CL, val: 2 }]);
    assert!(flags.take_lcd_done());
    assert!(!flags.take_lcd_done());
    assert!(flags.audio_done);
    assert!(dma::irq_handler(0, 0, &mut flags).is_empty());
    assert_eq!(
        dma::irq_handler(1, 0x20, &mut flags),
        vec![HwOp::Write { addr: DMAC_INTTC_CL, val: 1 }, HwOp::Write { addr: DMAC_INTERR_CL, val: 0x20 }]
    );
    assert_eq!(dma::irq_handler(0, 0x04, &mut flags), vec![HwOp::Write { addr: DMAC_INTERR_CL, val: 0x04 }]);
    assert_eq!(dma::clear_errors(4), vec![HwOp::Write { addr: DMAC_INTERR_CL, val: 4 }]);
    assert!(dma::clear_errors(0).is_empty());
    assert_eq!(dma::init().len(), 3);
}

#[test]
fn i2s_programs() {
    let cfg = I2sConfig { sample_width: SampleWidth::Bits32, mclk_div: 0, bclk_div: 7 };
    let ops = i2s::init(&cfg);
    assert_eq!(ops[3], HwOp::Write { addr: i2s::I2S_TXCR, val: 31 });
    let narrow = I2sConfig { sample_width: SampleWidth::Bits16, mclk_div: 1, bclk_div: 4 };
    let ops16 = i2s::init(&narrow);
    assert_eq!(ops16[3], HwOp::Write { addr: i2s::I2S_TXCR, val: 31 });
    assert_eq!(ops16[4], HwOp::Write { addr: i2s::I2S_CKR, val: 0x0001_0404 });
    assert_eq!(ops16[5], HwOp::Write { addr: i2s::I2S_DMACR, val: 0x81 });
    assert_eq!(ops[4], HwOp::Write { addr: i2s::I2S_CKR, val: (7 << 8) | 7 });
    assert_eq!(ops[5], HwOp::Write { addr: i2s::I2S_DMACR, val: 1 | (8 << 4) });
    assert_eq!(SampleWidth::Bits24.vdw(), 23);
    assert!(i2s::tx_fifo_empty(0x40));
    assert!(!i2s::tx_fifo_empty(0x01));
    assert_eq!(i2s::start_tx(), vec![HwOp::SetBits { addr: i2s::I2S_XFER, mask: 1 }]);
    assert_eq!(i2s::stop_tx(), vec![HwOp::ClearBits { addr: i2s::I2S_XFER, mask: 1 }]);
    assert_eq!(i2s::data_register_addr(), i2s::I2S_TXDR);
}

#[test]
fn interrupt_table_register_and_dispatch() {
    let mut table = HandlerTable::new(0u32);
    register(&mut table, 10, 7u32);
    register(&mut table, 0, 9u32);
    assert_eq!(dispatch(&table, 10), 7);
    assert_eq!(dispatch(&table, 0), 9);
    assert_eq!(dispatch(&table, 1), 0);
    register(&mut table, 10, 8u32);
    assert_eq!(dispatch(&table, 10), 8);
    assert_eq!(dispatch(&table, (IRQ_COUNT - 1) as u8), 0);
}

#[test]
fn nvic_plan() {
    let prios = nvic_priorities();
    assert_eq!(prios.len(), 8);
    assert_eq!(prios[0], (IrqNum(0), 0x10));
    let gpio0 = prios.iter().find(|p| p.0 == IrqNum(10)).unwrap();
    // The UI line has the lowest urgency (largest number) of all.
    assert!(prios.iter().all(|p| p.1 <= gpio0.1));
    // The audio DMA line is strictly the most urgent.
    assert!(prios.iter().skip(1).all(|p| p.1 > prios[0].1));
    assert_eq!(nvic_enabled(), vec![IrqNum(0), IrqNum(1), IrqNum(4), IrqNum(5), IrqNum(10)]);
    assert_eq!(IrqNum(14).number(), 14);
}

#[test]
fn spi_programs() {
    assert_eq!(spi::init(3)[2], HwOp::Write { addr: spi::SPI_BAUDR, val: 3 });
    assert_eq!(spi::init(3).len(), 5);
    assert_eq!(spi::cs_assert(CsPin::Cs0), vec![HwOp::ClearBits { addr: spi::GPIO0_DR, mask: 1 << 20 }]);
    assert_eq!(spi::cs_deassert(CsPin::Cs0), vec![HwOp::SetBits { addr: spi::GPIO0_DR, mask: 1 << 20 }]);
    assert_eq!(spi::write_byte(0x5A)[1], HwOp::Write { addr: spi::SPI_DR, val: 0x5A });
    assert_eq!(spi::write_data(&[1, 2, 3]).len(), 12);
    assert!(spi::write_data(&[]).is_empty());
    assert_eq!(spi::data_register_addr(), spi::SPI_DR);
    assert_eq!((spi::gpio_cs_bank(), spi::gpio_cs_pin(), spi::gpio_dc_bank(), spi::gpio_dc_pin()), (0, 20, 0, 21));
}

#[test]
fn i2s_dma_request_bits() {
    assert_eq!(i2s::enable_dma(), vec![HwOp::SetBits { addr: i2s::I2S_DMACR, mask: i2s::DMACR_TDE }]);
    assert_eq!(i2s::disable_dma(), vec![HwOp::ClearBits { addr: i2s::I2S_DMACR, mask: i2s::DMACR_TDE }]);
    assert_eq!(i2s::flush_tx(), vec![HwOp::Write { addr: i2s::I2S_CLR, val: i2s::CLR_TXC }, HwOp::Spin { cycles: 64 }]);
}
