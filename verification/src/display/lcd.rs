//! ST7789V LCD (170 x 320) on SPI with a data/command GPIO.
use vstd::prelude::*;
use crate::hal::{gpio, spi};
use crate::hal::gpio::{set_output_ops, write_pin_ops};
use crate::hal::mmio::{HwOp, extend_ops};
use crate::hal::spi::{cmd_ops, data_ops};
use crate::display::framebuffer::{self, FrameBuffer, FB_SIZE, WIDTH, HEIGHT, flush_blocking_ops, flush_dma_ops};

pub mod cmd;

verus! {

pub const LCD_RST_BANK: usize = 1;
pub const LCD_RST_PIN: u8 = 2;
pub const LCD_BL_BANK: usize = 1;
pub const LCD_BL_PIN: u8 = 3;

/// Busy-loop iterations per millisecond (about 96 MHz core clock).
pub const LOOPS_PER_MS: u32 = 96_000;

/// A command byte, then its data bytes if it has any.
pub open spec fn send_cmd_ops(c: u8, data: Seq<u8>) -> Seq<HwOp> {
    cmd_ops(c) + (if data.len() > 0 { data_ops(data) } else { Seq::empty() })
}

pub open spec fn delay_ops(ms: u32) -> Seq<HwOp> {
    seq![HwOp::Spin { cycles: (ms * LOOPS_PER_MS) as u32 }]
}

/// Column and row address set (big-endian 16-bit bounds), then memory write.
pub open spec fn window_ops(x0: u16, y0: u16, x1: u16, y1: u16) -> Seq<HwOp> {
    send_cmd_ops(cmd::CASET, seq![(x0 >> 8u16) as u8, (x0 & 0xFF) as u8, (x1 >> 8u16) as u8, (x1 & 0xFF) as u8])
        + send_cmd_ops(cmd::RASET, seq![(y0 >> 8u16) as u8, (y0 & 0xFF) as u8, (y1 >> 8u16) as u8, (y1 & 0xFF) as u8])
        + cmd_ops(cmd::RAMWR)
}

/// The full start-up program: control GPIOs, hardware reset, SPI at ~8 MHz,
/// chip select, software reset, wake, 16-bit pixels, portrait, ~60 Hz,
/// inversion on, normal mode, display on, full-screen window, backlight on,
/// then the (cleared) framebuffer at `fb_addr` sent by DMA.
pub open spec fn init_ops(fb_addr: usize) -> Seq<HwOp> {
    set_output_ops(LCD_RST_BANK, LCD_RST_PIN)
        + set_output_ops(LCD_BL_BANK, LCD_BL_PIN)
        + write_pin_ops(LCD_RST_BANK, LCD_RST_PIN, false)
        + delay_ops(10)
        + write_pin_ops(LCD_RST_BANK, LCD_RST_PIN, true)
        + delay_ops(120)
        + seq![
            HwOp::Write { addr: spi::SPI_ENR, val: 0 },
            HwOp::Write { addr: spi::SPI_CTRLR0, val: spi::CTRLR0_MODE0_8BIT },
            HwOp::Write { addr: spi::SPI_BAUDR, val: 3 },
            HwOp::Write { addr: spi::SPI_TXFTLR, val: 0 },
            HwOp::Write { addr: spi::SPI_ENR, val: 1 },
        ]
        + seq![HwOp::ClearBits { addr: spi::GPIO0_DR, mask: 1u32 << 20u32 }]
        + send_cmd_ops(cmd::SWRESET, Seq::empty())
        + delay_ops(150)
        + send_cmd_ops(cmd::SLPOUT, Seq::empty())
        + delay_ops(50)
        + send_cmd_ops(cmd::COLMOD, seq![0x55u8])
        + send_cmd_ops(cmd::MADCTL, seq![0x00u8])
        + send_cmd_ops(cmd::FRMCTR1, seq![0x01u8, 0x08u8, 0x01u8, 0x08u8])
        + send_cmd_ops(cmd::INVON, Seq::empty())
        + send_cmd_ops(cmd::NORON, Seq::empty())
        + delay_ops(10)
        + send_cmd_ops(cmd::DISPON, Seq::empty())
        + delay_ops(10)
        + window_ops(0, 0, (WIDTH - 1) as u16, (HEIGHT - 1) as u16)
        + write_pin_ops(LCD_BL_BANK, LCD_BL_PIN, true)
        + flush_blocking_ops(fb_addr)
}

/// Send a command with optional data bytes.
pub fn send_cmd(c: u8, data: &[u8]) -> (ops: Vec<HwOp>)
    ensures
        ops@ == send_cmd_ops(c, data@),
{
    let mut ops = spi::lcd_write_cmd(c);
    if data.len() > 0 {
        extend_ops(&mut ops, spi::write_data(data));
    } else {
        assert(ops@ =~= cmd_ops(c) + Seq::<HwOp>::empty());
    }
    ops
}

/// Busy-wait for about `ms` milliseconds.
pub fn delay_ms(ms: u32) -> (ops: Vec<HwOp>)
    requires
        ms * LOOPS_PER_MS <= u32::MAX,
    ensures
        ops@ == delay_ops(ms),
{
    let iterations = ms * LOOPS_PER_MS;
    let mut ops: Vec<HwOp> = Vec::new();
    ops.push(HwOp::Spin { cycles: iterations });
    ops
}

/// Set the active drawing window (column and row address range), then
/// start a memory write.
pub fn set_window(x0: u16, y0: u16, x1: u16, y1: u16) -> (ops: Vec<HwOp>)
    ensures
        ops@ == window_ops(x0, y0, x1, y1),
{
    let cols = [(x0 >> 8) as u8, (x0 & 0xFF) as u8, (x1 >> 8) as u8, (x1 & 0xFF) as u8];
    let rows = [(y0 >> 8) as u8, (y0 & 0xFF) as u8, (y1 >> 8) as u8, (y1 & 0xFF) as u8];
    assert(cols@ =~= seq![(x0 >> 8u16) as u8, (x0 & 0xFF) as u8, (x1 >> 8u16) as u8, (x1 & 0xFF) as u8]);
    assert(rows@ =~= seq![(y0 >> 8u16) as u8, (y0 & 0xFF) as u8, (y1 >> 8u16) as u8, (y1 & 0xFF) as u8]);
    let mut ops = send_cmd(cmd::CASET, &cols);
    extend_ops(&mut ops, send_cmd(cmd::RASET, &rows));
    extend_ops(&mut ops, spi::lcd_write_cmd(cmd::RAMWR));
    ops
}

/// Full LCD start-up; clears `fb` to the background colour and sends it
/// (the framebuffer lives at physical address `fb_addr`).
pub fn init(fb: &mut FrameBuffer, fb_addr: usize) -> (ops: Vec<HwOp>)
    requires
        old(fb).wf(),
    ensures
        final(fb).wf(),
        forall|i: int| 0 <= i < FB_SIZE ==> #[trigger] final(fb).bytes()[i]
            == if i % 2 == 0 { (framebuffer::COLOR_DARK_BG & 0xFF) as u8 } else { (framebuffer::COLOR_DARK_BG >> 8u16) as u8 },
        ops@ == init_ops(fb_addr),
{
    let none: [u8; 0] = [];
    let colmod: [u8; 1] = [0x55];
    let madctl: [u8; 1] = [0x00];
    let frmctr1: [u8; 4] = [0x01, 0x08, 0x01, 0x08];
    assert(none@ =~= Seq::<u8>::empty());
    assert(colmod@ =~= seq![0x55u8]);
    assert(madctl@ =~= seq![0x00u8]);
    assert(frmctr1@ =~= seq![0x01u8, 0x08u8, 0x01u8, 0x08u8]);
    let mut ops = gpio::set_output(LCD_RST_BANK, LCD_RST_PIN);
    extend_ops(&mut ops, gpio::set_output(LCD_BL_BANK, LCD_BL_PIN));
    extend_ops(&mut ops, gpio::write_pin(LCD_RST_BANK, LCD_RST_PIN, false));
    extend_ops(&mut ops, delay_ms(10));
    extend_ops(&mut ops, gpio::write_pin(LCD_RST_BANK, LCD_RST_PIN, true));
    extend_ops(&mut ops, delay_ms(120));
    extend_ops(&mut ops, spi::init(3));
    extend_ops(&mut ops, spi::cs_assert(spi::CsPin::Cs0));
    extend_ops(&mut ops, send_cmd(cmd::SWRESET, &none));
    extend_ops(&mut ops, delay_ms(150));
    extend_ops(&mut ops, send_cmd(cmd::SLPOUT, &none));
    extend_ops(&mut ops, delay_ms(50));
    extend_ops(&mut ops, send_cmd(cmd::COLMOD, &colmod));
    extend_ops(&mut ops, send_cmd(cmd::MADCTL, &madctl));
    extend_ops(&mut ops, send_cmd(cmd::FRMCTR1, &frmctr1));
    extend_ops(&mut ops, send_cmd(cmd::INVON, &none));
    extend_ops(&mut ops, send_cmd(cmd::NORON, &none));
    extend_ops(&mut ops, delay_ms(10));
    extend_ops(&mut ops, send_cmd(cmd::DISPON, &none));
    extend_ops(&mut ops, delay_ms(10));
    extend_ops(&mut ops, set_window(0, 0, WIDTH as u16 - 1, HEIGHT as u16 - 1));
    extend_ops(&mut ops, gpio::write_pin(LCD_BL_BANK, LCD_BL_PIN, true));
    fb.fill(framebuffer::COLOR_DARK_BG);
    extend_ops(&mut ops, FrameBuffer::flush_blocking(fb_addr));
    ops
}

/// The program of `flush`: full-screen window, memory write, and the
/// DMA transfer of the framebuffer at `fb_addr` started (not awaited).
pub open spec fn flush_ops(fb_addr: usize) -> Seq<HwOp> {
    window_ops(0, 0, (WIDTH - 1) as u16, (HEIGHT - 1) as u16) + cmd_ops(cmd::RAMWR)
        + flush_dma_ops(fb_addr)
}

/// Send the framebuffer (at physical address `fb_addr`) to the LCD, for the
/// UI layer. The flush is non-blocking, so that drawing never stalls audio:
/// the program ends once the DMA transfer has been started.
pub fn flush(fb_addr: usize) -> (ops: Vec<HwOp>)
    ensures
        ops@ == flush_ops(fb_addr),
{
    let mut ops = set_window(0, 0, WIDTH as u16 - 1, HEIGHT as u16 - 1);
    extend_ops(&mut ops, spi::lcd_write_cmd(cmd::RAMWR));
    extend_ops(&mut ops, FrameBuffer::flush_dma(fb_addr));
    ops
}

} // verus!
