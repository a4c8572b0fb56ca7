use echo_mini_os::display::framebuffer::{
    rgb888_to_565, FrameBuffer, COLOR_AMBER, COLOR_DARK_BG, COLOR_WHITE, FB_SIZE, HEIGHT, WIDTH,
};
use echo_mini_os::display::lcd;
use echo_mini_os::hal::mmio::HwOp;
use echo_mini_os::hal::spi::{self, SPI_DR, SPI_SR, SR_BUSY, SR_TFE, SR_TFNF};

#[test]
fn rgb888_to_565_formula() {
    assert_eq!(rgb888_to_565(255, 191, 0), COLOR_AMBER);
    assert_eq!(rgb888_to_565(24, 24, 32), COLOR_DARK_BG);
    assert_eq!(rgb888_to_565(255, 255, 255), COLOR_WHITE);
    assert_eq!(rgb888_to_565(0, 0, 0), 0);
    assert_eq!(rgb888_to_565(0x12, 0x34, 0x56), 0x11AA);
}

#[test]
fn new_framebuffer_is_black() {
    let fb = FrameBuffer::new();
    assert_eq!(fb.as_bytes().len(), FB_SIZE);
    assert!(fb.as_bytes().iter().all(|&b| b == 0));
}

#[test]
fn set_then_get_pixel() {
    let mut fb = FrameBuffer::new();
    fb.set_pixel(10, 20, 0xABCD);
    assert_eq!(fb.get_pixel(10, 20), 0xABCD);
    let off = (20 * WIDTH + 10) * 2;
    assert_eq!(fb.as_bytes()[off], 0xCD);
    assert_eq!(fb.as_bytes()[off + 1], 0xAB);
    assert_eq!(fb.get_pixel(11, 20), 0);
}

#[test]
fn out_of_bounds_pixels_are_ignored() {
    let mut fb = FrameBuffer::new();
    fb.set_pixel(WIDTH, 0, 0xFFFF);
    fb.set_pixel(0, HEIGHT, 0xFFFF);
    fb.draw_pixel(-1, 5, 0xFFFF);
    fb.draw_pixel(5, -1, 0xFFFF);
    assert!(fb.as_bytes().iter().all(|&b| b == 0));
    assert_eq!(fb.get_pixel(WIDTH, 0), 0);
    fb.draw_pixel(3, 4, 0x1234);
    assert_eq!(fb.get_pixel(3, 4), 0x1234);
}

#[test]
fn fill_sets_every_pixel() {
    let mut fb = FrameBuffer::new();
    fb.fill(0x1234);
    assert_eq!(fb.get_pixel(0, 0), 0x1234);
    assert_eq!(fb.get_pixel(WIDTH - 1, HEIGHT - 1), 0x1234);
    fb.fill_color(COLOR_DARK_BG);
    assert_eq!(fb.get_pixel(85, 160), COLOR_DARK_BG);
}

#[test]
fn fill_rect_is_clipped() {
    let mut fb = FrameBuffer::new();
    fb.fill_rect(160, 310, 20, 20, 0x07E0);
    assert_eq!(fb.get_pixel(160, 310), 0x07E0);
    assert_eq!(fb.get_pixel(WIDTH - 1, HEIGHT - 1), 0x07E0);
    assert_eq!(fb.get_pixel(159, 310), 0);
    assert_eq!(fb.get_pixel(160, 309), 0);
}

#[test]
fn to_argb32_expands_channels() {
    let mut fb = FrameBuffer::new();
    fb.set_pixel(0, 0, 0xF800);
    fb.set_pixel(1, 0, 0x07E0);
    fb.set_pixel(2, 0, 0x001F);
    fb.set_pixel(3, 0, 0xFFFF);
    let argb = fb.to_argb32();
    assert_eq!(argb.len(), WIDTH * HEIGHT);
    assert_eq!(argb[0], 0xFFFF_0000);
    assert_eq!(argb[1], 0xFF00_FF00);
    assert_eq!(argb[2], 0xFF00_00FF);
    assert_eq!(argb[3], 0xFFFF_FFFF);
    assert_eq!(argb[4], 0xFF00_0000);
}

#[test]
fn argb_channels_round_trip_to_rgb565() {
    let mut fb = FrameBuffer::new();
    fb.set_pixel(0, 0, COLOR_AMBER);
    let p = fb.to_argb32()[0];
    let back = rgb888_to_565((p >> 16) as u8, (p >> 8) as u8, p as u8);
    assert_eq!(back, COLOR_AMBER);
}

#[test]
fn flush_blocking_waits_for_dma() {
    let ops = FrameBuffer::flush_blocking(0x2000_0000);
    let dma_only = FrameBuffer::flush_dma(0x2000_0000);
    assert_eq!(ops.len(), dma_only.len() + 2);
    // A stale completion is cleared before the transfer starts.
    assert_eq!(ops[0], HwOp::ResetLcdDma);
    assert_eq!(ops[1..dma_only.len() + 1], dma_only[..]);
    assert_eq!(*ops.last().unwrap(), HwOp::AwaitLcdDma);
    // Source, then the SPI data register as destination, on the LCD channel.
    assert_eq!(dma_only[0], HwOp::Write { addr: 0x4004_1000 + 0x100 + 0x20, val: 0x2000_0000 });
    assert_eq!(dma_only[1], HwOp::Write { addr: 0x4004_1000 + 0x100 + 0x20 + 4, val: SPI_DR as u32 });
    assert!(dma_only.contains(&HwOp::Write { addr: 0x4004_1000 + 0x100 + 0x20 + 0x10, val: (FB_SIZE / 2) as u32 }));
}

#[test]
fn send_cmd_frames_command_then_data() {
    let ops = lcd::send_cmd(0x3A, &[0x55]);
    let mut expected = spi::lcd_write_cmd(0x3A);
    expected.extend(spi::write_data(&[0x55]));
    assert_eq!(ops, expected);
    assert_eq!(ops[0], HwOp::ClearBits { addr: spi::GPIO0_DR, mask: 1 << 21 });
    assert_eq!(ops[1], HwOp::WaitFor { addr: SPI_SR, mask: SR_TFNF, expected: SR_TFNF });
    assert_eq!(ops[2], HwOp::Write { addr: SPI_DR, val: 0x3A });
    assert_eq!(ops[3], HwOp::WaitFor { addr: SPI_SR, mask: SR_TFE, expected: SR_TFE });
    assert_eq!(ops[4], HwOp::WaitFor { addr: SPI_SR, mask: SR_BUSY, expected: 0 });
    assert_eq!(ops[5], HwOp::SetBits { addr: spi::GPIO0_DR, mask: 1 << 21 });
    assert_eq!(ops[7], HwOp::Write { addr: SPI_DR, val: 0x55 });
    assert_eq!(ops.len(), 10);
    assert_eq!(lcd::send_cmd(0x29, &[]), spi::lcd_write_cmd(0x29));
}

#[test]
fn set_window_sends_big_endian_bounds() {
    let ops = lcd::set_window(0, 0, 169, 319);
    let data: Vec<u32> = ops
        .iter()
        .filter_map(|op| match op {
            HwOp::Write { addr, val } if *addr == SPI_DR => Some(*val),
            _ => None,
        })
        .collect();
    assert_eq!(data, vec![0x2A, 0, 0, 0, 169, 0x2B, 0, 0, 0x01, 0x3F, 0x2C]);
}

#[test]
fn delay_is_a_spin() {
    assert_eq!(lcd::delay_ms(10), vec![HwOp::Spin { cycles: 960_000 }]);
}

#[test]
fn lcd_init_clears_and_ends_with_flush() {
    let mut fb = FrameBuffer::new();
    fb.fill(0xFFFF);
    let ops = lcd::init(&mut fb, 0x2000_0000);
    assert_eq!(fb.get_pixel(0, 0), COLOR_DARK_BG);
    assert_eq!(fb.get_pixel(WIDTH - 1, HEIGHT - 1), COLOR_DARK_BG);
    assert_eq!(*ops.last().unwrap(), HwOp::AwaitLcdDma);
    let flush = lcd::flush(0x2000_0000);
    assert!(ops.ends_with(&FrameBuffer::flush_blocking(0x2000_0000)));
    assert!(flush.ends_with(&FrameBuffer::flush_dma(0x2000_0000)));
    assert!(!flush.contains(&HwOp::AwaitLcdDma));
}

#[test]
fn writes_through_mut_bytes_show_as_pixels() {
    let mut fb = FrameBuffer::new();
    {
        let bytes = fb.as_mut_bytes();
        assert_eq!(bytes.len(), FB_SIZE);
        bytes[2] = 0xE0;
        bytes[3] = 0xFD;
    }
    assert_eq!(fb.get_pixel(1, 0), 0xFDE0);
    assert_eq!(fb.get_pixel(0, 0), 0);
}
