//! 170 x 320 RGB565 framebuffer (little-endian pixels, row-major), flushed
//! to the LCD by SPI DMA.
use vstd::prelude::*;
use crate::hal::{dma, spi};
use crate::hal::mmio::{HwOp, extend_ops};

verus! {

/// Display width in pixels.
pub const WIDTH: usize = 170;
/// Display height in pixels.
pub const HEIGHT: usize = 320;
/// Bytes per pixel (RGB565).
pub const BPP: usize = 2;
/// Total framebuffer size in bytes.
pub const FB_SIZE: usize = WIDTH * HEIGHT * BPP;

/// The RGB565 value of an 8-bit-per-channel colour.
pub open spec fn rgb565(r: u8, g: u8, b: u8) -> u16 {
    ((r as u16 & 0xF8) << 8u16) | ((g as u16 & 0xFC) << 3u16) | ((b as u16) >> 3u16)
}

/// Convert 8-bit-per-channel RGB to RGB565.
pub fn rgb888_to_565(r: u8, g: u8, b: u8) -> (c: u16)
    ensures
        c == rgb565(r, g, b),
{
    ((r as u16 & 0xF8) << 8) | ((g as u16 & 0xFC) << 3) | ((b as u16) >> 3)
}

pub const COLOR_BLACK: u16 = 0x0000;
pub const COLOR_WHITE: u16 = 0xFFFF;
/// rgb(255, 0, 0)
pub const COLOR_RED: u16 = 0xF800;
/// rgb(0, 255, 0)
pub const COLOR_GREEN: u16 = 0x07E0;
/// rgb(0, 0, 255)
pub const COLOR_BLUE: u16 = 0x001F;
/// rgb(255, 191, 0): retro cassette amber.
pub const COLOR_AMBER: u16 = 0xFDE0;
/// rgb(24, 24, 32): dark background.
pub const COLOR_DARK_BG: u16 = 0x18C4;

/// The named colours are the RGB565 values of their RGB definitions.
pub proof fn lemma_palette()
    ensures
        COLOR_RED == rgb565(255, 0, 0),
        COLOR_GREEN == rgb565(0, 255, 0),
        COLOR_BLUE == rgb565(0, 0, 255),
        COLOR_AMBER == rgb565(255, 191, 0),
        COLOR_DARK_BG == rgb565(24, 24, 32),
{
    assert(0xF800u16 == ((255u16 & 0xF8) << 8u16) | ((0u16 & 0xFC) << 3u16) | (0u16 >> 3u16)) by (bit_vector);
    assert(0x07E0u16 == ((0u16 & 0xF8) << 8u16) | ((255u16 & 0xFC) << 3u16) | (0u16 >> 3u16)) by (bit_vector);
    assert(0x001Fu16 == ((0u16 & 0xF8) << 8u16) | ((0u16 & 0xFC) << 3u16) | (255u16 >> 3u16)) by (bit_vector);
    assert(0xFDE0u16 == ((255u16 & 0xF8) << 8u16) | ((191u16 & 0xFC) << 3u16) | (0u16 >> 3u16)) by (bit_vector);
    assert(0x18C4u16 == ((24u16 & 0xF8) << 8u16) | ((24u16 & 0xFC) << 3u16) | (32u16 >> 3u16)) by (bit_vector);
}

/// Byte offset of pixel (x, y).
pub open spec fn pixel_offset(x: int, y: int) -> int {
    (y * WIDTH + x) * BPP
}

pub open spec fn in_bounds(x: int, y: int) -> bool {
    0 <= x < WIDTH && 0 <= y < HEIGHT
}

/// The little-endian 16-bit word stored at byte `off`.
pub open spec fn word_at(bytes: Seq<u8>, off: int) -> u16 {
    (bytes[off] as u16) | ((bytes[off + 1] as u16) << 8u16)
}

/// The colour of pixel (x, y).
pub open spec fn pixel_at(bytes: Seq<u8>, x: int, y: int) -> u16 {
    word_at(bytes, pixel_offset(x, y))
}

/// The 32-bit 0xAARRGGBB colour of an RGB565 value, each channel widened
/// to 8 bits by repeating its top bits.
pub open spec fn argb_of(c: u16) -> u32 {
    let r = ((c >> 11u16) & 0x1F) as u32;
    let g = ((c >> 5u16) & 0x3F) as u32;
    let b = (c & 0x1F) as u32;
    0xFF00_0000u32 | (((r << 3u32) | (r >> 2u32)) << 16u32) | (((g << 2u32) | (g >> 4u32)) << 8u32)
        | ((b << 3u32) | (b >> 2u32))
}

/// A framebuffer held in memory.
pub struct FrameBuffer {
    data: Vec<u8>,
}

impl FrameBuffer {
    /// The bytes of the framebuffer.
    pub closed spec fn bytes(&self) -> Seq<u8> {
        self.data@
    }

    pub open spec fn wf(&self) -> bool {
        self.bytes().len() == FB_SIZE
    }

    /// A black framebuffer.
    pub fn new() -> (fb: Self)
        ensures
            fb.wf(),
            forall|i: int| 0 <= i < FB_SIZE ==> #[trigger] fb.bytes()[i] == 0,
    {
        let mut data: Vec<u8> = Vec::new();
        let mut k: usize = 0;
        while k < FB_SIZE
            invariant
                k <= FB_SIZE,
                data@.len() == k,
                forall|i: int| 0 <= i < k ==> #[trigger] data@[i] == 0,
            decreases FB_SIZE - k,
        {
            data.push(0);
            k = k + 1;
        }
        FrameBuffer { data }
    }

    /// The raw bytes.
    pub fn as_bytes(&self) -> (b: &[u8])
        ensures
            b@ == self.bytes(),
    {
        self.data.as_slice()
    }

    /// The raw bytes, for writing in place.
    pub fn as_mut_bytes(&mut self) -> (b: &mut [u8])
        ensures
            b@ == old(self).bytes(),
            final(self).bytes() == final(b)@,
    {
        self.data.as_mut_slice()
    }

    /// Set pixel (x, y) to an RGB565 colour; pixels off the screen are ignored.
    pub fn set_pixel(&mut self, x: usize, y: usize, color: u16)
        requires
            old(self).wf(),
        ensures
            final(self).wf(),
            !in_bounds(x as int, y as int) ==> final(self).bytes() == old(self).bytes(),
            in_bounds(x as int, y as int) ==> final(self).bytes() == old(self).bytes()
                .update(pixel_offset(x as int, y as int), (color & 0xFF) as u8)
                .update(pixel_offset(x as int, y as int) + 1, (color >> 8u16) as u8),
    {
        if x >= WIDTH || y >= HEIGHT {
            return;
        }
        let offset = (y * WIDTH + x) * BPP;
        self.data.set(offset, (color & 0xFF) as u8);
        self.data.set(offset + 1, (color >> 8) as u8);
    }

    /// Read pixel (x, y); 0 off the screen.
    pub fn get_pixel(&self, x: usize, y: usize) -> (c: u16)
        requires
            self.wf(),
        ensures
            c == if in_bounds(x as int, y as int) { pixel_at(self.bytes(), x as int, y as int) } else { 0 },
    {
        if x >= WIDTH || y >= HEIGHT {
            return 0;
        }
        let offset = (y * WIDTH + x) * BPP;
        (self.data[offset] as u16) | ((self.data[offset + 1] as u16) << 8)
    }

    /// Draw a pixel given signed coordinates (pixels left of or above the
    /// screen are ignored).
    pub fn draw_pixel(&mut self, x: i32, y: i32, color: u16)
        requires
            old(self).wf(),
        ensures
            final(self).wf(),
            !(x >= 0 && y >= 0 && in_bounds(x as int, y as int)) ==> final(self).bytes() == old(self).bytes(),
            (x >= 0 && y >= 0 && in_bounds(x as int, y as int)) ==> final(self).bytes() == old(self).bytes()
                .update(pixel_offset(x as int, y as int), (color & 0xFF) as u8)
                .update(pixel_offset(x as int, y as int) + 1, (color >> 8u16) as u8),
    {
        if x >= 0 && y >= 0 {
            self.set_pixel(x as usize, y as usize, color);
        }
    }

    /// Fill the whole framebuffer with one colour.
    pub fn fill(&mut self, color: u16)
        requires
            old(self).wf(),
        ensures
            final(self).wf(),
            forall|i: int| 0 <= i < FB_SIZE ==> #[trigger] final(self).bytes()[i]
                == if i % 2 == 0 { (color & 0xFF) as u8 } else { (color >> 8u16) as u8 },
    {
        let lo = (color & 0xFF) as u8;
        let hi = (color >> 8) as u8;
        let mut i: usize = 0;
        while i < FB_SIZE / 2
            invariant
                self.wf(),
                i <= FB_SIZE / 2,
                lo == (color & 0xFF) as u8,
                hi == (color >> 8u16) as u8,
                forall|j: int| 0 <= j < 2 * i ==> #[trigger] self.bytes()[j]
                    == if j % 2 == 0 { lo } else { hi },
            decreases FB_SIZE / 2 - i,
        {
            self.data.set(2 * i, lo);
            self.data.set(2 * i + 1, hi);
            i = i + 1;
        }
    }

    /// Fill the whole framebuffer with one colour.
    pub fn fill_color(&mut self, color: u16)
        requires
            old(self).wf(),
        ensures
            final(self).wf(),
            forall|i: int| 0 <= i < FB_SIZE ==> #[trigger] final(self).bytes()[i]
                == if i % 2 == 0 { (color & 0xFF) as u8 } else { (color >> 8u16) as u8 },
    {
        self.fill(color);
    }

    /// Convert the framebuffer to one 0xAARRGGBB word per pixel, row-major.
    pub fn to_argb32(&self) -> (out: Vec<u32>)
        requires
            self.wf(),
        ensures
            out@.len() == WIDTH * HEIGHT,
            forall|i: int| 0 <= i < WIDTH * HEIGHT ==> #[trigger] out@[i] == argb_of(word_at(self.bytes(), 2 * i)),
    {
        let mut buf: Vec<u32> = Vec::new();
        let mut i: usize = 0;
        while i < WIDTH * HEIGHT
            invariant
                self.wf(),
                i <= WIDTH * HEIGHT,
                buf@.len() == i,
                forall|k: int| 0 <= k < i ==> #[trigger] buf@[k] == argb_of(word_at(self.bytes(), 2 * k)),
            decreases WIDTH * HEIGHT - i,
        {
            let rgb565 = (self.data[2 * i] as u16) | ((self.data[2 * i + 1] as u16) << 8);
            let r = ((rgb565 >> 11) & 0x1F) as u32;
            let g = ((rgb565 >> 5) & 0x3F) as u32;
            let b = (rgb565 & 0x1F) as u32;
            let r8 = (r << 3) | (r >> 2);
            let g8 = (g << 2) | (g >> 4);
            let b8 = (b << 3) | (b >> 2);
            buf.push(0xFF00_0000 | (r8 << 16) | (g8 << 8) | b8);
            i = i + 1;
        }
        buf
    }
}


/// Bytes `(c & 0xFF, c >> 8)` read back as a little-endian word give `c`.
pub proof fn lemma_le_word(c: u16)
    ensures
        (((c & 0xFF) as u8) as u16) | ((((c >> 8u16) as u8) as u16) << 8u16) == c,
{
    assert((((c & 0xFF) as u8) as u16) | ((((c >> 8u16) as u8) as u16) << 8u16) == c) by (bit_vector);
}

/// Storing a pixel changes that pixel to the colour and no other pixel.
pub proof fn lemma_set_pixel_effect(bytes: Seq<u8>, x: int, y: int, color: u16, px: int, py: int)
    requires
        bytes.len() == FB_SIZE,
        in_bounds(x, y),
        in_bounds(px, py),
    ensures
        pixel_at(
            bytes.update(pixel_offset(x, y), (color & 0xFF) as u8).update(pixel_offset(x, y) + 1, (color >> 8u16) as u8),
            px,
            py,
        ) == if px == x && py == y { color } else { pixel_at(bytes, px, py) },
{
    lemma_le_word(color);
    let n = bytes.update(pixel_offset(x, y), (color & 0xFF) as u8).update(pixel_offset(x, y) + 1, (color >> 8u16) as u8);
    if !(px == x && py == y) {
        assert(pixel_offset(px, py) != pixel_offset(x, y));
        assert(n[pixel_offset(px, py)] == bytes[pixel_offset(px, py)]);
        assert(n[pixel_offset(px, py) + 1] == bytes[pixel_offset(px, py) + 1]);
    }
}

/// After `fill`, every pixel reads back the fill colour.
pub proof fn lemma_fill_pixel(bytes: Seq<u8>, color: u16, x: int, y: int)
    requires
        bytes.len() == FB_SIZE,
        forall|i: int| 0 <= i < FB_SIZE ==> #[trigger] bytes[i]
            == if i % 2 == 0 { (color & 0xFF) as u8 } else { (color >> 8u16) as u8 },
        in_bounds(x, y),
    ensures
        pixel_at(bytes, x, y) == color,
{
    lemma_le_word(color);
    let off = pixel_offset(x, y);
    assert(off % 2 == 0);
    assert(bytes[off] == (color & 0xFF) as u8);
    assert(bytes[off + 1] == (color >> 8u16) as u8);
}

/// Converting a pixel to 0xAARRGGBB and its channels back to RGB565 gives
/// the pixel's colour.
pub proof fn lemma_argb_roundtrip(c: u16)
    ensures
        rgb565(((argb_of(c) >> 16u32) & 0xFF) as u8, ((argb_of(c) >> 8u32) & 0xFF) as u8, (argb_of(c) & 0xFF) as u8) == c,
{
    let r = ((c >> 11u16) & 0x1F) as u32;
    let g = ((c >> 5u16) & 0x3F) as u32;
    let b = (c & 0x1F) as u32;
    let a = 0xFF00_0000u32 | (((r << 3u32) | (r >> 2u32)) << 16u32) | (((g << 2u32) | (g >> 4u32)) << 8u32)
        | ((b << 3u32) | (b >> 2u32));
    assert(((((((a >> 16u32) & 0xFF) as u8) as u16) & 0xF8) << 8u16) | (((((((a >> 8u32) & 0xFF) as u8) as u16)
        & 0xFC) << 3u16)) | ((((a & 0xFF) as u8) as u16) >> 3u16) == c) by (bit_vector)
        requires
            r == ((c >> 11u16) & 0x1F) as u32,
            g == ((c >> 5u16) & 0x3F) as u32,
            b == (c & 0x1F) as u32,
            a == 0xFF00_0000u32 | (((r << 3u32) | (r >> 2u32)) << 16u32) | (((g << 2u32) | (g >> 4u32)) << 8u32)
                | ((b << 3u32) | (b >> 2u32));
}

/// The program that streams the framebuffer at physical address `src` to
/// the SPI data register as 16-bit units on the LCD DMA channel.
pub open spec fn flush_dma_ops(src: usize) -> Seq<HwOp> {
    let base = dma::ch_addr(dma::CH_LCD);
    seq![
        HwOp::Write { addr: (base + dma::CH_SAR) as usize, val: src as u32 },
        HwOp::Write { addr: (base + dma::CH_DAR) as usize, val: spi::SPI_DR as u32 },
        HwOp::Write { addr: (base + dma::CH_LLP) as usize, val: 0 },
        HwOp::Write {
            addr: (base + dma::CH_CTL) as usize,
            val: dma::single_ctl(dma::TransferWidth::HalfWord, dma::TransferWidth::HalfWord),
        },
        HwOp::Write { addr: (base + dma::CH_CTLH) as usize, val: (FB_SIZE / 2) as u32 },
        HwOp::Write { addr: (base + dma::CH_CFGH) as usize, val: dma::cfg_h(dma::HS_SPI0_TX) },
        HwOp::Write { addr: (base + dma::CH_CFG) as usize, val: dma::CFG_CH_EN },
    ]
}

/// The program of a blocking flush: clear the LCD completion flag, start
/// the transfer, wait for its completion.
pub open spec fn flush_blocking_ops(src: usize) -> Seq<HwOp> {
    seq![HwOp::ResetLcdDma] + flush_dma_ops(src) + seq![HwOp::AwaitLcdDma]
}

impl FrameBuffer {
    /// Fill the rectangle of width `w` and height `h` at (x, y), clipped to the screen.
    pub fn fill_rect(&mut self, x: usize, y: usize, w: usize, h: usize, color: u16)
        requires
            old(self).wf(),
            x + w <= usize::MAX,
            y + h <= usize::MAX,
        ensures
            final(self).wf(),
            forall|px: int, py: int| in_bounds(px, py) ==> #[trigger] pixel_at(final(self).bytes(), px, py)
                == if x <= px < x + w && y <= py < y + h { color } else { pixel_at(old(self).bytes(), px, py) },
    {
        let ghost old_bytes = self.bytes();
        let row_end = if y + h < HEIGHT { y + h } else { HEIGHT };
        let col_end = if x + w < WIDTH { x + w } else { WIDTH };
        let mut row = y;
        while row < row_end
            invariant
                self.wf(),
                old_bytes == old(self).bytes(),
                y <= row,
                row <= row_end || row == y,
                row_end <= HEIGHT,
                col_end <= WIDTH,
                row_end == if y + h < HEIGHT { y + h } else { HEIGHT as int },
                col_end == if x + w < WIDTH { x + w } else { WIDTH as int },
                forall|px: int, py: int| in_bounds(px, py) ==> #[trigger] pixel_at(self.bytes(), px, py)
                    == if x <= px < col_end && y <= py < row { color } else { pixel_at(old_bytes, px, py) },
            decreases row_end - row,
        {
            let mut col = x;
            while col < col_end
                invariant
                    self.wf(),
                    y <= row < row_end,
                    x <= col,
                    col <= col_end || col == x,
                    row_end <= HEIGHT,
                    col_end <= WIDTH,
                    forall|px: int, py: int| in_bounds(px, py) ==> #[trigger] pixel_at(self.bytes(), px, py)
                        == if (x <= px < col_end && y <= py < row) || (x <= px < col && py == row) {
                            color
                        } else {
                            pixel_at(old_bytes, px, py)
                        },
                decreases col_end - col,
            {
                let ghost before = self.bytes();
                self.set_pixel(col, row, color);
                proof {
                    assert forall|px: int, py: int| in_bounds(px, py) implies #[trigger] pixel_at(self.bytes(), px, py)
                        == if (x <= px < col_end && y <= py < row) || (x <= px < col + 1 && py == row) {
                            color
                        } else {
                            pixel_at(old_bytes, px, py)
                        } by {
                        lemma_set_pixel_effect(before, col as int, row as int, color, px, py);
                    }
                }
                col = col + 1;
            }
            row = row + 1;
        }
    }

    /// Start streaming the framebuffer (placed at physical address `src`)
    /// to the LCD; returns without waiting for the DMA.
    pub fn flush_dma(src: usize) -> (ops: Vec<HwOp>)
        ensures
            ops@ == flush_dma_ops(src),
    {
        let dst = spi::data_register_addr();
        dma::setup_single(
            dma::CH_LCD,
            src,
            dst,
            (FB_SIZE / 2) as u32,
            dma::HS_SPI0_TX,
            dma::TransferWidth::HalfWord,
            dma::TransferWidth::HalfWord,
        )
    }

    /// Stream the framebuffer to the LCD and wait for this transfer to
    /// finish: a completion flag left over from an earlier transfer is
    /// cleared before the DMA starts, so the wait ends only with this one.
    pub fn flush_blocking(src: usize) -> (ops: Vec<HwOp>)
        ensures
            ops@ == flush_blocking_ops(src),
    {
        let mut ops: Vec<HwOp> = Vec::new();
        ops.push(HwOp::ResetLcdDma);
        extend_ops(&mut ops, Self::flush_dma(src));
        ops.push(HwOp::AwaitLcdDma);
        ops
    }
}

} // verus!
