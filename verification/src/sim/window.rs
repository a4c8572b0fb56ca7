//! Simulator window logic: keyboard mapping and scaling the framebuffer
//! into the window.
use vstd::prelude::*;
use crate::input::buttons::ButtonEvent;
use vstd::arithmetic::div_mod::{lemma_fundamental_div_mod, lemma_fundamental_div_mod_converse};

verus! {

/// The keys the simulator reacts to.
#[derive(Clone, Copy, Debug, PartialEq, Eq, Structural)]
pub enum Key {
    Space,
    Right,
    Left,
    Up,
    Down,
    Escape,
    Q,
    Other,
}

/// Whether `k` is down now and was not before.
pub open spec fn newly_pressed(current: Seq<Key>, previous: Seq<Key>, k: Key) -> bool {
    current.contains(k) && !previous.contains(k)
}

/// Whether key `k` is among `keys`.
pub fn contains_key(keys: &[Key], k: Key) -> (r: bool)
    ensures
        r == keys@.contains(k),
{
    let mut i: usize = 0;
    while i < keys.len()
        invariant
            i <= keys@.len(),
            forall|j: int| 0 <= j < i ==> keys@[j] != k,
        decreases keys@.len() - i,
    {
        if keys[i] == k {
            return true;
        }
        i = i + 1;
    }
    false
}

/// Map the keyboard to a button event, on new presses only: Space plays or
/// pauses, Right/Left skip, Up/Down change the volume (first match wins).
pub fn map_keys_to_event(current: &[Key], previous: &[Key]) -> (e: ButtonEvent)
    ensures
        e == if newly_pressed(current@, previous@, Key::Space) {
            ButtonEvent::Play
        } else if newly_pressed(current@, previous@, Key::Right) {
            ButtonEvent::Next
        } else if newly_pressed(current@, previous@, Key::Left) {
            ButtonEvent::Prev
        } else if newly_pressed(current@, previous@, Key::Up) {
            ButtonEvent::VolUp
        } else if newly_pressed(current@, previous@, Key::Down) {
            ButtonEvent::VolDown
        } else {
            ButtonEvent::NoButton
        },
{
    if contains_key(current, Key::Space) && !contains_key(previous, Key::Space) {
        ButtonEvent::Play
    } else if contains_key(current, Key::Right) && !contains_key(previous, Key::Right) {
        ButtonEvent::Next
    } else if contains_key(current, Key::Left) && !contains_key(previous, Key::Left) {
        ButtonEvent::Prev
    } else if contains_key(current, Key::Up) && !contains_key(previous, Key::Up) {
        ButtonEvent::VolUp
    } else if contains_key(current, Key::Down) && !contains_key(previous, Key::Down) {
        ButtonEvent::VolDown
    } else {
        ButtonEvent::NoButton
    }
}

/// A key held down over two frames produces no event the second time.
pub proof fn lemma_held_keys_are_quiet(keys: Seq<Key>, k: Key)
    ensures
        !newly_pressed(keys, keys, k),
{
}


/// Row-major positions are distinct for distinct cells of a row of width `w`.
pub proof fn lemma_cell_index(y1: int, x1: int, y2: int, x2: int, w: int)
    requires
        0 <= x1 < w,
        0 <= x2 < w,
        0 <= y1,
        0 <= y2,
    ensures
        (y1 * w + x1 == y2 * w + x2) <==> (y1 == y2 && x1 == x2),
{
    if y1 < y2 {
        assert(y1 * w + w <= y2 * w) by (nonlinear_arith)
            requires y1 < y2, 0 < w;
    } else if y2 < y1 {
        assert(y2 * w + w <= y1 * w) by (nonlinear_arith)
            requires y2 < y1, 0 < w;
    }
}

/// Cells `(x, y)` with `x < w` of a `w`-wide image sit inside the first
/// `h` rows exactly when `y < h`.
pub proof fn lemma_cell_in_rows(y: int, x: int, w: int, h: int)
    requires
        0 <= x < w,
        0 <= y < h,
    ensures
        0 <= y * w + x < h * w,
        h * w == w * h,
{
    assert(0 <= y * w && y * w + w <= h * w) by (nonlinear_arith)
        requires 0 <= y < h, 0 < w;
    assert(h * w == w * h) by (nonlinear_arith);
}

/// `(a, b, c, d)` comes strictly before `(y, x, sy, sx)` in lexicographic order.
pub open spec fn lex_before(a: int, b: int, c: int, d: int, y: int, x: int, sy: int, sx: int) -> bool {
    a < y || (a == y && (b < x || (b == x && (c < sy || (c == sy && d < sx)))))
}

/// Window cell (row `r`, column `c`) has been painted by the upscaling loop
/// once it has reached source pixel (`y`, `x`) and sub-cell (`sy`, `sx`).
pub open spec fn scale_painted(r: int, c: int, sw: int, sh: int, s: int, y: int, x: int, sy: int, sx: int) -> bool {
    &&& 0 <= r < sh * s
    &&& 0 <= c < sw * s
    &&& lex_before(r / s, c / s, r % s, c % s, y, x, sy, sx)
}

/// The source pixel that an `s`-times nearest-neighbour upscale shows at
/// window cell (row `r`, column `c`).
pub open spec fn scaled_pixel(src: Seq<u32>, sw: int, s: int, r: int, c: int) -> u32 {
    src[(r / s) * sw + c / s]
}

proof fn lemma_scale_step(r: int, c: int, sw: int, sh: int, s: int, y: int, x: int, sy: int, sx: int)
    requires
        0 <= y < sh,
        0 <= x < sw,
        0 <= sy < s,
        0 <= sx < s,
        0 <= r,
        0 <= c,
    ensures
        scale_painted(r, c, sw, sh, s, y, x, sy, sx + 1)
            == (scale_painted(r, c, sw, sh, s, y, x, sy, sx) || (r == y * s + sy && c == x * s + sx)),
        (r == y * s + sy && c == x * s + sx) ==> (r / s == y && c / s == x),
        0 <= y * s + sy < sh * s,
        0 <= x * s + sx < sw * s,
        1 <= sh * s,
{
    assert(0 <= y * s + sy < sh * s && 0 <= x * s + sx < sw * s) by (nonlinear_arith)
        requires 0 <= y < sh, 0 <= x < sw, 0 <= sy < s, 0 <= sx < s;
    lemma_fundamental_div_mod(r, s);
    lemma_fundamental_div_mod(c, s);
    lemma_fundamental_div_mod_converse(y * s + sy, s, y, sy);
    lemma_fundamental_div_mod_converse(x * s + sx, s, x, sx);
    if r / s == y && c / s == x && r % s == sy && c % s == sx {
        assert(r == s * y + sy && c == s * x + sx);
        assert(s * y == y * s && s * x == x * s) by (nonlinear_arith);
    }
}

/// A row index below `sh * s` has its source row below `sh`.
proof fn lemma_scaled_row(r: int, s: int, sh: int)
    requires
        0 <= r < sh * s,
        0 < s,
    ensures
        r / s < sh,
{
    lemma_fundamental_div_mod(r, s);
    assert(r / s < sh) by (nonlinear_arith)
        requires r == s * (r / s) + r % s, 0 <= r % s, r < sh * s, 0 < s;
}

/// The position of cell (row `r`, column `c`) in a row-major buffer of
/// width `w`.
pub open spec fn cell_at(r: int, c: int, w: int) -> int {
    r * w + c
}

/// Position `k` of the window buffer is not among the cells `r * dw + c`
/// painted once the loop has reached (`y`, `x`, `sy`, `sx`).
pub open spec fn untouched(k: int, sw: int, sh: int, s: int, dw: int, y: int, x: int, sy: int, sx: int) -> bool {
    forall|r: int, c: int| #![trigger scale_painted(r, c, sw, sh, s, y, x, sy, sx)]
        0 <= r && 0 <= c && scale_painted(r, c, sw, sh, s, y, x, sy, sx) ==> r * dw + c != k
}

/// Nearest-neighbour upscale of the `src_w` x `src_h` image by `scale` into
/// the `dst_w`-wide window buffer: only the positions `r * dst_w + c` with
/// row `r < src_h * scale` and column `c < src_w * scale` are painted, and
/// every other position keeps its value. Where the scaled rows fit the
/// window (`src_w * scale <= dst_w`), window cell (row `r`, column `c`)
/// shows source pixel (`r / scale`, `c / scale`) inside the scaled image and
/// is left as it was outside it.
pub fn scale_buffer(
    src: &[u32],
    src_w: usize,
    src_h: usize,
    dst: &mut Vec<u32>,
    dst_w: usize,
    _dst_h: usize,
    scale: usize,
)
    requires
        src_w * src_h <= src@.len(),
        src_w == 0 || src_h * scale <= usize::MAX,
        scale == 0 || src_w == 0 || src_h == 0
            || (src_h * scale - 1) * dst_w + src_w * scale <= old(dst)@.len(),
    ensures
        final(dst)@.len() == old(dst)@.len(),
        forall|k: int| 0 <= k < old(dst)@.len()
            && (forall|r: int, c: int| 0 <= r < src_h * scale && 0 <= c < src_w * scale
                ==> #[trigger] cell_at(r, c, dst_w as int) != k)
            ==> #[trigger] final(dst)@[k] == old(dst)@[k],
        src_w * scale <= dst_w ==> forall|r: int, c: int|
            0 <= r && 0 <= c < dst_w && r * dst_w + c < old(dst)@.len() ==> #[trigger] final(dst)@[r * dst_w + c]
                == if r < src_h * scale && c < src_w * scale {
                    scaled_pixel(src@, src_w as int, scale as int, r, c)
                } else {
                    old(dst)@[r * dst_w + c]
                },
{
    let ghost d0 = dst@;
    let ghost fits = src_w * scale <= dst_w;
    let ghost sw = src_w as int;
    let ghost sh = src_h as int;
    let ghost s = scale as int;
    let ghost dw = dst_w as int;
    let mut y: usize = 0;
    while y < src_h
        invariant
            y <= src_h,
            src_w * src_h <= src@.len(),
            src_w == 0 || src_h * scale <= usize::MAX,
            scale == 0 || src_w == 0 || src_h == 0 || (src_h * scale - 1) * dst_w + src_w * scale <= d0.len(),
            dst@.len() == d0.len(),
            dst.len() == d0.len(),
            src.len() == src@.len(),
            d0 == old(dst)@,
            fits == (src_w * scale <= dst_w),
            sw == src_w, sh == src_h, s == scale, dw == dst_w,
            forall|k: int| 0 <= k < d0.len() && untouched(k, sw, sh, s, dw, y as int, 0, 0, 0) ==> #[trigger] dst@[k] == d0[k],
            fits ==> forall|r: int, c: int| 0 <= r && 0 <= c < dw && r * dw + c < d0.len() ==> #[trigger] dst@[r * dw + c]
                == if scale_painted(r, c, sw, sh, s, y as int, 0, 0, 0) { scaled_pixel(src@, sw, s, r, c) } else { d0[r * dw + c] },
        decreases src_h - y,
    {
        let mut x: usize = 0;
        while x < src_w
            invariant
                y < src_h,
                x <= src_w,
                src_w * src_h <= src@.len(),
                src_w == 0 || src_h * scale <= usize::MAX,
                scale == 0 || src_w == 0 || src_h == 0 || (src_h * scale - 1) * dst_w + src_w * scale <= d0.len(),
                dst@.len() == d0.len(),
                dst.len() == d0.len(),
                src.len() == src@.len(),
                fits == (src_w * scale <= dst_w),
                sw == src_w, sh == src_h, s == scale, dw == dst_w,
                forall|k: int| 0 <= k < d0.len() && untouched(k, sw, sh, s, dw, y as int, x as int, 0, 0) ==> #[trigger] dst@[k] == d0[k],
                fits ==> forall|r: int, c: int| 0 <= r && 0 <= c < dw && r * dw + c < d0.len() ==> #[trigger] dst@[r * dw + c]
                    == if scale_painted(r, c, sw, sh, s, y as int, x as int, 0, 0) { scaled_pixel(src@, sw, s, r, c) } else { d0[r * dw + c] },
            decreases src_w - x,
        {
            proof {
                lemma_cell_in_rows(y as int, x as int, sw, sh);
            }
            let pixel = src[y * src_w + x];
            let mut sy: usize = 0;
            while sy < scale
                invariant
                    y < src_h,
                    x < src_w,
                    sy <= scale,
                    pixel == src@[y * sw + x],
                    src_h * scale <= usize::MAX,
                    scale == 0 || src_w == 0 || src_h == 0 || (src_h * scale - 1) * dst_w + src_w * scale <= d0.len(),
                    dst@.len() == d0.len(),
                    dst.len() == d0.len(),
                    fits == (src_w * scale <= dst_w),
                    sw == src_w, sh == src_h, s == scale, dw == dst_w,
                    forall|k: int| 0 <= k < d0.len() && untouched(k, sw, sh, s, dw, y as int, x as int, sy as int, 0) ==> #[trigger] dst@[k] == d0[k],
                    fits ==> forall|r: int, c: int| 0 <= r && 0 <= c < dw && r * dw + c < d0.len() ==> #[trigger] dst@[r * dw + c]
                        == if scale_painted(r, c, sw, sh, s, y as int, x as int, sy as int, 0) { scaled_pixel(src@, sw, s, r, c) } else { d0[r * dw + c] },
                decreases scale - sy,
            {
                let mut sx: usize = 0;
                while sx < scale
                    invariant
                        y < src_h,
                        x < src_w,
                        sy < scale,
                        sx <= scale,
                        pixel == src@[y * sw + x],
                        src_h * scale <= usize::MAX,
                        (src_h * scale - 1) * dst_w + src_w * scale <= d0.len(),
                        dst@.len() == d0.len(),
                        dst.len() == d0.len(),
                        fits == (src_w * scale <= dst_w),
                        sw == src_w, sh == src_h, s == scale, dw == dst_w,
                        forall|k: int| 0 <= k < d0.len() && untouched(k, sw, sh, s, dw, y as int, x as int, sy as int, sx as int) ==> #[trigger] dst@[k] == d0[k],
                        fits ==> forall|r: int, c: int| 0 <= r && 0 <= c < dw && r * dw + c < d0.len() ==> #[trigger] dst@[r * dw + c]
                            == if scale_painted(r, c, sw, sh, s, y as int, x as int, sy as int, sx as int) { scaled_pixel(src@, sw, s, r, c) } else { d0[r * dw + c] },
                    decreases scale - sx,
                {
                    proof {
                        lemma_scale_step(0, 0, sw, sh, s, y as int, x as int, sy as int, sx as int);
                        assert(0 <= (src_h * scale - 1) * dst_w) by (nonlinear_arith)
                            requires 1 <= src_h * scale;
                        assert(y * scale + sy <= src_h * scale - 1);
                        assert((y * scale + sy) * dst_w <= (src_h * scale - 1) * dst_w) by (nonlinear_arith)
                            requires y * scale + sy <= src_h * scale - 1, 0 <= y * scale + sy;
                    }
                    let dx = x * scale + sx;
                    let dy = y * scale + sy;
                    let ghost before = dst@;
                    dst.set(dy * dst_w + dx, pixel);
                    proof {
                        let i = dy * dw + dx;
                        lemma_scale_step(dy as int, dx as int, sw, sh, s, y as int, x as int, sy as int, sx as int);
                        assert forall|k: int| 0 <= k < d0.len() && untouched(k, sw, sh, s, dw, y as int, x as int, sy as int, sx + 1)
                            implies #[trigger] dst@[k] == d0[k] by {
                            assert(scale_painted(dy as int, dx as int, sw, sh, s, y as int, x as int, sy as int, sx + 1));
                            assert(k != i);
                            assert forall|r: int, c: int| 0 <= r && 0 <= c && scale_painted(r, c, sw, sh, s, y as int, x as int, sy as int, sx as int)
                                implies r * dw + c != k by {
                                lemma_scale_step(r, c, sw, sh, s, y as int, x as int, sy as int, sx as int);
                                assert(scale_painted(r, c, sw, sh, s, y as int, x as int, sy as int, sx + 1));
                            }
                            assert(untouched(k, sw, sh, s, dw, y as int, x as int, sy as int, sx as int));
                            assert(before[k] == d0[k]);
                        }
                        if fits {
                            assert forall|r: int, c: int| 0 <= r && 0 <= c < dw && r * dw + c < d0.len() implies #[trigger] dst@[r * dw + c]
                                == if scale_painted(r, c, sw, sh, s, y as int, x as int, sy as int, sx + 1) { scaled_pixel(src@, sw, s, r, c) } else { d0[r * dw + c] } by {
                                lemma_scale_step(r, c, sw, sh, s, y as int, x as int, sy as int, sx as int);
                                lemma_cell_index(r, c, dy as int, dx as int, dw);
                                assert(before[r * dw + c] == if scale_painted(r, c, sw, sh, s, y as int, x as int, sy as int, sx as int) { scaled_pixel(src@, sw, s, r, c) } else { d0[r * dw + c] });
                            }
                        }
                    }
                    sx = sx + 1;
                }
                proof {
                    assert forall|k: int| 0 <= k < d0.len() && untouched(k, sw, sh, s, dw, y as int, x as int, sy + 1, 0)
                        implies #[trigger] dst@[k] == d0[k] by {
                        assert forall|r: int, c: int| 0 <= r && 0 <= c && scale_painted(r, c, sw, sh, s, y as int, x as int, sy as int, s)
                            implies r * dw + c != k by {
                            lemma_fundamental_div_mod(c, s);
                            assert(scale_painted(r, c, sw, sh, s, y as int, x as int, sy + 1, 0));
                        }
                        assert(untouched(k, sw, sh, s, dw, y as int, x as int, sy as int, s));
                    }
                    if fits {
                        assert forall|r: int, c: int| 0 <= r && 0 <= c < dw && r * dw + c < d0.len() implies
                            scale_painted(r, c, sw, sh, s, y as int, x as int, sy as int, s)
                                == scale_painted(r, c, sw, sh, s, y as int, x as int, sy + 1, 0) by {
                            lemma_fundamental_div_mod(c, s);
                        }
                    }
                }
                sy = sy + 1;
            }
            proof {
                assert forall|k: int| 0 <= k < d0.len() && untouched(k, sw, sh, s, dw, y as int, x + 1, 0, 0)
                    implies #[trigger] dst@[k] == d0[k] by {
                    assert forall|r: int, c: int| 0 <= r && 0 <= c && scale_painted(r, c, sw, sh, s, y as int, x as int, s, 0)
                        implies r * dw + c != k by {
                        lemma_fundamental_div_mod(r, s);
                        assert(scale_painted(r, c, sw, sh, s, y as int, x + 1, 0, 0));
                    }
                    assert(untouched(k, sw, sh, s, dw, y as int, x as int, s, 0));
                }
                if fits && s > 0 {
                    assert forall|r: int, c: int| 0 <= r && 0 <= c < dw && r * dw + c < d0.len() implies
                        scale_painted(r, c, sw, sh, s, y as int, x as int, s, 0)
                            == scale_painted(r, c, sw, sh, s, y as int, x + 1, 0, 0) by {
                        lemma_fundamental_div_mod(r, s);
                        lemma_fundamental_div_mod(c, s);
                    }
                }
            }
            x = x + 1;
        }
        proof {
            assert forall|k: int| 0 <= k < d0.len() && untouched(k, sw, sh, s, dw, y + 1, 0, 0, 0)
                implies #[trigger] dst@[k] == d0[k] by {
                assert forall|r: int, c: int| 0 <= r && 0 <= c && scale_painted(r, c, sw, sh, s, y as int, sw, 0, 0)
                    implies r * dw + c != k by {
                    assert(scale_painted(r, c, sw, sh, s, y + 1, 0, 0, 0));
                }
                assert(untouched(k, sw, sh, s, dw, y as int, sw, 0, 0));
            }
            if fits && s > 0 {
                assert forall|r: int, c: int| 0 <= r && 0 <= c < dw && r * dw + c < d0.len() implies
                    scale_painted(r, c, sw, sh, s, y as int, sw, 0, 0)
                        == scale_painted(r, c, sw, sh, s, y + 1, 0, 0, 0) by {
                    if 0 <= c < sw * s {
                        lemma_scaled_row(c, s, sw);
                    }
                }
            }
        }
        y = y + 1;
    }
    proof {
        assert forall|k: int| 0 <= k < d0.len()
            && (forall|r: int, c: int| 0 <= r < sh * s && 0 <= c < sw * s ==> #[trigger] cell_at(r, c, dw) != k)
            implies #[trigger] dst@[k] == d0[k] by {
            assert forall|r: int, c: int| 0 <= r && 0 <= c && scale_painted(r, c, sw, sh, s, sh, 0, 0, 0)
                implies r * dw + c != k by {
                assert(cell_at(r, c, dw) != k);
            }
            assert(untouched(k, sw, sh, s, dw, sh, 0, 0, 0));
        }
        if fits {
            assert forall|r: int, c: int| 0 <= r && 0 <= c < dw && r * dw + c < d0.len() implies
                scale_painted(r, c, sw, sh, s, sh, 0, 0, 0) == (r < sh * s && c < sw * s) by {
                if 0 <= r < sh * s && s > 0 {
                    lemma_scaled_row(r, s, sh);
                }
            }
        }
    }
}

/// Colour of the simulated device bezel.
pub const BORDER_COLOR: u32 = 0xFF10_1010;

/// Whether cell (x, y) of a `w` x `h` window is in the two-pixel bezel.
pub open spec fn in_border(x: int, y: int, w: int, h: int) -> bool {
    y < 2 || y >= h - 2 || x < 2 || x >= w - 2
}

/// Cell (x, y) lies on ring `tt` (rows and columns `tt` from each edge).
pub open spec fn on_ring(x: int, y: int, w: int, h: int, tt: int) -> bool {
    y == tt || y == h - 1 - tt || x == tt || x == w - 1 - tt
}

/// The cells the bezel loop has painted: complete passes `tt < t`, and in
/// pass `t` the first `rx` cells of its two rows and the first `cy` cells
/// of its two columns.
pub open spec fn painted(x: int, y: int, w: int, h: int, t: int, rx: int, cy: int) -> bool {
    ||| (t > 0 && on_ring(x, y, w, h, 0))
    ||| (t > 1 && on_ring(x, y, w, h, 1))
    ||| (x < rx && (y == t || y == h - 1 - t))
    ||| (y < cy && (x == t || x == w - 1 - t))
}

/// Draw the two-pixel bezel around a `w` x `h` window buffer.
pub fn draw_device_border(buf: &mut Vec<u32>, w: usize, h: usize)
    requires
        (w >= 2 && h >= 2 && w * h <= old(buf)@.len()) || (w == 0 && h == 0),
    ensures
        final(buf)@.len() == old(buf)@.len(),
        forall|x: int, y: int| 0 <= x < w && 0 <= y < h ==> #[trigger] final(buf)@[y * w + x]
            == if in_border(x, y, w as int, h as int) { BORDER_COLOR } else { old(buf)@[y * w + x] },
        forall|k: int| w * h <= k < old(buf)@.len() ==> #[trigger] final(buf)@[k] == old(buf)@[k],
{
    let border_color: u32 = BORDER_COLOR;
    let thickness: usize = 2;
    let ghost b0 = buf@;
    let mut t: usize = 0;
    while t < thickness
        invariant
            (w >= 2 && h >= 2 && w * h <= b0.len()) || (w == 0 && h == 0),
            b0 == old(buf)@,
            thickness == 2,
            t <= 2,
            buf@.len() == b0.len(),
            buf.len() == b0.len(),
            border_color == BORDER_COLOR,
            forall|x: int, y: int| 0 <= x < w && 0 <= y < h ==> #[trigger] buf@[y * w + x]
                == if painted(x, y, w as int, h as int, t as int, 0, 0) { BORDER_COLOR } else { b0[y * w + x] },
            forall|k: int| w * h <= k < b0.len() ==> #[trigger] buf@[k] == b0[k],
        decreases 2 - t,
    {
        let mut x: usize = 0;
        while x < w
            invariant
                (w >= 2 && h >= 2 && w * h <= b0.len()) || (w == 0 && h == 0),
                t < 2,
                x <= w,
                buf@.len() == b0.len(),
                buf.len() == b0.len(),
                border_color == BORDER_COLOR,
                forall|xx: int, yy: int| 0 <= xx < w && 0 <= yy < h ==> #[trigger] buf@[yy * w + xx]
                    == if painted(xx, yy, w as int, h as int, t as int, x as int, 0) { BORDER_COLOR } else { b0[yy * w + xx] },
                forall|k: int| w * h <= k < b0.len() ==> #[trigger] buf@[k] == b0[k],
            decreases w - x,
        {
            proof {
                lemma_cell_in_rows(t as int, x as int, w as int, h as int);
                lemma_cell_in_rows((h - 1 - t) as int, x as int, w as int, h as int);
            }
            let i1 = t * w + x;
            let i2 = (h - 1 - t) * w + x;
            let ghost before = buf@;
            buf.set(i1, border_color);
            buf.set(i2, border_color);
            proof {
                assert forall|xx: int, yy: int| 0 <= xx < w && 0 <= yy < h implies #[trigger] buf@[yy * w + xx]
                    == if painted(xx, yy, w as int, h as int, t as int, x + 1, 0) { BORDER_COLOR } else { b0[yy * w + xx] } by {
                    lemma_cell_index(yy, xx, t as int, x as int, w as int);
                    lemma_cell_index(yy, xx, (h - 1 - t) as int, x as int, w as int);
                    lemma_cell_in_rows(yy, xx, w as int, h as int);
                    let k = yy * w + xx;
                    assert(before[k] == if painted(xx, yy, w as int, h as int, t as int, x as int, 0) { BORDER_COLOR } else { b0[k] });
                    assert(buf@ == before.update(i1 as int, border_color).update(i2 as int, border_color));
                }
                assert forall|k: int| w * h <= k < b0.len() implies #[trigger] buf@[k] == b0[k] by {}
            }
            x = x + 1;
        }
        let mut y: usize = 0;
        while y < h
            invariant
                (w >= 2 && h >= 2 && w * h <= b0.len()) || (w == 0 && h == 0),
                t < 2,
                y <= h,
                buf@.len() == b0.len(),
                buf.len() == b0.len(),
                border_color == BORDER_COLOR,
                forall|xx: int, yy: int| 0 <= xx < w && 0 <= yy < h ==> #[trigger] buf@[yy * w + xx]
                    == if painted(xx, yy, w as int, h as int, t as int, w as int, y as int) { BORDER_COLOR } else { b0[yy * w + xx] },
                forall|k: int| w * h <= k < b0.len() ==> #[trigger] buf@[k] == b0[k],
            decreases h - y,
        {
            proof {
                lemma_cell_in_rows(y as int, t as int, w as int, h as int);
                lemma_cell_in_rows(y as int, (w - 1 - t) as int, w as int, h as int);
            }
            let i1 = y * w + t;
            let i2 = y * w + (w - 1 - t);
            let ghost before = buf@;
            buf.set(i1, border_color);
            buf.set(i2, border_color);
            proof {
                assert forall|xx: int, yy: int| 0 <= xx < w && 0 <= yy < h implies #[trigger] buf@[yy * w + xx]
                    == if painted(xx, yy, w as int, h as int, t as int, w as int, y + 1) { BORDER_COLOR } else { b0[yy * w + xx] } by {
                    lemma_cell_index(yy, xx, y as int, t as int, w as int);
                    lemma_cell_index(yy, xx, y as int, (w - 1 - t) as int, w as int);
                    lemma_cell_in_rows(yy, xx, w as int, h as int);
                    let k = yy * w + xx;
                    assert(before[k] == if painted(xx, yy, w as int, h as int, t as int, w as int, y as int) { BORDER_COLOR } else { b0[k] });
                    assert(buf@ == before.update(i1 as int, border_color).update(i2 as int, border_color));
                }
                assert forall|k: int| w * h <= k < b0.len() implies #[trigger] buf@[k] == b0[k] by {}
            }
            y = y + 1;
        }
        proof {
            assert forall|xx: int, yy: int| 0 <= xx < w && 0 <= yy < h implies
                painted(xx, yy, w as int, h as int, t as int, w as int, h as int)
                    == painted(xx, yy, w as int, h as int, t + 1, 0, 0) by {
            }
        }
        t = t + 1;
    }
    proof {
        assert forall|xx: int, yy: int| 0 <= xx < w && 0 <= yy < h implies
            painted(xx, yy, w as int, h as int, 2, 0, 0) == in_border(xx, yy, w as int, h as int) by {
        }
    }
}

} // verus!
