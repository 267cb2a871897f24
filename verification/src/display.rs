//! The 64x32 monochrome framebuffer and its XOR sprite compositing.
//!
//! Each pixel is a logical on/off state. A sprite is composited by XOR:
//! a sprite bit of 1 toggles the target pixel, and a collision is reported
//! when a sprite bit of 1 lands on a pixel that was already on. Screen
//! coordinates wrap modulo the display dimensions.

use vstd::prelude::*;

verus! {

/// Width of the display in pixels.
pub const DISPLAY_WIDTH: usize = 64;

/// Height of the display in pixels.
pub const DISPLAY_HEIGHT: usize = 32;

/// Bit `col` (0 = most significant) of one sprite byte.
pub open spec fn sprite_bit(b: u8, col: int) -> bool
    recommends
        0 <= col < 8,
{
    (b >> ((7 - col) as u8)) & 1 == 1
}

/// The framebuffer index that sprite cell (`row`, `col`) lands on when the
/// sprite is drawn at (`x`, `y`): coordinates wrap modulo 32 vertically and
/// modulo 64 horizontally.
pub open spec fn wrap_index(x: int, y: int, col: int, row: int) -> int {
    ((y + row) % 32) * 64 + ((x + col) % 64)
}

/// Sprite cell (`row`, `col`) is a 1-bit and lands on framebuffer index `p`.
pub open spec fn sprite_hits(x: int, y: int, sprite: Seq<u8>, row: int, col: int, p: int) -> bool {
    sprite_bit(sprite[row], col) && wrap_index(x, y, col, row) == p
}

/// Some 1-bit of the sprite lands on framebuffer index `p`.
pub open spec fn sprite_covers(x: int, y: int, sprite: Seq<u8>, p: int) -> bool {
    exists|row: int, col: int|
        0 <= row < sprite.len() && 0 <= col < 8 && #[trigger] sprite_hits(x, y, sprite, row, col, p)
}

/// The pixel state after compositing `sprite` at (`x`, `y`) onto `pixels`:
/// every covered pixel is toggled, every other pixel keeps its state.
pub open spec fn draw_result(pixels: Seq<bool>, x: int, y: int, sprite: Seq<u8>) -> Seq<bool> {
    Seq::new(pixels.len(), |p: int| pixels[p] != sprite_covers(x, y, sprite, p))
}

/// Sprite cell (`row`, `col`) is a 1-bit landing on a pixel that is on in
/// `pixels`.
pub open spec fn sprite_hit_on(
    pixels: Seq<bool>,
    x: int,
    y: int,
    sprite: Seq<u8>,
    row: int,
    col: int,
) -> bool {
    sprite_bit(sprite[row], col) && pixels[wrap_index(x, y, col, row)]
}

/// At least one 1-bit of the sprite lands on a pixel already on: a collision.
pub open spec fn draw_collision(pixels: Seq<bool>, x: int, y: int, sprite: Seq<u8>) -> bool {
    exists|row: int, col: int|
        0 <= row < sprite.len() && 0 <= col < 8 && #[trigger] sprite_hit_on(
            pixels,
            x,
            y,
            sprite,
            row,
            col,
        )
}

/// The framebuffer of logical pixels with the color pair used when the
/// frame is exported to a presentation surface.
pub struct Display {
    pixels: Vec<bool>,
    foreground_color: u32,
    background_color: u32,
}

impl View for Display {
    type V = Seq<bool>;

    /// The logical pixel grid, row-major: index `y * 64 + x`.
    closed spec fn view(&self) -> Seq<bool> {
        self.pixels@
    }
}

impl Display {
    /// The configured foreground color.
    pub closed spec fn fg(&self) -> u32 {
        self.foreground_color
    }

    /// The configured background color.
    pub closed spec fn bg(&self) -> u32 {
        self.background_color
    }

    /// Well-formedness: the framebuffer always holds exactly 64 x 32 pixels.
    pub open spec fn wf(&self) -> bool {
        self@.len() == 2048
    }

    /// A fresh display: every pixel off, white on black.
    pub fn new() -> (d: Display)
        ensures
            d.wf(),
            forall|p: int| 0 <= p < 2048 ==> !d@[p],
            d.fg() == 0xFFFFFFFFu32,
            d.bg() == 0u32,
    {
        Display { pixels: vec![false; 2048], foreground_color: 0xFFFFFFFF, background_color: 0x0 }
    }

    /// Set the color that on-pixels export as.
    pub fn set_foreground_color(&mut self, foreground_color: u32)
        ensures
            final(self)@ == old(self)@,
            final(self).fg() == foreground_color,
            final(self).bg() == old(self).bg(),
    {
        self.foreground_color = foreground_color;
    }

    /// Set the color that off-pixels export as; the framebuffer is reset so
    /// that no stale pixel keeps rendering in the old background.
    pub fn set_background_color(&mut self, background_color: u32)
        requires
            old(self).wf(),
        ensures
            final(self).wf(),
            forall|p: int| 0 <= p < 2048 ==> !final(self)@[p],
            final(self).fg() == old(self).fg(),
            final(self).bg() == background_color,
    {
        self.background_color = background_color;
        self.clear();
    }

    /// Reset every pixel to off, unconditionally.
    pub fn clear(&mut self)
        ensures
            final(self).wf(),
            forall|p: int| 0 <= p < 2048 ==> !final(self)@[p],
            final(self).fg() == old(self).fg(),
            final(self).bg() == old(self).bg(),
    {
        self.pixels = vec![false; 2048];
    }

    /// Read the pixel at column `x`, row `y`.
    pub fn pixel(&self, x: u8, y: u8) -> (on: bool)
        requires
            self.wf(),
            x < 64,
            y < 32,
        ensures
            on == self@[y as int * 64 + x as int],
    {
        self.pixels[y as usize * 64 + x as usize]
    }

    /// Composite `bytes` as a sprite at (`x`, `y`) by XOR, wrapping at the
    /// display edges. `v_flag` is raised when a sprite 1-bit lands on a
    /// pixel that was on before this call; it is never lowered.
    pub fn draw(&mut self, x: u8, y: u8, bytes: Vec<u8>, v_flag: &mut bool)
        requires
            old(self).wf(),
            bytes@.len() <= 15,
        ensures
            final(self).wf(),
            final(self)@ == draw_result(old(self)@, x as int, y as int, bytes@),
            *final(v_flag) == (*old(v_flag) || draw_collision(old(self)@, x as int, y as int, bytes@)),
            final(self).fg() == old(self).fg(),
            final(self).bg() == old(self).bg(),
    {
        let ghost orig = self@;
        let ghost xi = x as int;
        let ghost yi = y as int;
        let mut byte_pos: usize = 0;
        while byte_pos < bytes.len()
            invariant
                self.wf(),
                bytes@.len() <= 15,
                byte_pos <= bytes@.len(),
                orig.len() == 2048,
                xi == x as int,
                yi == y as int,
                orig == old(self)@,
                self.fg() == old(self).fg(),
                self.bg() == old(self).bg(),
                forall|p: int|
                    0 <= p < 2048 ==> self@[p] == (orig[p] != covers_below(
                        xi,
                        yi,
                        bytes@,
                        p,
                        byte_pos as int,
                        0,
                    )),
                *v_flag == (*old(v_flag) || collision_below(
                    orig,
                    xi,
                    yi,
                    bytes@,
                    byte_pos as int,
                    0,
                )),
            decreases bytes@.len() - byte_pos,
        {
            let row_y = (y as usize + byte_pos) % 32;
            let mut bit_pos: usize = 0;
            while bit_pos < 8
                invariant
                    self.wf(),
                    bytes@.len() <= 15,
                    byte_pos < bytes@.len(),
                    bit_pos <= 8,
                    orig.len() == 2048,
                    xi == x as int,
                    yi == y as int,
                    row_y == (yi + byte_pos) % 32,
                    self.fg() == old(self).fg(),
                    self.bg() == old(self).bg(),
                    forall|p: int|
                        0 <= p < 2048 ==> self@[p] == (orig[p] != covers_below(
                            xi,
                            yi,
                            bytes@,
                            p,
                            byte_pos as int,
                            bit_pos as int,
                        )),
                    *v_flag == (*old(v_flag) || collision_below(
                        orig,
                        xi,
                        yi,
                        bytes@,
                        byte_pos as int,
                        bit_pos as int,
                    )),
                decreases 8 - bit_pos,
            {
                let col_x = (x as usize + bit_pos) % 64;
                let buffer_pos = row_y * 64 + col_x;
                let shift: u8 = (7 - bit_pos) as u8;
                let draw_bit = (bytes[byte_pos] >> shift) & 1 == 1;
                let currently_active = self.pixels[buffer_pos];

                proof {
                    lemma_cover_step(
                        orig,
                        self@,
                        xi,
                        yi,
                        bytes@,
                        byte_pos as int,
                        bit_pos as int,
                        buffer_pos as int,
                    );
                }
                if draw_bit && currently_active {
                    *v_flag = true;
                }
                self.pixels[buffer_pos] = currently_active != draw_bit;
                proof {
                    let rows = byte_pos as int;
                    let cols = bit_pos as int;
                    let q = buffer_pos as int;
                    assert(draw_bit == sprite_bit(bytes@[rows], cols));
                    assert forall|p: int| 0 <= p < 2048 implies self@[p] == (orig[p]
                        != covers_below(xi, yi, bytes@, p, rows, cols + 1)) by {
                        if p != q {
                            lemma_covers_below_other(xi, yi, bytes@, p, rows, cols, q);
                        } else {
                            assert(self@[p] == (currently_active != draw_bit));
                            if covers_below(xi, yi, bytes@, p, rows, cols + 1) {
                                let (row, col) = choose|row: int, col: int|
                                    0 <= row < bytes@.len() && 0 <= col < 8 && (row < rows || (row
                                        == rows && col < cols + 1)) && #[trigger] sprite_hits(
                                        xi,
                                        yi,
                                        bytes@,
                                        row,
                                        col,
                                        p,
                                    );
                                if !(row == rows && col == cols) {
                                    assert(row < rows || (row == rows && col < cols));
                                    assert(covers_below(xi, yi, bytes@, p, rows, cols));
                                }
                                assert(draw_bit);
                            } else {
                                if draw_bit {
                                    assert(sprite_hits(xi, yi, bytes@, rows, cols, p));
                                    assert(covers_below(xi, yi, bytes@, p, rows, cols + 1));
                                }
                            }
                        }
                    }
                    assert(*v_flag == (*old(v_flag) || collision_below(
                        orig,
                        xi,
                        yi,
                        bytes@,
                        rows,
                        cols + 1,
                    ))) by {
                        lemma_collision_step(orig, xi, yi, bytes@, rows, cols, buffer_pos as int);
                    }
                }
                bit_pos += 1;
            }
            proof {
                lemma_row_boundary(xi, yi, bytes@, byte_pos as int);
                lemma_collision_row_boundary(orig, xi, yi, bytes@, byte_pos as int);
            }
            byte_pos += 1;
        }
        proof {
            let n = bytes@.len() as int;
            assert forall|p: int| 0 <= p < 2048 implies covers_below(xi, yi, bytes@, p, n, 0)
                == sprite_covers(xi, yi, bytes@, p) by {
                if sprite_covers(xi, yi, bytes@, p) {
                    let (row, col) = choose|row: int, col: int|
                        0 <= row < bytes@.len() && 0 <= col < 8 && #[trigger] sprite_hits(
                            xi,
                            yi,
                            bytes@,
                            row,
                            col,
                            p,
                        );
                    assert(row < n || (row == n && col < 0));
                }
            }
            assert(collision_below(orig, xi, yi, bytes@, n, 0) == draw_collision(
                orig,
                xi,
                yi,
                bytes@,
            )) by {
                if draw_collision(orig, xi, yi, bytes@) {
                    let (row, col) = choose|row: int, col: int|
                        0 <= row < bytes@.len() && 0 <= col < 8 && #[trigger] sprite_hit_on(
                            orig,
                            xi,
                            yi,
                            bytes@,
                            row,
                            col,
                        );
                    assert(row < n || (row == n && col < 0));
                }
            }
            assert(self@ =~= draw_result(orig, xi, yi, bytes@));
        }
    }

    /// Export the logical grid as one 32-bit packed color per pixel,
    /// row-major: on-pixels as the foreground color, off-pixels as the
    /// background color.
    pub fn framebuffer(&self) -> (buf: Vec<u32>)
        requires
            self.wf(),
        ensures
            buf@.len() == 2048,
            forall|p: int|
                0 <= p < 2048 ==> buf@[p] == pixel_color(self@[p], self.fg(), self.bg()),
    {
        let mut buf: Vec<u32> = Vec::new();
        let mut p: usize = 0;
        while p < 2048
            invariant
                self.wf(),
                p <= 2048,
                buf@.len() == p,
                forall|q: int| 0 <= q < p ==> buf@[q] == pixel_color(self@[q], self.fg(), self.bg()),
            decreases 2048 - p,
        {
            buf.push(
                if self.pixels[p] {
                    self.foreground_color
                } else {
                    self.background_color
                },
            );
            p += 1;
        }
        buf
    }

    /// Copy the logical grid into an RGBA byte frame, nearest-neighbor
    /// upscaled by `scale_factor`: the byte quadruple for scaled position
    /// (`sx`, `sy`) renders the pixel at (`sx / scale`, `sy / scale`).
    pub fn draw_to_frame(&self, frame: &mut Vec<u8>, scale_factor: usize)
        requires
            self.wf(),
            scale_factor >= 1,
            old(frame)@.len() == 2048 * scale_factor * scale_factor * 4,
        ensures
            final(frame)@.len() == old(frame)@.len(),
            forall|sy: int, sx: int, k: int|
                0 <= sy < 32 * scale_factor && 0 <= sx < 64 * scale_factor && 0 <= k < 4
                    ==> #[trigger] final(frame)@[frame_index(64 * scale_factor, sy, sx, k)]
                    == rgba_byte(
                    pixel_color(
                        self@[(sy / scale_factor as int) * 64 + sx / scale_factor as int],
                        self.fg(),
                        self.bg(),
                    ),
                    k,
                ),
    {
        let ghost s = scale_factor as int;
        let len = frame.len();
        proof {
            assert(2048 * s * s * 4 == 8192 * s * s) by (nonlinear_arith);
            assert(64 * s <= 8192 * s * s) by (nonlinear_arith)
                requires
                    s >= 1,
            ;
        }
        let width = 64 * scale_factor;
        let total = len / 4;
        proof {
            assert(total == 2048 * s * s) by {
                vstd::arithmetic::div_mod::lemma_fundamental_div_mod_converse_div(
                    8192 * s * s,
                    4,
                    2048 * s * s,
                    0,
                );
                assert(8192 * s * s == (2048 * s * s) * 4 + 0) by (nonlinear_arith);
            }
            assert(32 * s * (64 * s) == 2048 * s * s) by (nonlinear_arith);
        }
        let mut i: usize = 0;
        while i < total
            invariant
                self.wf(),
                scale_factor >= 1,
                s == scale_factor as int,
                width == 64 * scale_factor,
                total == 2048 * s * s,
                32 * s * (64 * s) == total,
                frame@.len() == old(frame)@.len(),
                old(frame)@.len() == 4 * total,
                4 * total <= usize::MAX,
                i <= total,
                forall|j: int, k: int|
                    0 <= j < i && 0 <= k < 4 ==> #[trigger] frame@[chunk_byte(j, k)] == rgba_byte(
                        pixel_color(
                            self@[((j / (width as int)) / s) * 64 + (j % (width as int)) / s],
                            self.fg(),
                            self.bg(),
                        ),
                        k,
                    ),
            decreases total - i,
        {
            let y = i / width;
            let x = i % width;
            proof {
                assert((width as int) * (32 * s) == 32 * s * (64 * s)) by (nonlinear_arith)
                    requires
                        width == 64 * s,
                ;
                vstd::arithmetic::div_mod::lemma_multiply_divide_lt(i as int, width as int, 32 * s);
                assert(y < 32 * s);
                vstd::arithmetic::div_mod::lemma_multiply_divide_lt(y as int, s, 32);
                assert(y / scale_factor < 32);
                vstd::arithmetic::div_mod::lemma_mod_division_less_than_divisor(
                    i as int,
                    width as int,
                );
                assert(x < 64 * s);
                vstd::arithmetic::div_mod::lemma_multiply_divide_lt(x as int, s, 64);
                assert(x / scale_factor < 64);
            }
            let downscaled_y = y / scale_factor;
            let downscaled_x = x / scale_factor;
            let source = if self.pixels[downscaled_y * 64 + downscaled_x] {
                self.foreground_color
            } else {
                self.background_color
            };
            frame[4 * i] = ((source >> 24) & 0xFF) as u8;
            frame[4 * i + 1] = ((source >> 16) & 0xFF) as u8;
            frame[4 * i + 2] = ((source >> 8) & 0xFF) as u8;
            frame[4 * i + 3] = (source & 0xFF) as u8;
            proof {
                assert(chunk_byte(i as int, 0) == 4 * i);
                assert(chunk_byte(i as int, 1) == 4 * i + 1);
                assert(chunk_byte(i as int, 2) == 4 * i + 2);
                assert(chunk_byte(i as int, 3) == 4 * i + 3);
            }
            i += 1;
        }
        proof {
            assert forall|sy: int, sx: int, k: int|
                0 <= sy < 32 * s && 0 <= sx < 64 * s && 0 <= k < 4 implies #[trigger] frame@[frame_index(
                64 * s,
                sy,
                sx,
                k,
            )] == rgba_byte(
                pixel_color(self@[(sy / s) * 64 + sx / s], self.fg(), self.bg()),
                k,
            ) by {
                let w = 64 * s;
                let j = sy * w + sx;
                assert(0 <= j < total) by {
                    vstd::arithmetic::mul::lemma_mul_inequality(sy, 32 * s - 1, w);
                    assert((32 * s - 1) * w == 32 * s * w - w) by (nonlinear_arith);
                    assert(32 * s * w == total) by (nonlinear_arith)
                        requires
                            w == 64 * s,
                            total == 32 * s * (64 * s),
                    ;
                }
                vstd::arithmetic::div_mod::lemma_fundamental_div_mod_converse_div(j, w, sy, sx);
                vstd::arithmetic::div_mod::lemma_fundamental_div_mod_converse_mod(j, w, sy, sx);
                assert(frame_index(w, sy, sx, k) == chunk_byte(j, k));
            }
        }
    }
}

/// The color that a pixel state exports as.
pub open spec fn pixel_color(on: bool, fg: u32, bg: u32) -> u32 {
    if on {
        fg
    } else {
        bg
    }
}

/// Byte `k` of a packed 32-bit color, most significant byte first
/// (`k == 0` is red, `k == 3` is alpha for an RGBA color).
pub open spec fn rgba_byte(c: u32, k: int) -> u8
    recommends
        0 <= k < 4,
{
    if k == 0 {
        ((c >> 24) & 0xFF) as u8
    } else if k == 1 {
        ((c >> 16) & 0xFF) as u8
    } else if k == 2 {
        ((c >> 8) & 0xFF) as u8
    } else {
        (c & 0xFF) as u8
    }
}

/// The byte offset of channel `k` of scaled position (`sx`, `sy`) in an
/// exported frame of width `w` scaled pixels.
pub open spec fn frame_index(w: int, sy: int, sx: int, k: int) -> int {
    4 * (sy * w + sx) + k
}

/// The byte offset of channel `k` of the `j`-th scaled pixel in an exported
/// frame.
spec fn chunk_byte(j: int, k: int) -> int {
    4 * j + k
}

/// Some 1-bit among the sprite cells already processed — the full rows
/// before `rows` and the first `cols` cells of row `rows` — lands on `p`.
spec fn covers_below(
    x: int,
    y: int,
    sprite: Seq<u8>,
    p: int,
    rows: int,
    cols: int,
) -> bool {
    exists|row: int, col: int|
        0 <= row < sprite.len() && 0 <= col < 8 && (row < rows || (row == rows && col < cols))
            && #[trigger] sprite_hits(x, y, sprite, row, col, p)
}

/// Some already-processed 1-bit lands on a pixel on in `pixels`.
spec fn collision_below(
    pixels: Seq<bool>,
    x: int,
    y: int,
    sprite: Seq<u8>,
    rows: int,
    cols: int,
) -> bool {
    exists|row: int, col: int|
        0 <= row < sprite.len() && 0 <= col < 8 && (row < rows || (row == rows && col < cols))
            && #[trigger] sprite_hit_on(pixels, x, y, sprite, row, col)
}

/// Adding `i` within `[0, m)` to a fixed base is injective modulo `m`.
proof fn lemma_mod_shift_inj(base: int, i: int, j: int, m: int)
    requires
        m > 0,
        0 <= i < m,
        0 <= j < m,
        base >= 0,
        (base + i) % m == (base + j) % m,
    ensures
        i == j,
{
    let qi = (base + i) / m;
    let qj = (base + j) / m;
    vstd::arithmetic::div_mod::lemma_fundamental_div_mod(base + i, m);
    vstd::arithmetic::div_mod::lemma_fundamental_div_mod(base + j, m);
    assert(i - j == m * (qi - qj)) by (nonlinear_arith)
        requires
            base + i == m * qi + (base + i) % m,
            base + j == m * qj + (base + j) % m,
            (base + i) % m == (base + j) % m,
    ;
    assert(qi == qj) by (nonlinear_arith)
        requires
            i - j == m * (qi - qj),
            -m < i - j < m,
            m > 0,
    ;
}

/// Distinct sprite cells land on distinct framebuffer indices, as long as
/// the sprite is at most 32 rows tall.
proof fn lemma_wrap_index_inj(x: int, y: int, row1: int, col1: int, row2: int, col2: int)
    requires
        x >= 0,
        y >= 0,
        0 <= row1 < 32,
        0 <= row2 < 32,
        0 <= col1 < 8,
        0 <= col2 < 8,
        wrap_index(x, y, col1, row1) == wrap_index(x, y, col2, row2),
    ensures
        row1 == row2,
        col1 == col2,
{
    let a1 = (y + row1) % 32;
    let a2 = (y + row2) % 32;
    let b1 = (x + col1) % 64;
    let b2 = (x + col2) % 64;
    assert(a1 == a2 && b1 == b2) by (nonlinear_arith)
        requires
            a1 * 64 + b1 == a2 * 64 + b2,
            0 <= a1 < 32,
            0 <= a2 < 32,
            0 <= b1 < 64,
            0 <= b2 < 64,
    ;
    lemma_mod_shift_inj(y, row1, row2, 32);
    lemma_mod_shift_inj(x, col1, col2, 64);
}

/// Before cell (`rows`, `cols`) is processed, no processed cell has landed
/// on its target pixel: the partial cover at that pixel is still false.
proof fn lemma_cover_step(
    orig: Seq<bool>,
    cur: Seq<bool>,
    x: int,
    y: int,
    sprite: Seq<u8>,
    rows: int,
    cols: int,
    q: int,
)
    requires
        x >= 0,
        y >= 0,
        sprite.len() <= 15,
        0 <= rows < sprite.len(),
        0 <= cols < 8,
        q == wrap_index(x, y, cols, rows),
        orig.len() == 2048,
        cur.len() == 2048,
        forall|p: int| 0 <= p < 2048 ==> cur[p] == (orig[p] != covers_below(x, y, sprite, p, rows, cols)),
    ensures
        !covers_below(x, y, sprite, q, rows, cols),
        0 <= q < 2048,
        cur[q] == orig[q],
{
    assert(0 <= (y + rows) % 32 < 32);
    assert(0 <= (x + cols) % 64 < 64);
    if covers_below(x, y, sprite, q, rows, cols) {
        let (row, col) = choose|row: int, col: int|
            0 <= row < sprite.len() && 0 <= col < 8 && (row < rows || (row == rows && col < cols))
                && #[trigger] sprite_hits(x, y, sprite, row, col, q);
        lemma_wrap_index_inj(x, y, row, col, rows, cols);
    }
}

/// Processing one cell leaves the partial cover unchanged at every other
/// pixel.
proof fn lemma_covers_below_other(
    x: int,
    y: int,
    sprite: Seq<u8>,
    p: int,
    rows: int,
    cols: int,
    q: int,
)
    requires
        0 <= rows < sprite.len(),
        0 <= cols < 8,
        q == wrap_index(x, y, cols, rows),
        p != q,
    ensures
        covers_below(x, y, sprite, p, rows, cols + 1) == covers_below(x, y, sprite, p, rows, cols),
{
    if covers_below(x, y, sprite, p, rows, cols + 1) {
        let (row, col) = choose|row: int, col: int|
            0 <= row < sprite.len() && 0 <= col < 8 && (row < rows || (row == rows && col < cols
                + 1)) && #[trigger] sprite_hits(x, y, sprite, row, col, p);
        if row == rows && col == cols {
            assert(wrap_index(x, y, col, row) == p);
        } else {
            assert(row < rows || (row == rows && col < cols));
        }
    }
}

/// Processing cell (`rows`, `cols`) extends the partial collision exactly by
/// that cell hitting an on pixel at its target `q`.
proof fn lemma_collision_step(
    orig: Seq<bool>,
    x: int,
    y: int,
    sprite: Seq<u8>,
    rows: int,
    cols: int,
    q: int,
)
    requires
        0 <= rows < sprite.len(),
        0 <= cols < 8,
        q == wrap_index(x, y, cols, rows),
    ensures
        collision_below(orig, x, y, sprite, rows, cols + 1) == (collision_below(
            orig,
            x,
            y,
            sprite,
            rows,
            cols,
        ) || (sprite_bit(sprite[rows], cols) && orig[q])),
{
    if collision_below(orig, x, y, sprite, rows, cols + 1) {
        let (row, col) = choose|row: int, col: int|
            0 <= row < sprite.len() && 0 <= col < 8 && (row < rows || (row == rows && col < cols
                + 1)) && #[trigger] sprite_hit_on(orig, x, y, sprite, row, col);
        if row == rows && col == cols {
            assert(sprite_bit(sprite[rows], cols) && orig[q]);
        } else {
            assert(row < rows || (row == rows && col < cols));
        }
    }
    if sprite_bit(sprite[rows], cols) && orig[q] {
        assert(sprite_hit_on(orig, x, y, sprite, rows, cols));
    }
}

/// A fully processed row counts the same as standing at the start of the
/// next row.
proof fn lemma_row_boundary(x: int, y: int, sprite: Seq<u8>, rows: int)
    ensures
        forall|p: int| #[trigger]
            covers_below(x, y, sprite, p, rows, 8) == covers_below(x, y, sprite, p, rows + 1, 0),
{
    assert forall|p: int| #[trigger] covers_below(x, y, sprite, p, rows, 8) == covers_below(
        x,
        y,
        sprite,
        p,
        rows + 1,
        0,
    ) by {
        if covers_below(x, y, sprite, p, rows, 8) {
            let (row, col) = choose|row: int, col: int|
                0 <= row < sprite.len() && 0 <= col < 8 && (row < rows || (row == rows && col < 8))
                    && #[trigger] sprite_hits(x, y, sprite, row, col, p);
            assert(row < rows + 1);
        }
        if covers_below(x, y, sprite, p, rows + 1, 0) {
            let (row, col) = choose|row: int, col: int|
                0 <= row < sprite.len() && 0 <= col < 8 && (row < rows + 1 || (row == rows + 1
                    && col < 0)) && #[trigger] sprite_hits(x, y, sprite, row, col, p);
            assert(row < rows || (row == rows && col < 8));
        }
    }
}

/// The collision counterpart of `lemma_row_boundary`.
proof fn lemma_collision_row_boundary(pixels: Seq<bool>, x: int, y: int, sprite: Seq<u8>, rows: int)
    ensures
        collision_below(pixels, x, y, sprite, rows, 8) == collision_below(
            pixels,
            x,
            y,
            sprite,
            rows + 1,
            0,
        ),
{
    if collision_below(pixels, x, y, sprite, rows, 8) {
        let (row, col) = choose|row: int, col: int|
            0 <= row < sprite.len() && 0 <= col < 8 && (row < rows || (row == rows && col < 8))
                && #[trigger] sprite_hit_on(pixels, x, y, sprite, row, col);
        assert(row < rows + 1);
    }
    if collision_below(pixels, x, y, sprite, rows + 1, 0) {
        let (row, col) = choose|row: int, col: int|
            0 <= row < sprite.len() && 0 <= col < 8 && (row < rows + 1 || (row == rows + 1 && col
                < 0)) && #[trigger] sprite_hit_on(pixels, x, y, sprite, row, col);
        assert(row < rows || (row == rows && col < 8));
    }
}

/// Drawing the same sprite twice at the same position restores every pixel:
/// XOR compositing is its own inverse.
pub proof fn lemma_draw_twice_restores(pixels: Seq<bool>, x: int, y: int, sprite: Seq<u8>)
    ensures
        draw_result(draw_result(pixels, x, y, sprite), x, y, sprite) == pixels,
{
    assert(draw_result(draw_result(pixels, x, y, sprite), x, y, sprite) =~= pixels);
}

} // verus!
