//! Monochrome 64x32 pixel grid, mutated only through XOR-blit sprite
//! drawing.
//!
//! A sprite is a sequence of bytes, each byte one row of eight
//! horizontally packed pixels, most-significant bit leftmost.  Drawing
//! combines sprite bits with the canvas by XOR and reports a collision
//! exactly when some previously lit pixel is erased.  Two policies govern
//! coordinates past the canvas edge: wraparound (all coordinates taken
//! modulo the canvas size) and clipping (only the sprite origin is
//! wrapped; pixels past the edge are skipped).
use vstd::prelude::*;

verus! {

/// Canvas width in pixels.
pub const DISPLAY_WIDTH: usize = 64;

/// Canvas height in pixels.
pub const DISPLAY_HEIGHT: usize = 32;

/// Pixel count of the canvas.
pub const DISPLAY_PIXELS: usize = 2048;

#[derive(Clone, Copy, PartialEq, Eq)]
pub struct DisplayData {
    pub width: usize,
    pub height: usize,
    pub backing_arr: [bool; DISPLAY_PIXELS],
}

impl View for DisplayData {
    type V = Seq<bool>;

    open spec fn view(&self) -> Seq<bool> {
        self.backing_arr@
    }
}

/// State of the pixel at column `x`, row `y` of a canvas stored row by
/// row.
pub open spec fn pix(g: Seq<bool>, x: int, y: int) -> bool {
    g[y * (DISPLAY_WIDTH as int) + x]
}

/// Whether the sprite row byte `b` has its pixel set at column `c`
/// (0 is leftmost, stored in the most significant bit).
pub open spec fn sprite_row_bit(b: u8, c: int) -> bool {
    (b >> ((7 - c) as u8)) & 1 == 1
}

/// Offset of canvas coordinate `p` from origin `o` on a wrapped axis of
/// length `m`; both lie in `[0, m)`, so no modulo is needed.
pub open spec fn wrap_off(o: int, p: int, m: int) -> int {
    if p >= o {
        p - o
    } else {
        p - o + m
    }
}

/// Offset of canvas coordinate `p` from origin `o`: wrapped on a torus,
/// or the plain difference when clipping.
pub open spec fn axis_off(o: int, p: int, m: int, clip: bool) -> int {
    if clip {
        p - o
    } else {
        wrap_off(o, p, m)
    }
}

/// Whether drawing `sprite` with (normalised) origin `(sx, sy)` places a
/// set sprite bit on the canvas pixel `(x, y)`.
pub open spec fn overlay_bit(
    sprite: Seq<u8>,
    sx: int,
    sy: int,
    clip: bool,
    x: int,
    y: int,
) -> bool {
    let c = axis_off(sx, x, DISPLAY_WIDTH as int, clip);
    let r = axis_off(sy, y, DISPLAY_HEIGHT as int, clip);
    0 <= c < 8 && 0 <= r < sprite.len() && sprite_row_bit(sprite[r], c)
}

/// Like `overlay_bit`, but counting only the sprite rows and columns
/// already processed by the drawing loop: all rows before `row`, and the
/// columns before `col` within `row`.
spec fn overlay_done(
    sprite: Seq<u8>,
    sx: int,
    sy: int,
    clip: bool,
    x: int,
    y: int,
    row: int,
    col: int,
) -> bool {
    let c = axis_off(sx, x, DISPLAY_WIDTH as int, clip);
    let r = axis_off(sy, y, DISPLAY_HEIGHT as int, clip);
    0 <= c < 8 && 0 <= r < sprite.len() && (r < row || (r == row && c < col)) && sprite_row_bit(
        sprite[r],
        c,
    )
}

/// Relation between the canvas before and after drawing `sprite` at the
/// (unnormalised) origin `(x0, y0)`: every pixel is XOR-combined with the
/// sprite bit that lands on it.
pub open spec fn draw_rel(
    pre: Seq<bool>,
    post: Seq<bool>,
    sprite: Seq<u8>,
    x0: int,
    y0: int,
    clip: bool,
) -> bool {
    let sx = x0 % (DISPLAY_WIDTH as int);
    let sy = y0 % (DISPLAY_HEIGHT as int);
    &&& post.len() == DISPLAY_PIXELS
    &&& forall|x: int, y: int|
        0 <= x < DISPLAY_WIDTH && 0 <= y < DISPLAY_HEIGHT ==> pix(post, x, y) == (pix(pre, x, y)
            != overlay_bit(sprite, sx, sy, clip, x, y))
}

/// Whether drawing `sprite` at `(x0, y0)` over `pre` erases some lit
/// pixel, i.e. lands a set sprite bit on a set canvas pixel.
pub open spec fn draw_collision(
    pre: Seq<bool>,
    sprite: Seq<u8>,
    x0: int,
    y0: int,
    clip: bool,
) -> bool {
    let sx = x0 % (DISPLAY_WIDTH as int);
    let sy = y0 % (DISPLAY_HEIGHT as int);
    exists|x: int, y: int|
        0 <= x < DISPLAY_WIDTH && 0 <= y < DISPLAY_HEIGHT && pix(pre, x, y) && overlay_bit(
            sprite,
            sx,
            sy,
            clip,
            x,
            y,
        )
}

/// Drawing the same sprite at the same position twice restores the
/// canvas exactly: XOR-ing every affected pixel twice is the identity.
pub proof fn lemma_draw_twice_restores(
    g0: Seq<bool>,
    g1: Seq<bool>,
    g2: Seq<bool>,
    sprite: Seq<u8>,
    x0: int,
    y0: int,
    clip: bool,
)
    requires
        g0.len() == DISPLAY_PIXELS,
        draw_rel(g0, g1, sprite, x0, y0, clip),
        draw_rel(g1, g2, sprite, x0, y0, clip),
    ensures
        g2 == g0,
{
    assert forall|i: int| 0 <= i < DISPLAY_PIXELS implies g2[i] == g0[i] by {
        let y = i / (DISPLAY_WIDTH as int);
        let x = i % (DISPLAY_WIDTH as int);
        assert(0 <= x < DISPLAY_WIDTH && 0 <= y < DISPLAY_HEIGHT && i == y * (
        DISPLAY_WIDTH as int) + x) by (nonlinear_arith)
            requires
                0 <= i < 2048,
                x == i % 64,
                y == i / 64,
        ;
        assert(pix(g2, x, y) == (pix(g1, x, y) != overlay_bit(
            sprite,
            x0 % (DISPLAY_WIDTH as int),
            y0 % (DISPLAY_HEIGHT as int),
            clip,
            x,
            y,
        )));
        assert(pix(g1, x, y) == (pix(g0, x, y) != overlay_bit(
            sprite,
            x0 % (DISPLAY_WIDTH as int),
            y0 % (DISPLAY_HEIGHT as int),
            clip,
            x,
            y,
        )));
    };
    assert(g2 =~= g0);
}

/// The collision report is exact: a collision is reported if and only
/// if some previously lit pixel is clear after the draw.
pub proof fn lemma_collision_iff_pixel_cleared(
    g0: Seq<bool>,
    g1: Seq<bool>,
    sprite: Seq<u8>,
    x0: int,
    y0: int,
    clip: bool,
)
    requires
        g0.len() == DISPLAY_PIXELS,
        draw_rel(g0, g1, sprite, x0, y0, clip),
    ensures
        draw_collision(g0, sprite, x0, y0, clip) <==> exists|x: int, y: int|
            0 <= x < DISPLAY_WIDTH && 0 <= y < DISPLAY_HEIGHT && pix(g0, x, y) && !pix(g1, x, y),
{
    let sx = x0 % (DISPLAY_WIDTH as int);
    let sy = y0 % (DISPLAY_HEIGHT as int);
    if draw_collision(g0, sprite, x0, y0, clip) {
        let (x, y) = choose|x: int, y: int|
            0 <= x < DISPLAY_WIDTH && 0 <= y < DISPLAY_HEIGHT && pix(g0, x, y) && overlay_bit(
                sprite,
                sx,
                sy,
                clip,
                x,
                y,
            );
        assert(pix(g1, x, y) == (pix(g0, x, y) != overlay_bit(sprite, sx, sy, clip, x, y)));
        assert(pix(g0, x, y) && !pix(g1, x, y));
    }
    if exists|x: int, y: int|
        0 <= x < DISPLAY_WIDTH && 0 <= y < DISPLAY_HEIGHT && pix(g0, x, y) && !pix(g1, x, y) {
        let (x, y) = choose|x: int, y: int|
            0 <= x < DISPLAY_WIDTH && 0 <= y < DISPLAY_HEIGHT && pix(g0, x, y) && !pix(g1, x, y);
        assert(pix(g1, x, y) == (pix(g0, x, y) != overlay_bit(sprite, sx, sy, clip, x, y)));
        assert(overlay_bit(sprite, sx, sy, clip, x, y));
        assert(draw_collision(g0, sprite, x0, y0, clip));
    }
}

impl DisplayData {
    /// The canvas dimensions match the fixed backing store.
    pub open spec fn wf(&self) -> bool {
        self.width == DISPLAY_WIDTH && self.height == DISPLAY_HEIGHT
    }

    /// A 64x32 canvas with every pixel clear.
    pub fn new_64x32() -> (r: DisplayData)
        ensures
            r.wf(),
            r@.len() == DISPLAY_PIXELS,
            forall|i: int| 0 <= i < DISPLAY_PIXELS ==> !r@[i],
    {
        DisplayData {
            width: DISPLAY_WIDTH,
            height: DISPLAY_HEIGHT,
            backing_arr: [false; DISPLAY_PIXELS],
        }
    }

    pub fn get_pixel(&self, x: usize, y: usize) -> (r: bool)
        requires
            self.wf(),
            x < DISPLAY_WIDTH,
            y < DISPLAY_HEIGHT,
        ensures
            r == pix(self@, x as int, y as int),
    {
        self.backing_arr[x + y * self.width]
    }

    fn set_pixel(&mut self, x: usize, y: usize, val: bool)
        requires
            old(self).wf(),
            x < DISPLAY_WIDTH,
            y < DISPLAY_HEIGHT,
        ensures
            final(self).wf(),
            final(self).width == old(self).width,
            final(self).height == old(self).height,
            final(self)@ == old(self)@.update(y * (DISPLAY_WIDTH as int) + x, val),
    {
        let idx = x + y * self.width;
        self.backing_arr[idx] = val;
    }

    /// Draws `sprite` with its origin at `(x, y)`: every sprite bit is
    /// XOR-combined with the pixel it lands on, and the result reports
    /// whether some previously lit pixel was erased.  The origin is taken
    /// modulo the canvas size; pixels past the edge wrap around, or are
    /// skipped when `clipping` is set.
    pub fn draw(&mut self, sprite: &[u8], x: usize, y: usize, clipping: bool) -> (collision:
        bool)
        requires
            old(self).wf(),
            sprite@.len() <= DISPLAY_HEIGHT,
        ensures
            final(self).wf(),
            final(self).width == old(self).width,
            final(self).height == old(self).height,
            draw_rel(old(self)@, final(self)@, sprite@, x as int, y as int, clipping),
            collision == draw_collision(old(self)@, sprite@, x as int, y as int, clipping),
    {
        let ghost g0 = self@;
        let w = self.width;
        let h = self.height;
        let sx = x % w;
        let sy = y % h;
        let ghost sxi = sx as int;
        let ghost syi = sy as int;
        let mut collision = false;
        let mut row: usize = 0;
        proof {
            assert(forall|xx: int, yy: int|
                !overlay_done(sprite@, sxi, syi, clipping, xx, yy, 0, 0));
        }
        while row < sprite.len()
            invariant
                self.wf(),
                self.width == old(self).width,
                self.height == old(self).height,
                w == DISPLAY_WIDTH,
                h == DISPLAY_HEIGHT,
                sxi == x as int % (DISPLAY_WIDTH as int),
                syi == y as int % (DISPLAY_HEIGHT as int),
                sx == sxi,
                sy == syi,
                0 <= sxi < DISPLAY_WIDTH,
                0 <= syi < DISPLAY_HEIGHT,
                sprite@.len() <= DISPLAY_HEIGHT,
                row <= sprite@.len(),
                g0 == old(self)@,
                forall|xx: int, yy: int|
                    0 <= xx < DISPLAY_WIDTH && 0 <= yy < DISPLAY_HEIGHT ==> pix(self@, xx, yy)
                        == (pix(g0, xx, yy) != overlay_done(
                        sprite@,
                        sxi,
                        syi,
                        clipping,
                        xx,
                        yy,
                        row as int,
                        0,
                    )),
                collision == exists|xx: int, yy: int|
                    0 <= xx < DISPLAY_WIDTH && 0 <= yy < DISPLAY_HEIGHT && pix(g0, xx, yy)
                        && overlay_done(sprite@, sxi, syi, clipping, xx, yy, row as int, 0),
            decreases sprite@.len() - row,
        {
            let byte = sprite[row];
            let mut col: usize = 0;
            while col < 8
                invariant
                    self.wf(),
                    self.width == old(self).width,
                    self.height == old(self).height,
                    w == DISPLAY_WIDTH,
                    h == DISPLAY_HEIGHT,
                    sxi == x as int % (DISPLAY_WIDTH as int),
                    syi == y as int % (DISPLAY_HEIGHT as int),
                    sx == sxi,
                    sy == syi,
                    0 <= sxi < DISPLAY_WIDTH,
                    0 <= syi < DISPLAY_HEIGHT,
                    sprite@.len() <= DISPLAY_HEIGHT,
                    row < sprite@.len(),
                    byte == sprite@[row as int],
                    col <= 8,
                    g0 == old(self)@,
                    forall|xx: int, yy: int|
                        0 <= xx < DISPLAY_WIDTH && 0 <= yy < DISPLAY_HEIGHT ==> pix(self@, xx, yy)
                            == (pix(g0, xx, yy) != overlay_done(
                            sprite@,
                            sxi,
                            syi,
                            clipping,
                            xx,
                            yy,
                            row as int,
                            col as int,
                        )),
                    collision == exists|xx: int, yy: int|
                        0 <= xx < DISPLAY_WIDTH && 0 <= yy < DISPLAY_HEIGHT && pix(g0, xx, yy)
                            && overlay_done(
                            sprite@,
                            sxi,
                            syi,
                            clipping,
                            xx,
                            yy,
                            row as int,
                            col as int,
                        ),
                decreases 8 - col,
            {
                let ghost ri = row as int;
                let ghost ci = col as int;
                let sh: u8 = (7 - col) as u8;
                let bit = (byte >> sh) & 1 == 1;
                proof {
                    assert(bit == sprite_row_bit(sprite@[ri], ci));
                }
                let pxr = sx + col;
                let pyr = sy + row;
                let (px, py, visible): (usize, usize, bool) = if clipping {
                    (pxr, pyr, pxr < w && pyr < h)
                } else {
                    (
                        if pxr < w {
                            pxr
                        } else {
                            pxr - w
                        },
                        if pyr < h {
                            pyr
                        } else {
                            pyr - h
                        },
                        true,
                    )
                };
                if visible {
                    let ghost pxi = px as int;
                    let ghost pyi = py as int;
                    proof {
                        assert(axis_off(sxi, pxi, DISPLAY_WIDTH as int, clipping) == ci);
                        assert(axis_off(syi, pyi, DISPLAY_HEIGHT as int, clipping) == ri);
                    }
                    let ghost pre_upd = self@;
                    let ghost old_collision = collision;
                    let oldp = self.get_pixel(px, py);
                    self.set_pixel(px, py, oldp ^ bit);
                    if oldp && bit {
                        collision = true;
                    }
                    proof {
                        // The pixel hit now was not hit by any earlier
                        // (row, column) pair, so it still holds its
                        // original value.
                        assert(!overlay_done(sprite@, sxi, syi, clipping, pxi, pyi, ri, ci));
                        assert(oldp == pix(g0, pxi, pyi));
                        assert forall|xx: int, yy: int|
                            0 <= xx < DISPLAY_WIDTH && 0 <= yy < DISPLAY_HEIGHT implies pix(
                            self@,
                            xx,
                            yy,
                        ) == (pix(g0, xx, yy) != overlay_done(
                            sprite@,
                            sxi,
                            syi,
                            clipping,
                            xx,
                            yy,
                            ri,
                            ci + 1,
                        )) by {
                            if xx == pxi && yy == pyi {
                                assert(pix(self@, xx, yy) == (oldp != bit));
                            } else {
                                assert(yy * (DISPLAY_WIDTH as int) + xx != pyi * (
                                DISPLAY_WIDTH as int) + pxi);
                                assert(pix(self@, xx, yy) == pix(pre_upd, xx, yy));
                                // Only the pair processed in this step is
                                // new, and it maps to (px, py) alone.
                                assert(overlay_done(sprite@, sxi, syi, clipping, xx, yy, ri, ci + 1)
                                    == overlay_done(sprite@, sxi, syi, clipping, xx, yy, ri, ci));
                            }
                        };
                        if collision {
                            if old_collision {
                                let (wx, wy) = choose|wx: int, wy: int|
                                    0 <= wx < DISPLAY_WIDTH && 0 <= wy < DISPLAY_HEIGHT && pix(
                                        g0,
                                        wx,
                                        wy,
                                    ) && overlay_done(sprite@, sxi, syi, clipping, wx, wy, ri, ci);
                                assert(overlay_done(sprite@, sxi, syi, clipping, wx, wy, ri, ci
                                    + 1));
                            } else {
                                assert(pix(g0, pxi, pyi) && overlay_done(
                                    sprite@,
                                    sxi,
                                    syi,
                                    clipping,
                                    pxi,
                                    pyi,
                                    ri,
                                    ci + 1,
                                ));
                            }
                        } else {
                            assert forall|xx: int, yy: int|
                                0 <= xx < DISPLAY_WIDTH && 0 <= yy < DISPLAY_HEIGHT implies !(pix(
                                g0,
                                xx,
                                yy,
                            ) && overlay_done(sprite@, sxi, syi, clipping, xx, yy, ri, ci
                                + 1)) by {
                                if xx == pxi && yy == pyi {
                                    assert(!(oldp && bit));
                                } else {
                                    assert(overlay_done(sprite@, sxi, syi, clipping, xx, yy, ri, ci
                                        + 1) == overlay_done(
                                        sprite@,
                                        sxi,
                                        syi,
                                        clipping,
                                        xx,
                                        yy,
                                        ri,
                                        ci,
                                    ));
                                }
                            };
                        }
                    }
                } else {
                    proof {
                        // The skipped pixel lies past the clipped edge,
                        // so no in-range pixel maps to this pair.
                        assert forall|xx: int, yy: int|
                            0 <= xx < DISPLAY_WIDTH && 0 <= yy < DISPLAY_HEIGHT implies overlay_done(
                            sprite@,
                            sxi,
                            syi,
                            clipping,
                            xx,
                            yy,
                            ri,
                            ci + 1,
                        ) == overlay_done(sprite@, sxi, syi, clipping, xx, yy, ri, ci) by {};
                        if collision {
                            let (wx, wy) = choose|wx: int, wy: int|
                                0 <= wx < DISPLAY_WIDTH && 0 <= wy < DISPLAY_HEIGHT && pix(
                                    g0,
                                    wx,
                                    wy,
                                ) && overlay_done(sprite@, sxi, syi, clipping, wx, wy, ri, ci);
                            assert(overlay_done(sprite@, sxi, syi, clipping, wx, wy, ri, ci + 1));
                        }
                    }
                }
                col = col + 1;
            }
            proof {
                let ri = row as int;
                assert forall|xx: int, yy: int|
                    0 <= xx < DISPLAY_WIDTH && 0 <= yy < DISPLAY_HEIGHT implies overlay_done(
                    sprite@,
                    sxi,
                    syi,
                    clipping,
                    xx,
                    yy,
                    ri + 1,
                    0,
                ) == overlay_done(sprite@, sxi, syi, clipping, xx, yy, ri, 8) by {};
                if collision {
                    let (wx, wy) = choose|wx: int, wy: int|
                        0 <= wx < DISPLAY_WIDTH && 0 <= wy < DISPLAY_HEIGHT && pix(g0, wx, wy)
                            && overlay_done(sprite@, sxi, syi, clipping, wx, wy, ri, 8);
                    assert(overlay_done(sprite@, sxi, syi, clipping, wx, wy, ri + 1, 0));
                }
            }
            row = row + 1;
        }
        proof {
            let li = sprite@.len() as int;
            assert forall|xx: int, yy: int|
                0 <= xx < DISPLAY_WIDTH && 0 <= yy < DISPLAY_HEIGHT implies overlay_done(
                sprite@,
                sxi,
                syi,
                clipping,
                xx,
                yy,
                li,
                0,
            ) == overlay_bit(sprite@, sxi, syi, clipping, xx, yy) by {};
            if collision {
                let (wx, wy) = choose|wx: int, wy: int|
                    0 <= wx < DISPLAY_WIDTH && 0 <= wy < DISPLAY_HEIGHT && pix(g0, wx, wy)
                        && overlay_done(sprite@, sxi, syi, clipping, wx, wy, li, 0);
                assert(pix(g0, wx, wy) && overlay_bit(sprite@, sxi, syi, clipping, wx, wy));
            }
        }
        collision
    }

    /// Glyph-per-pixel text dump for non-interactive inspection: a
    /// frame line of underscores, then one text line per pixel row
    /// (`#` for a lit pixel, `.` for a clear one), then a frame line.
    /// Every line is 65 characters: 64 glyphs and a newline.
    pub fn debug_string(&self) -> (r: String)
        requires
            self.wf(),
        ensures
            r@.len() == 34 * 65,
            forall|x: int, y: int|
                0 <= x < DISPLAY_WIDTH && 0 <= y < DISPLAY_HEIGHT ==> r@[65 + y * 65 + x] == (
                if pix(self@, x, y) {
                    '#'
                } else {
                    '.'
                }),
    {
        proof {
            reveal_strlit("________________________________________________________________\n");
            reveal_strlit("#");
            reveal_strlit(".");
            reveal_strlit("\n");
        }
        let mut s = String::from_str(
            "________________________________________________________________\n",
        );
        let mut yy: usize = 0;
        while yy < 32
            invariant
                self.wf(),
                yy <= 32,
                s@.len() == 65 + yy * 65,
                forall|x: int, y: int|
                    0 <= x < DISPLAY_WIDTH && 0 <= y < yy ==> s@[65 + y * 65 + x] == (if pix(
                        self@,
                        x,
                        y,
                    ) {
                        '#'
                    } else {
                        '.'
                    }),
            decreases 32 - yy,
        {
            let mut xx: usize = 0;
            while xx < 64
                invariant
                    self.wf(),
                    yy < 32,
                    xx <= 64,
                    s@.len() == 65 + yy * 65 + xx,
                    forall|x: int, y: int|
                        0 <= x < DISPLAY_WIDTH && 0 <= y < yy ==> s@[65 + y * 65 + x] == (if pix(
                            self@,
                            x,
                            y,
                        ) {
                            '#'
                        } else {
                            '.'
                        }),
                    forall|x: int|
                        0 <= x < xx ==> s@[65 + yy * 65 + x] == (if pix(self@, x, yy as int) {
                            '#'
                        } else {
                            '.'
                        }),
                decreases 64 - xx,
            {
                proof {
                    reveal_strlit("#");
                    reveal_strlit(".");
                }
                if self.get_pixel(xx, yy) {
                    s.append("#");
                } else {
                    s.append(".");
                }
                xx = xx + 1;
            }
            proof {
                reveal_strlit("\n");
            }
            s.append("\n");
            yy = yy + 1;
        }
        proof {
            reveal_strlit("________________________________________________________________\n");
        }
        s.append("________________________________________________________________\n");
        s
    }

    /// Resets every pixel to clear.
    pub fn clear(&mut self)
        ensures
            final(self).wf() == old(self).wf(),
            final(self).width == old(self).width,
            final(self).height == old(self).height,
            final(self)@.len() == DISPLAY_PIXELS,
            forall|i: int| 0 <= i < DISPLAY_PIXELS ==> !final(self)@[i],
    {
        self.backing_arr = [false; DISPLAY_PIXELS];
    }
}

} // verus!
