//! The logical 64x32 monochrome display.
//!
//! Pixels are packed one bit each into 256 bytes, row-major, so pixel `i`
//! (with `i == row * 64 + column`) lives in byte `i / 8` at bit `i % 8`.
//! Sprites are blitted by XOR: a set sprite bit toggles the target pixel,
//! and a draw reports a collision when a toggle turns a lit pixel off.
//!
//! The draw's addressing follows the interpreter it implements: the start
//! coordinates are reduced modulo 64 and 32 once, rows past the bottom edge
//! are clipped, and columns past the right edge are *not* clipped — their
//! bits land at the next bit index in storage order, which is the start of
//! the following row. Only writes that would fall past the final byte of
//! the buffer are dropped.

use vstd::prelude::*;

verus! {

/// Number of pixel columns.
pub const DISPLAY_WIDTH: usize = 64;
/// Number of pixel rows.
pub const DISPLAY_HEIGHT: usize = 32;
/// Bytes of packed pixel storage.
pub const DISPLAY_BYTES: usize = 256;
/// Total number of stored pixel bits.
pub const DISPLAY_BITS: usize = 2048;

/// True iff bit `j` (counting from the least significant end) of `b` is set.
pub open spec fn bit_of(b: u8, j: int) -> bool {
    (b >> (j as u8)) & 1 == 1
}

/// True iff stored pixel bit `i` of the packed buffer `fb` is lit.
pub open spec fn fb_bit(fb: Seq<u8>, i: int) -> bool {
    bit_of(fb[i / 8], i % 8)
}

/// True iff sprite row `dy`, column `dx` is a set sprite bit that a draw at
/// `(x, y)` sends to stored bit index `i`. Sprite bits are taken from the
/// high end of each row byte; rows at or below the bottom edge are clipped;
/// a target index past the end of storage is dropped.
pub open spec fn sprite_hits(x: int, y: int, s: Seq<u8>, dy: int, dx: int, i: int) -> bool {
    &&& 0 <= dy < s.len()
    &&& dy < 32 - y
    &&& 0 <= dx < 8
    &&& bit_of(s[dy], 7 - dx)
    &&& i == (y + dy) * 64 + (x + dx)
    &&& i < 2048
}

/// True iff a draw of sprite `s` at `(x, y)` toggles stored bit `i`.
pub open spec fn toggled(x: int, y: int, s: Seq<u8>, i: int) -> bool {
    exists|dy: int, dx: int| sprite_hits(x, y, s, dy, dx, i)
}

/// True iff a draw of sprite `s` at `(x, y)` over the buffer `fb` toggles
/// some bit that was lit, i.e. reports a collision.
pub open spec fn draw_collides(fb: Seq<u8>, x: int, y: int, s: Seq<u8>) -> bool {
    exists|i: int| 0 <= i < 2048 && toggled(x, y, s, i) && fb_bit(fb, i)
}

/// Relates the buffer after a draw to the buffer before it: every stored
/// bit is the old bit XOR whether the sprite toggles it.
pub open spec fn draw_applied(pre: Seq<u8>, post: Seq<u8>, x: int, y: int, s: Seq<u8>) -> bool {
    &&& post.len() == pre.len()
    &&& forall|i: int|
        0 <= i < 2048 ==> fb_bit(post, i) == (fb_bit(pre, i) != toggled(x, y, s, i))
}

/// Like [`toggled`], but counting only the sprite bits strictly before row
/// `dy`, column `dx` in drawing order.
pub open spec fn toggled_before(x: int, y: int, s: Seq<u8>, i: int, dy: int, dx: int) -> bool {
    exists|a: int, b: int|
        sprite_hits(x, y, s, a, b, i) && (a < dy || (a == dy && b < dx))
}


/// A toggle counted before one point in drawing order is still counted
/// before any later point.
proof fn lemma_toggled_before_mono(x: int, y: int, s: Seq<u8>, i: int, dy: int, dx: int, dy2: int, dx2: int)
    requires
        toggled_before(x, y, s, i, dy, dx),
        dy < dy2 || (dy == dy2 && dx <= dx2),
    ensures
        toggled_before(x, y, s, i, dy2, dx2),
{
    let (a, b): (int, int) = choose|a: int, b: int|
        sprite_hits(x, y, s, a, b, i) && (a < dy || (a == dy && b < dx));
    assert(sprite_hits(x, y, s, a, b, i) && (a < dy2 || (a == dy2 && b < dx2)));
}

/// If the step at `(dy, dx)` toggles nothing, the toggles counted before
/// `(dy, dx + 1)` are exactly those counted before `(dy, dx)`.
proof fn lemma_no_new_toggle(x: int, y: int, s: Seq<u8>, dy: int, dx: int)
    requires
        forall|i: int| !sprite_hits(x, y, s, dy, dx, i),
    ensures
        forall|i: int| #[trigger] toggled_before(x, y, s, i, dy, dx + 1) == toggled_before(
            x, y, s, i, dy, dx,
        ),
{
    assert forall|i: int| #[trigger] toggled_before(x, y, s, i, dy, dx + 1) == toggled_before(
        x, y, s, i, dy, dx,
    ) by {
        if toggled_before(x, y, s, i, dy, dx + 1) {
            let (a, b): (int, int) = choose|a: int, b: int|
                sprite_hits(x, y, s, a, b, i) && (a < dy || (a == dy && b < dx + 1));
            if a == dy && b == dx {
                assert(!sprite_hits(x, y, s, dy, dx, i));
                assert(false);
            }
            assert(sprite_hits(x, y, s, a, b, i) && (a < dy || (a == dy && b < dx)));
        }
        if toggled_before(x, y, s, i, dy, dx) {
            lemma_toggled_before_mono(x, y, s, i, dy, dx, dy, dx + 1);
        }
    }
}

/// Two cuts of drawing order that count the same toggles report the same
/// collision over a given buffer.
proof fn lemma_collision_same(x: int, y: int, s: Seq<u8>, fb: Seq<u8>, dy: int, dx: int, dy2: int, dx2: int)
    requires
        forall|i: int| #[trigger] toggled_before(x, y, s, i, dy, dx) == toggled_before(
            x, y, s, i, dy2, dx2,
        ),
    ensures
        (exists|i: int| 0 <= i < 2048 && toggled_before(x, y, s, i, dy, dx) && fb_bit(fb, i))
            == (exists|i: int|
            0 <= i < 2048 && toggled_before(x, y, s, i, dy2, dx2) && fb_bit(fb, i)),
{
    if exists|i: int| 0 <= i < 2048 && toggled_before(x, y, s, i, dy, dx) && fb_bit(fb, i) {
        let i = choose|i: int| 0 <= i < 2048 && toggled_before(x, y, s, i, dy, dx) && fb_bit(fb, i);
        assert(0 <= i < 2048 && toggled_before(x, y, s, i, dy2, dx2) && fb_bit(fb, i));
    }
    if exists|i: int| 0 <= i < 2048 && toggled_before(x, y, s, i, dy2, dx2) && fb_bit(fb, i) {
        let i = choose|i: int|
            0 <= i < 2048 && toggled_before(x, y, s, i, dy2, dx2) && fb_bit(fb, i);
        assert(0 <= i < 2048 && toggled_before(x, y, s, i, dy, dx) && fb_bit(fb, i));
    }
}

/// The packed 64x32 pixel buffer.
pub struct Framebuffer {
    pub pixels: Vec<u8>,
}

/// Flipping bit `j` of a byte flips exactly that bit.
proof fn lemma_flip_bit_same(b: u8, j: u8)
    requires
        j < 8,
    ensures
        bit_of(b ^ (1u8 << j), j as int) != bit_of(b, j as int),
{
    assert((((b ^ (1u8 << j)) >> j) & 1 == 1) != ((b >> j) & 1 == 1)) by (bit_vector)
        requires
            j < 8,
    ;
}

/// Flipping bit `j` of a byte leaves every other bit unchanged.
proof fn lemma_flip_bit_other(b: u8, j: u8, k: u8)
    requires
        j < 8,
        k < 8,
        k != j,
    ensures
        bit_of(b ^ (1u8 << j), k as int) == bit_of(b, k as int),
{
    assert((((b ^ (1u8 << j)) >> k) & 1 == 1) == ((b >> k) & 1 == 1)) by (bit_vector)
        requires
            j < 8,
            k < 8,
            k != j,
    ;
}

/// Reading bit `7 - dx` of a row byte agrees with the spec-level test the
/// draw loop performs with a mask.
proof fn lemma_mask_test(b: u8, dx: u8)
    requires
        dx < 8,
    ensures
        (b & (1u8 << ((7 - dx) as u8)) != 0) == ((b >> ((7 - dx) as u8)) & 1 == 1),
{
    assert((b & (1u8 << ((7 - dx) as u8)) != 0) == ((b >> ((7 - dx) as u8)) & 1 == 1))
        by (bit_vector)
        requires
            dx < 8,
    ;
}

/// Within one draw, distinct sprite bits land on distinct stored bits, so
/// the bit a step is about to toggle was not toggled by an earlier step.
proof fn lemma_hit_is_new(x: int, y: int, s: Seq<u8>, dy: int, dx: int)
    requires
        0 <= x < 64,
        0 <= dy,
        0 <= dx < 8,
    ensures
        !toggled_before(x, y, s, (y + dy) * 64 + (x + dx), dy, dx),
{
    let i = (y + dy) * 64 + (x + dx);
    assert forall|a: int, b: int|
        sprite_hits(x, y, s, a, b, i) implies !(a < dy || (a == dy && b < dx)) by {
        if a < dy {
            assert((y + dy) * 64 - (y + a) * 64 == (dy - a) * 64) by (nonlinear_arith);
            assert((dy - a) * 64 >= 64) by (nonlinear_arith)
                requires
                    dy - a >= 1,
            ;
            assert((x + dx) - (x + b) >= 57);
            assert(false);
        } else if a == dy && b < dx {
            assert(x + b == x + dx);
            assert(false);
        }
    }
}

impl Framebuffer {
    /// The buffer holds exactly its 256 bytes.
    pub open spec fn wf(self) -> bool {
        self.pixels@.len() == 256
    }

    /// A fresh display: every pixel off.
    pub fn new() -> (fb: Framebuffer)
        ensures
            fb.wf(),
            forall|i: int| 0 <= i < 256 ==> fb.pixels@[i] == 0,
    {
        let mut pixels: Vec<u8> = Vec::new();
        let mut k: usize = 0;
        while k < DISPLAY_BYTES
            invariant
                k <= 256,
                pixels@.len() == k,
                forall|i: int| 0 <= i < k ==> pixels@[i] == 0,
            decreases 256 - k,
        {
            pixels.push(0);
            k = k + 1;
        }
        Framebuffer { pixels }
    }

    /// Turn every pixel off (the 00E0 instruction).
    pub fn clear(&mut self)
        requires
            old(self).wf(),
        ensures
            final(self).wf(),
            forall|i: int| 0 <= i < 256 ==> final(self).pixels@[i] == 0,
    {
        let mut k: usize = 0;
        while k < DISPLAY_BYTES
            invariant
                k <= 256,
                self.pixels@.len() == 256,
                forall|i: int| 0 <= i < k ==> self.pixels@[i] == 0,
            decreases 256 - k,
        {
            self.pixels.set(k, 0);
            k = k + 1;
        }
    }

    /// Whether the pixel at column `px`, row `py` is lit.
    pub fn pixel(&self, px: u8, py: u8) -> (lit: bool)
        requires
            self.wf(),
            px < 64,
            py < 32,
        ensures
            lit == fb_bit(self.pixels@, py as int * 64 + px as int),
    {
        let i: usize = py as usize * DISPLAY_WIDTH + px as usize;
        let b = self.pixels[i / 8];
        let j: u8 = (i % 8) as u8;
        (b >> j) & 1 == 1
    }

    /// A copy of the packed 256-byte buffer, for the presentation backend.
    pub fn snapshot(&self) -> (out: Vec<u8>)
        requires
            self.wf(),
        ensures
            out@ == self.pixels@,
    {
        let mut out: Vec<u8> = Vec::new();
        let mut k: usize = 0;
        while k < DISPLAY_BYTES
            invariant
                k <= 256,
                self.pixels@.len() == 256,
                out@ == self.pixels@.subrange(0, k as int),
            decreases 256 - k,
        {
            out.push(self.pixels[k]);
            k = k + 1;
        }
        assert(out@ =~= self.pixels@);
        out
    }

    /// XOR-blit `sprite` with its top-left corner at `(x % 64, y % 32)` and
    /// report whether any lit pixel was toggled off.
    pub fn draw(&mut self, x: u8, y: u8, sprite: &[u8]) -> (collided: bool)
        requires
            old(self).wf(),
        ensures
            final(self).wf(),
            draw_applied(
                old(self).pixels@,
                final(self).pixels@,
                x as int % 64,
                y as int % 32,
                sprite@,
            ),
            collided == draw_collides(
                old(self).pixels@,
                x as int % 64,
                y as int % 32,
                sprite@,
            ),
    {
        let ghost orig = self.pixels@;
        let ghost s = sprite@;
        let x0: usize = x as usize % DISPLAY_WIDTH;
        let y0: usize = y as usize % DISPLAY_HEIGHT;
        let ghost xs = x0 as int;
        let ghost ys = y0 as int;
        let mut collided = false;
        let rows: usize = if sprite.len() < DISPLAY_HEIGHT - y0 {
            sprite.len()
        } else {
            DISPLAY_HEIGHT - y0
        };
        let mut dy: usize = 0;
        while dy < rows
            invariant
                self.pixels@.len() == 256,
                xs == x0 as int,
                ys == y0 as int,
                x0 < 64,
                y0 < 32,
                s == sprite@,
                orig.len() == 256,
                dy <= rows,
                rows <= s.len(),
                rows <= 32 - y0,
                forall|i: int|
                    0 <= i < 2048 ==> fb_bit(self.pixels@, i) == (fb_bit(orig, i)
                        != toggled_before(xs, ys, s, i, dy as int, 0)),
                collided == exists|i: int|
                    0 <= i < 2048 && toggled_before(xs, ys, s, i, dy as int, 0) && fb_bit(orig, i),
            decreases rows - dy,
        {
            let row = sprite[dy];
            let mut dx: usize = 0;
            while dx < 8
                invariant
                    self.pixels@.len() == 256,
                    xs == x0 as int,
                    ys == y0 as int,
                    x0 < 64,
                    y0 < 32,
                    s == sprite@,
                    orig.len() == 256,
                    dy < rows,
                    rows <= s.len(),
                    rows <= 32 - y0,
                    row == s[dy as int],
                    dx <= 8,
                    forall|i: int|
                        0 <= i < 2048 ==> fb_bit(self.pixels@, i) == (fb_bit(orig, i)
                            != toggled_before(xs, ys, s, i, dy as int, dx as int)),
                    collided == exists|i: int|
                        0 <= i < 2048 && toggled_before(xs, ys, s, i, dy as int, dx as int)
                            && fb_bit(orig, i),
                decreases 8 - dx,
            {
                let ghost dyi = dy as int;
                let ghost dxi = dx as int;
                let ghost entry = self.pixels@;
                let ghost coll0 = collided;
                proof {
                    lemma_mask_test(row, dx as u8);
                }
                if row & (1u8 << ((7 - dx) as u8)) != 0 {
                    let i: usize = (y0 + dy) * DISPLAY_WIDTH + (x0 + dx);
                    let ghost ii = i as int;
                    if i < DISPLAY_BITS {
                        assert(sprite_hits(xs, ys, s, dyi, dxi, ii));
                        proof {
                            lemma_hit_is_new(xs, ys, s, dyi, dxi);
                        }
                        let byte_index = i / 8;
                        let j: u8 = (i % 8) as u8;
                        let b = self.pixels[byte_index];
                        // The target bit has not been toggled yet, so the
                        // stored value still agrees with the pre-draw buffer.
                        assert(b == entry[ii / 8]);
                        assert(fb_bit(entry, ii) == fb_bit(orig, ii));
                        if (b >> j) & 1 == 1 {
                            collided = true;
                            assert(fb_bit(orig, ii));
                        }
                        let flipped = b ^ (1u8 << j);
                        self.pixels.set(byte_index, flipped);
                        proof {
                            lemma_flip_bit_same(b, j);
                            assert(bit_of(flipped, ii % 8) != bit_of(b, ii % 8));
                            assert forall|i2: int|
                                0 <= i2 < 2048 implies fb_bit(self.pixels@, i2) == (fb_bit(
                                orig,
                                i2,
                            ) != toggled_before(xs, ys, s, i2, dyi, dxi + 1)) by {
                                assert(fb_bit(entry, i2) == (fb_bit(orig, i2) != toggled_before(
                                    xs, ys, s, i2, dyi, dxi,
                                )));
                                if i2 == ii {
                                    assert(toggled_before(xs, ys, s, ii, dyi, dxi + 1));
                                    assert(self.pixels@[ii / 8] == flipped);
                                    assert(fb_bit(self.pixels@, ii) != fb_bit(entry, ii));
                                } else {
                                    // The toggles counted before (dy, dx + 1)
                                    // at any other index are those counted
                                    // before (dy, dx).
                                    assert(toggled_before(xs, ys, s, i2, dyi, dxi + 1)
                                        == toggled_before(xs, ys, s, i2, dyi, dxi)) by {
                                        if toggled_before(xs, ys, s, i2, dyi, dxi + 1) {
                                            let (a, bb): (int, int) = choose|a: int, bb: int|
                                                sprite_hits(xs, ys, s, a, bb, i2) && (a < dyi || (a
                                                    == dyi && bb < dxi + 1));
                                            if a == dyi && bb == dxi {
                                                assert(i2 == ii);
                                                assert(false);
                                            }
                                            assert(sprite_hits(xs, ys, s, a, bb, i2) && (a < dyi
                                                || (a == dyi && bb < dxi)));
                                        }
                                        if toggled_before(xs, ys, s, i2, dyi, dxi) {
                                            lemma_toggled_before_mono(
                                                xs, ys, s, i2, dyi, dxi, dyi, dxi + 1,
                                            );
                                        }
                                    }
                                    if i2 / 8 == ii / 8 {
                                        lemma_flip_bit_other(b, j, (i2 % 8) as u8);
                                        assert(self.pixels@[i2 / 8] == flipped);
                                        assert(bit_of(flipped, i2 % 8) == bit_of(b, i2 % 8));
                                        assert(fb_bit(self.pixels@, i2) == fb_bit(entry, i2));
                                    } else {
                                        assert(self.pixels@[i2 / 8] == entry[i2 / 8]);
                                        assert(fb_bit(self.pixels@, i2) == fb_bit(entry, i2));
                                    }
                                }
                            }
                            // The collision flag still matches the toggles
                            // counted so far.
                            assert(collided == (exists|i3: int|
                                0 <= i3 < 2048 && toggled_before(xs, ys, s, i3, dyi, dxi + 1)
                                    && fb_bit(orig, i3))) by {
                                if collided {
                                    if coll0 {
                                        let i3 = choose|i3: int|
                                            0 <= i3 < 2048 && toggled_before(
                                                xs, ys, s, i3, dyi, dxi,
                                            ) && fb_bit(orig, i3);
                                        lemma_toggled_before_mono(
                                            xs, ys, s, i3, dyi, dxi, dyi, dxi + 1,
                                        );
                                        assert(0 <= i3 < 2048 && toggled_before(
                                            xs, ys, s, i3, dyi, dxi + 1,
                                        ) && fb_bit(orig, i3));
                                    } else {
                                        assert(fb_bit(orig, ii));
                                        assert(toggled_before(xs, ys, s, ii, dyi, dxi + 1));
                                        assert(0 <= ii < 2048 && toggled_before(
                                            xs, ys, s, ii, dyi, dxi + 1,
                                        ) && fb_bit(orig, ii));
                                    }
                                } else {
                                    assert forall|i3: int|
                                        !(0 <= i3 < 2048 && toggled_before(
                                            xs, ys, s, i3, dyi, dxi + 1,
                                        ) && fb_bit(orig, i3)) by {
                                        if 0 <= i3 < 2048 && toggled_before(
                                            xs, ys, s, i3, dyi, dxi + 1,
                                        ) && fb_bit(orig, i3) {
                                            let (a, bb): (int, int) = choose|a: int, bb: int|
                                                sprite_hits(xs, ys, s, a, bb, i3) && (a < dyi || (a
                                                    == dyi && bb < dxi + 1));
                                            if a == dyi && bb == dxi {
                                                assert(i3 == ii);
                                                assert(!fb_bit(orig, ii));
                                                assert(false);
                                            } else {
                                                assert(toggled_before(xs, ys, s, i3, dyi, dxi));
                                                assert(false);
                                            }
                                        }
                                    }
                                }
                            }
                        }
                    } else {
                        proof {
                            assert forall|i3: int| !sprite_hits(xs, ys, s, dyi, dxi, i3) by {
                                // Any hit of this step has this target
                                // index, which is out of storage.
                                if sprite_hits(xs, ys, s, dyi, dxi, i3) {
                                    assert(i3 == ii);
                                    assert(false);
                                }
                            }
                            lemma_no_new_toggle(xs, ys, s, dyi, dxi);
                            assert forall|i2: int|
                                0 <= i2 < 2048 implies fb_bit(self.pixels@, i2) == (fb_bit(
                                orig,
                                i2,
                            ) != toggled_before(xs, ys, s, i2, dyi, dxi + 1)) by {
                                assert(fb_bit(self.pixels@, i2) == (fb_bit(orig, i2)
                                    != toggled_before(xs, ys, s, i2, dyi, dxi)));
                                assert(toggled_before(xs, ys, s, i2, dyi, dxi + 1)
                                    == toggled_before(xs, ys, s, i2, dyi, dxi));
                            }
                            lemma_collision_same(xs, ys, s, orig, dyi, dxi + 1, dyi, dxi);
                        }
                    }
                } else {
                    proof {
                        assert forall|i3: int| !sprite_hits(xs, ys, s, dyi, dxi, i3) by {
                            // This sprite bit is clear, so this step hits
                            // nothing.
                        }
                        lemma_no_new_toggle(xs, ys, s, dyi, dxi);
                        assert forall|i2: int|
                            0 <= i2 < 2048 implies fb_bit(self.pixels@, i2) == (fb_bit(orig, i2)
                            != toggled_before(xs, ys, s, i2, dyi, dxi + 1)) by {
                            assert(fb_bit(self.pixels@, i2) == (fb_bit(orig, i2)
                                != toggled_before(xs, ys, s, i2, dyi, dxi)));
                            assert(toggled_before(xs, ys, s, i2, dyi, dxi + 1) == toggled_before(
                                xs, ys, s, i2, dyi, dxi,
                            ));
                        }
                        lemma_collision_same(xs, ys, s, orig, dyi, dxi + 1, dyi, dxi);
                    }
                }
                dx = dx + 1;
            }
            proof {
                let ghost dyi = dy as int;
                assert forall|i2: int| #[trigger] toggled_before(xs, ys, s, i2, dyi + 1, 0)
                    == toggled_before(xs, ys, s, i2, dyi, 8) by {
                    if toggled_before(xs, ys, s, i2, dyi + 1, 0) {
                        let (a, bb): (int, int) = choose|a: int, bb: int|
                            sprite_hits(xs, ys, s, a, bb, i2) && (a < dyi + 1 || (a == dyi + 1 && bb
                                < 0));
                        assert(sprite_hits(xs, ys, s, a, bb, i2) && (a < dyi || (a == dyi && bb
                            < 8)));
                    }
                    if toggled_before(xs, ys, s, i2, dyi, 8) {
                        let (a, bb): (int, int) = choose|a: int, bb: int|
                            sprite_hits(xs, ys, s, a, bb, i2) && (a < dyi || (a == dyi && bb < 8));
                        assert(sprite_hits(xs, ys, s, a, bb, i2) && a < dyi + 1);
                    }
                }
                assert forall|i2: int|
                    0 <= i2 < 2048 implies fb_bit(self.pixels@, i2) == (fb_bit(orig, i2)
                    != toggled_before(xs, ys, s, i2, dyi + 1, 0)) by {
                    assert(fb_bit(self.pixels@, i2) == (fb_bit(orig, i2) != toggled_before(
                        xs, ys, s, i2, dyi, 8,
                    )));
                    assert(toggled_before(xs, ys, s, i2, dyi + 1, 0) == toggled_before(
                        xs, ys, s, i2, dyi, 8,
                    ));
                }
                lemma_collision_same(xs, ys, s, orig, dyi + 1, 0, dyi, 8);
            }
            dy = dy + 1;
        }
        proof {
            assert forall|i2: int| #[trigger] toggled_before(xs, ys, s, i2, rows as int, 0)
                == toggled(xs, ys, s, i2) by {
                if toggled_before(xs, ys, s, i2, rows as int, 0) {
                    let (a, bb): (int, int) = choose|a: int, bb: int|
                        sprite_hits(xs, ys, s, a, bb, i2) && (a < rows as int || (a == rows as int
                            && bb < 0));
                    assert(sprite_hits(xs, ys, s, a, bb, i2));
                }
                if toggled(xs, ys, s, i2) {
                    let (a, bb): (int, int) = choose|a: int, bb: int|
                        sprite_hits(xs, ys, s, a, bb, i2);
                    // Every hit row is both inside the sprite and above the
                    // bottom edge, hence below `rows`.
                    assert(a < rows as int);
                    assert(sprite_hits(xs, ys, s, a, bb, i2) && (a < rows as int || (a
                        == rows as int && bb < 0)));
                }
            }
            assert forall|i2: int|
                0 <= i2 < 2048 implies fb_bit(self.pixels@, i2) == (fb_bit(orig, i2) != toggled(
                xs, ys, s, i2,
            )) by {
                assert(fb_bit(self.pixels@, i2) == (fb_bit(orig, i2) != toggled_before(
                    xs, ys, s, i2, rows as int, 0,
                )));
                assert(toggled_before(xs, ys, s, i2, rows as int, 0) == toggled(xs, ys, s, i2));
            }
            assert(collided == draw_collides(orig, xs, ys, s)) by {
                if exists|i3: int|
                    0 <= i3 < 2048 && toggled_before(xs, ys, s, i3, rows as int, 0) && fb_bit(
                    orig, i3,
                ) {
                    let i3 = choose|i3: int|
                        0 <= i3 < 2048 && toggled_before(xs, ys, s, i3, rows as int, 0) && fb_bit(
                        orig, i3,
                    );
                    assert(0 <= i3 < 2048 && toggled(xs, ys, s, i3) && fb_bit(orig, i3));
                }
                if draw_collides(orig, xs, ys, s) {
                    let i3 = choose|i3: int|
                        0 <= i3 < 2048 && toggled(xs, ys, s, i3) && fb_bit(orig, i3);
                    assert(0 <= i3 < 2048 && toggled_before(xs, ys, s, i3, rows as int, 0)
                        && fb_bit(orig, i3));
                }
            }
        }
        collided
    }
}

/// Drawing a sprite twice at the same spot onto a cleared display lands
/// back on an all-clear display: the first draw cannot collide, the
/// second undoes every toggle of the first, and the second draw reports a
/// collision exactly when the sprite toggles some stored bit at all.
pub proof fn lemma_double_draw(
    fb0: Seq<u8>,
    fb1: Seq<u8>,
    fb2: Seq<u8>,
    x: int,
    y: int,
    s: Seq<u8>,
    c1: bool,
    c2: bool,
)
    requires
        forall|i: int| 0 <= i < 2048 ==> !fb_bit(fb0, i),
        draw_applied(fb0, fb1, x, y, s),
        c1 == draw_collides(fb0, x, y, s),
        draw_applied(fb1, fb2, x, y, s),
        c2 == draw_collides(fb1, x, y, s),
    ensures
        forall|i: int| 0 <= i < 2048 ==> !fb_bit(fb2, i),
        !c1,
        c2 == exists|i: int| 0 <= i < 2048 && toggled(x, y, s, i),
{
    assert forall|i: int| 0 <= i < 2048 implies !fb_bit(fb2, i) by {
        assert(fb_bit(fb1, i) == (fb_bit(fb0, i) != toggled(x, y, s, i)));
        assert(fb_bit(fb2, i) == (fb_bit(fb1, i) != toggled(x, y, s, i)));
    }
    assert(!c1) by {
        if draw_collides(fb0, x, y, s) {
            let i = choose|i: int| 0 <= i < 2048 && toggled(x, y, s, i) && fb_bit(fb0, i);
            assert(!fb_bit(fb0, i));
            assert(false);
        }
    }
    assert(c2 == exists|i: int| 0 <= i < 2048 && toggled(x, y, s, i)) by {
        if draw_collides(fb1, x, y, s) {
            let i = choose|i: int| 0 <= i < 2048 && toggled(x, y, s, i) && fb_bit(fb1, i);
            assert(0 <= i < 2048 && toggled(x, y, s, i));
        }
        if exists|i: int| 0 <= i < 2048 && toggled(x, y, s, i) {
            let i = choose|i: int| 0 <= i < 2048 && toggled(x, y, s, i);
            assert(fb_bit(fb1, i) == (fb_bit(fb0, i) != toggled(x, y, s, i)));
            assert(fb_bit(fb1, i));
            assert(0 <= i < 2048 && toggled(x, y, s, i) && fb_bit(fb1, i));
        }
    }
}

} // verus!
