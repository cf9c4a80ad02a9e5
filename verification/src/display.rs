//! The monochrome display buffer: a 64x32 grid of ON/OFF pixels addressed
//! with wraparound, sprite drawing with collision detection, and the
//! upscaled presentation buffer derived from it.

use vstd::arithmetic::div_mod::{lemma_fundamental_div_mod_converse, lemma_small_mod};
use vstd::prelude::*;

verus! {

/// Logical display width in pixels.
pub const WIDTH: usize = 64;

/// Logical display height in pixels.
pub const HEIGHT: usize = 32;

/// Total pixel count of the logical display.
pub const PIXEL_COUNT: usize = 2048;

/// Side length of the square block each logical pixel becomes in the
/// upscaled presentation buffer.
pub const SCALING_FACTOR: usize = 16;

/// Presentation color of an ON pixel.
pub const WHITE: u32 = 0xFFFFFF;

/// Presentation color of an OFF pixel.
pub const BLACK: u32 = 0x000000;

/// Index of the pixel at column `x`, row `y`, with wraparound: the combined
/// coordinate is reduced modulo the total pixel count, so drawing wraps
/// around the screen edges rather than clipping.
pub open spec fn pix_index(x: int, y: int) -> int {
    (y * 64 + x) % 2048
}

/// Buffer index of the pixel at column `x`, row `y`, wrapping around the
/// screen edges.
pub fn screen_coords(x: u16, y: u16) -> (r: usize)
    ensures
        r == pix_index(x as int, y as int),
        r < 2048,
{
    let v: usize = (y as usize) * 64 + (x as usize);
    proof {
        assert(v & 2047 == v % 2048 && v % 2048 < 2048) by (bit_vector);
    }
    v & 2047
}

/// Whether bit `j` (most significant first) of sprite row byte `b` is set.
pub open spec fn sprite_bit(b: u8, j: int) -> bool {
    b & (0x80u8 >> (j as u8)) != 0
}

/// Whether any sprite cell among the first `m` (in row-major order: cell
/// `(a, b)` has rank `a * 8 + b`) is a set bit whose target, drawn at
/// `(x, y)`, is pixel `k`.
pub open spec fn hits_upto(x: int, y: int, s: Seq<u8>, m: int, k: int) -> bool {
    exists|a: int, b: int|
        0 <= a < s.len() && 0 <= b < 8 && a * 8 + b < m && #[trigger] sprite_bit(s[a], b)
            && pix_index(x + b, y + a) == k
}

/// Whether drawing sprite `s` at `(x, y)` touches pixel `k`: some set bit
/// of the sprite targets it.
pub open spec fn sprite_hits(x: int, y: int, s: Seq<u8>, k: int) -> bool {
    hits_upto(x, y, s, (s.len() * 8) as int, k)
}

/// Whether any sprite cell among the first `m` is a set bit whose target
/// pixel is ON in display `d`.
pub open spec fn collides_upto(d: Seq<bool>, x: int, y: int, s: Seq<u8>, m: int) -> bool {
    exists|a: int, b: int|
        0 <= a < s.len() && 0 <= b < 8 && a * 8 + b < m && #[trigger] sprite_bit(s[a], b)
            && d[pix_index(x + b, y + a)]
}

/// Whether drawing sprite `s` at `(x, y)` over display `d` collides: some
/// set bit of the sprite targets a pixel already ON.
pub open spec fn sprite_collides(d: Seq<bool>, x: int, y: int, s: Seq<u8>) -> bool {
    collides_upto(d, x, y, s, (s.len() * 8) as int)
}

/// How one sprite draw changes the display: every pixel some set sprite
/// bit targets is toggled, every other pixel keeps its state.
pub open spec fn draw_post(d0: Seq<bool>, d1: Seq<bool>, x: int, y: int, s: Seq<u8>) -> bool {
    d1.len() == 2048 && (forall|k: int| 0 <= k < 2048 ==> d1[k] == (d0[k] != sprite_hits(x, y, s, k)))
}

/// Within one sprite draw, distinct sprite cells always target distinct
/// pixels: the start coordinates lie in the visible grid and the sprite
/// spans at most 15 rows of 8 columns, so no two cells can be 2048 apart.
pub proof fn lemma_pix_index_injective(x: int, y: int, a1: int, b1: int, a2: int, b2: int)
    requires
        0 <= x < 64,
        0 <= y < 32,
        0 <= a1 < 16,
        0 <= b1 < 8,
        0 <= a2 < 16,
        0 <= b2 < 8,
        pix_index(x + b1, y + a1) == pix_index(x + b2, y + a2),
    ensures
        a1 == a2,
        b1 == b2,
{
    let v1 = (y + a1) * 64 + (x + b1);
    let v2 = (y + a2) * 64 + (x + b2);
    assert(0 <= v1 < 4096);
    assert(0 <= v2 < 4096);
    if v1 < 2048 {
        lemma_small_mod(v1 as nat, 2048);
    } else {
        lemma_fundamental_div_mod_converse(v1, 2048, 1, v1 - 2048);
    }
    if v2 < 2048 {
        lemma_small_mod(v2 as nat, 2048);
    } else {
        lemma_fundamental_div_mod_converse(v2, 2048, 1, v2 - 2048);
    }
    assert(v1 - v2 == 2048 || v2 - v1 == 2048 || v1 == v2);
    assert(v1 - v2 == 64 * (a1 - a2) + (b1 - b2));
    assert(v1 == v2);
}

/// No sprite cell processed before cell `(i, j)` targets the pixel that
/// cell `(i, j)` itself targets.
pub proof fn lemma_cell_fresh(x: int, y: int, s: Seq<u8>, i: int, j: int)
    requires
        0 <= x < 64,
        0 <= y < 32,
        s.len() <= 15,
        0 <= i < s.len(),
        0 <= j < 8,
    ensures
        !hits_upto(x, y, s, i * 8 + j, pix_index(x + j, y + i)),
{
    let k0 = pix_index(x + j, y + i);
    if hits_upto(x, y, s, i * 8 + j, k0) {
        let (a, b) = choose|a: int, b: int|
            0 <= a < s.len() && 0 <= b < 8 && a * 8 + b < i * 8 + j && #[trigger] sprite_bit(
                s[a],
                b,
            ) && pix_index(x + b, y + a) == k0;
        lemma_pix_index_injective(x, y, a, b, i, j);
        assert(false);
    }
}

/// Processing one more sprite cell extends the touched-pixel and collision
/// predicates by exactly that cell.
pub proof fn lemma_draw_step(d: Seq<bool>, x: int, y: int, s: Seq<u8>, i: int, j: int, m: int, m1: int)
    requires
        0 <= i < s.len(),
        0 <= j < 8,
        m == i * 8 + j,
        m1 == m + 1,
    ensures
        forall|k: int|
            #[trigger] hits_upto(x, y, s, m1, k) == (hits_upto(x, y, s, m, k) || (
            sprite_bit(s[i], j) && pix_index(x + j, y + i) == k)),
        collides_upto(d, x, y, s, m1) == (collides_upto(d, x, y, s, m) || (
        sprite_bit(s[i], j) && d[pix_index(x + j, y + i)])),
{
    assert forall|k: int|
        hits_upto(x, y, s, m + 1, k) == (hits_upto(x, y, s, m, k) || (sprite_bit(s[i], j)
            && pix_index(x + j, y + i) == k)) by {
        if hits_upto(x, y, s, m + 1, k) {
            let (a, b) = choose|a: int, b: int|
                0 <= a < s.len() && 0 <= b < 8 && a * 8 + b < m + 1 && #[trigger] sprite_bit(
                    s[a],
                    b,
                ) && pix_index(x + b, y + a) == k;
            if a * 8 + b < m {
                assert(hits_upto(x, y, s, m, k));
            } else {
                assert(a == i && b == j);
            }
        }
        if hits_upto(x, y, s, m, k) {
            let (a, b) = choose|a: int, b: int|
                0 <= a < s.len() && 0 <= b < 8 && a * 8 + b < m && #[trigger] sprite_bit(s[a], b)
                    && pix_index(x + b, y + a) == k;
            assert(a * 8 + b < m + 1);
            assert(hits_upto(x, y, s, m + 1, k));
        }
        if sprite_bit(s[i], j) && pix_index(x + j, y + i) == k {
            assert(hits_upto(x, y, s, m + 1, k));
        }
    }
    if collides_upto(d, x, y, s, m + 1) {
        let (a, b) = choose|a: int, b: int|
            0 <= a < s.len() && 0 <= b < 8 && a * 8 + b < m + 1 && #[trigger] sprite_bit(s[a], b)
                && d[pix_index(x + b, y + a)];
        if a * 8 + b < m {
            assert(collides_upto(d, x, y, s, m));
        } else {
            assert(a == i && b == j);
        }
    }
    if collides_upto(d, x, y, s, m) {
        let (a, b) = choose|a: int, b: int|
            0 <= a < s.len() && 0 <= b < 8 && a * 8 + b < m && #[trigger] sprite_bit(s[a], b)
                && d[pix_index(x + b, y + a)];
        assert(a * 8 + b < m + 1);
        assert(collides_upto(d, x, y, s, m + 1));
    }
    if sprite_bit(s[i], j) && d[pix_index(x + j, y + i)] {
        assert(collides_upto(d, x, y, s, m + 1));
    }
}

/// The two-tone display buffer: a fixed grid of ON/OFF pixels that
/// persists across frames and is cleared only by the clear instruction.
pub struct Display {
    pub pixels: Vec<bool>,
}

impl Display {
    /// The buffer holds exactly one cell per pixel of the 64x32 grid.
    pub open spec fn wf(self) -> bool {
        self.pixels@.len() == 2048
    }

    /// A fresh display with every pixel OFF.
    pub fn new() -> (d: Display)
        ensures
            d.wf(),
            forall|k: int| 0 <= k < 2048 ==> !d.pixels@[k],
    {
        let mut pixels: Vec<bool> = Vec::new();
        let mut k: usize = 0;
        while k < 2048
            invariant
                k <= 2048,
                pixels@.len() == k,
                forall|t: int| 0 <= t < k ==> !pixels@[t],
            decreases 2048 - k,
        {
            pixels.push(false);
            k += 1;
        }
        Display { pixels }
    }

    /// Turns every pixel OFF (the clear-screen instruction).
    pub fn clear(&mut self)
        requires
            old(self).wf(),
        ensures
            final(self).wf(),
            forall|k: int| 0 <= k < 2048 ==> !final(self).pixels@[k],
    {
        let mut k: usize = 0;
        while k < 2048
            invariant
                k <= 2048,
                self.pixels@.len() == 2048,
                forall|t: int| 0 <= t < k ==> !self.pixels@[t],
            decreases 2048 - k,
        {
            self.pixels[k] = false;
            k += 1;
        }
    }

    /// Whether the pixel at column `x`, row `y` is ON.
    pub fn pixel(&self, x: u8, y: u8) -> (on: bool)
        requires
            self.wf(),
            x < 64,
            y < 32,
        ensures
            on == self.pixels@[pix_index(x as int, y as int)],
    {
        let k = screen_coords(x as u16, y as u16);
        self.pixels[k]
    }

    /// Draws a sprite whose rows are `sprite`, starting at column `x`, row
    /// `y`.  Every set sprite bit toggles its target pixel (wrapping around
    /// the screen edges); clear bits never modify the buffer.  Returns true
    /// exactly when a collision occurred: some set bit found its target
    /// pixel already ON (and so turned it OFF).
    pub fn draw_sprite(&mut self, x: u8, y: u8, sprite: &Vec<u8>) -> (collision: bool)
        requires
            old(self).wf(),
            x < 64,
            y < 32,
            sprite@.len() <= 15,
        ensures
            final(self).wf(),
            draw_post(old(self).pixels@, final(self).pixels@, x as int, y as int, sprite@),
            collision == sprite_collides(old(self).pixels@, x as int, y as int, sprite@),
    {
        let ghost d0 = self.pixels@;
        let n = sprite.len();
        let mut coll = false;
        let mut i: usize = 0;
        while i < n
            invariant
                self.pixels@.len() == 2048,
                x < 64,
                y < 32,
                sprite@.len() <= 15,
                n == sprite@.len(),
                i <= n,
                d0.len() == 2048,
                forall|k: int|
                    0 <= k < 2048 ==> self.pixels@[k] == (d0[k] != hits_upto(
                        x as int,
                        y as int,
                        sprite@,
                        i as int * 8,
                        k,
                    )),
                coll == collides_upto(d0, x as int, y as int, sprite@, i as int * 8),
            decreases n - i,
        {
            let row = sprite[i];
            let mut j: u8 = 0;
            while j < 8
                invariant
                    self.pixels@.len() == 2048,
                    x < 64,
                    y < 32,
                    sprite@.len() <= 15,
                    n == sprite@.len(),
                    i < n,
                    j <= 8,
                    row == sprite@[i as int],
                    d0.len() == 2048,
                    forall|k: int|
                        0 <= k < 2048 ==> self.pixels@[k] == (d0[k] != hits_upto(
                            x as int,
                            y as int,
                            sprite@,
                            i as int * 8 + j as int,
                            k,
                        )),
                    coll == collides_upto(d0, x as int, y as int, sprite@, i as int * 8 + j as int),
                decreases 8 - j,
            {
                let on = row & (0x80u8 >> j) != 0;
                proof {
                    lemma_draw_step(
                        d0,
                        x as int,
                        y as int,
                        sprite@,
                        i as int,
                        j as int,
                        i as int * 8 + j as int,
                        i as int * 8 + j as int + 1,
                    );
                }
                if on {
                    let k0 = screen_coords(x as u16 + j as u16, y as u16 + i as u16);
                    proof {
                        lemma_cell_fresh(x as int, y as int, sprite@, i as int, j as int);
                    }
                    let was_on = self.pixels[k0];
                    self.pixels[k0] = !was_on;
                    if was_on {
                        coll = true;
                    }
                }
                j += 1;
            }
            i += 1;
        }
        coll
    }

    /// Recomputes the upscaled presentation buffer from the logical buffer:
    /// each logical pixel is replicated into a SCALING_FACTOR-sided square
    /// block of 24-bit color values, WHITE for ON and BLACK for OFF.
    pub fn upscaled(&self) -> (big: Vec<u32>)
        requires
            self.wf(),
        ensures
            big@.len() == 524288,
            forall|bi: int|
                0 <= bi < 524288 ==> big@[bi] == (if self.pixels@[pix_index(
                    (bi % 1024) / 16,
                    (bi / 1024) / 16,
                )] {
                    0xFFFFFFu32
                } else {
                    0u32
                }),
    {
        let mut big: Vec<u32> = Vec::new();
        let mut i: usize = 0;
        while i < 512
            invariant
                self.wf(),
                i <= 512,
                big@.len() == i * 1024,
                forall|bi: int|
                    0 <= bi < big@.len() ==> big@[bi] == (if self.pixels@[pix_index(
                        (bi % 1024) / 16,
                        (bi / 1024) / 16,
                    )] {
                        0xFFFFFFu32
                    } else {
                        0u32
                    }),
            decreases 512 - i,
        {
            let mut j: usize = 0;
            while j < 1024
                invariant
                    self.wf(),
                    i < 512,
                    j <= 1024,
                    big@.len() == i * 1024 + j,
                    forall|bi: int|
                        0 <= bi < big@.len() ==> big@[bi] == (if self.pixels@[pix_index(
                            (bi % 1024) / 16,
                            (bi / 1024) / 16,
                        )] {
                            0xFFFFFFu32
                        } else {
                            0u32
                        }),
                decreases 1024 - j,
            {
                let row = i / 16;
                let col = j / 16;
                let k = screen_coords(col as u16, row as u16);
                let color = if self.pixels[k] {
                    WHITE
                } else {
                    BLACK
                };
                proof {
                    lemma_fundamental_div_mod_converse(
                        i as int * 1024 + j as int,
                        1024,
                        i as int,
                        j as int,
                    );
                }
                big.push(color);
                j += 1;
            }
            i += 1;
        }
        big
    }
}

/// Law: drawing the same sprite twice at the same coordinates returns
/// every pixel to its original state (each touched pixel is toggled twice,
/// untouched pixels never change), and the second draw reports a collision
/// whenever some set sprite bit targets a pixel that was OFF before the
/// first draw (the first draw turned it ON).
pub proof fn lemma_draw_twice(
    d0: Seq<bool>,
    d1: Seq<bool>,
    d2: Seq<bool>,
    x: int,
    y: int,
    s: Seq<u8>,
    c2: bool,
)
    requires
        d0.len() == 2048,
        d1.len() == 2048,
        d2.len() == 2048,
        0 <= x < 64,
        0 <= y < 32,
        s.len() <= 15,
        draw_post(d0, d1, x, y, s),
        draw_post(d1, d2, x, y, s),
        c2 == sprite_collides(d1, x, y, s),
        exists|a: int, b: int|
            0 <= a < s.len() && 0 <= b < 8 && #[trigger] sprite_bit(s[a], b) && !d0[pix_index(
                x + b,
                y + a,
            )],
    ensures
        d2 == d0,
        c2,
{
    assert forall|k: int| 0 <= k < 2048 implies d2[k] == d0[k] by {
        assert(d2[k] == (d1[k] != sprite_hits(x, y, s, k)));
    }
    assert(d2 =~= d0);
    let (a, b) = choose|a: int, b: int|
        0 <= a < s.len() && 0 <= b < 8 && #[trigger] sprite_bit(s[a], b) && !d0[pix_index(
            x + b,
            y + a,
        )];
    let k0 = pix_index(x + b, y + a);
    assert(0 <= k0 < 2048);
    assert(sprite_hits(x, y, s, k0));
    assert(d1[k0]);
    assert(collides_upto(d1, x, y, s, (s.len() * 8) as int));
}

/// Law: drawing any sprite over an all-OFF display reproduces exactly the
/// sprite's bit pattern and reports no collision.
pub proof fn lemma_draw_on_clear(d0: Seq<bool>, d1: Seq<bool>, x: int, y: int, s: Seq<u8>)
    requires
        d0.len() == 2048,
        d1.len() == 2048,
        forall|k: int| 0 <= k < 2048 ==> !d0[k],
        draw_post(d0, d1, x, y, s),
    ensures
        forall|k: int| 0 <= k < 2048 ==> d1[k] == sprite_hits(x, y, s, k),
        !sprite_collides(d0, x, y, s),
{
    if sprite_collides(d0, x, y, s) {
        let (a, b) = choose|a: int, b: int|
            0 <= a < s.len() && 0 <= b < 8 && a * 8 + b < (s.len() * 8) as int
                && #[trigger] sprite_bit(s[a], b) && d0[pix_index(x + b, y + a)];
        assert(0 <= pix_index(x + b, y + a) < 2048);
        assert(false);
    }
}

} // verus!
