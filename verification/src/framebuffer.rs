//! The 64 by 32 monochrome framebuffer with XOR sprite blending.

use vstd::prelude::*;
use vstd::arithmetic::div_mod::lemma_mod_equivalence;
use vstd::arithmetic::div_mod::lemma_small_mod;

verus! {

/// Width of the pixel grid in columns.
pub const SCREEN_WIDTH: usize = 64;

/// Height of the pixel grid in rows.
pub const SCREEN_HEIGHT: usize = 32;

/// Number of pixels in the grid.
pub const SCREEN_PIXELS: usize = 2048;

/// Width in bits of one sprite row.
pub const SPRITE_WIDTH: usize = 8;

/// Position of pixel `(x, y)` in the row-major grid.
pub open spec fn pixel_index(x: int, y: int) -> int {
    y * (SCREEN_WIDTH as int) + x
}

/// Bit `c` (leftmost first) of sprite row `r`.
pub open spec fn sprite_bit(sprite: Seq<u8>, r: int, c: int) -> bool {
    sprite[r] / pow2_bit(c) % 2 == 1
}

/// The place value of sprite column `c`: 128 for the leftmost bit down to 1
/// for the rightmost.
pub open spec fn pow2_bit(c: int) -> u8 {
    if c == 0 {
        128
    } else if c == 1 {
        64
    } else if c == 2 {
        32
    } else if c == 3 {
        16
    } else if c == 4 {
        8
    } else if c == 5 {
        4
    } else if c == 6 {
        2
    } else {
        1
    }
}

/// Whether drawing `sprite` with its top-left corner at `(x, y)` toggles the
/// pixel `(px, py)`: some set sprite bit lands there after wraparound.
pub open spec fn toggles(sprite: Seq<u8>, x: int, y: int, px: int, py: int) -> bool {
    exists|r: int, c: int|
        {
            &&& 0 <= r < sprite.len()
            &&& 0 <= c < SPRITE_WIDTH
            &&& #[trigger] sprite_bit(sprite, r, c)
            &&& px == (x + c) % (SCREEN_WIDTH as int)
            &&& py == (y + r) % (SCREEN_HEIGHT as int)
        }
}

/// The grids `before` and `after` are related by one draw of `sprite` at
/// `(x, y)`: every pixel a set sprite bit lands on is toggled, every other
/// pixel is unchanged.
pub open spec fn draw_rel(before: Seq<bool>, after: Seq<bool>, sprite: Seq<u8>, x: int, y: int) -> bool {
    &&& before.len() == SCREEN_PIXELS
    &&& after.len() == SCREEN_PIXELS
    &&& forall|px: int, py: int|
        0 <= px < SCREEN_WIDTH && 0 <= py < SCREEN_HEIGHT ==> after[pixel_index(px, py)] == (
        before[pixel_index(px, py)] != toggles(sprite, x, y, px, py))
}

/// Whether drawing `sprite` at `(x, y)` over `before` unsets some pixel that
/// was set: the collision signal.
pub open spec fn draw_collision(before: Seq<bool>, sprite: Seq<u8>, x: int, y: int) -> bool {
    exists|r: int, c: int|
        {
            &&& 0 <= r < sprite.len()
            &&& 0 <= c < SPRITE_WIDTH
            &&& #[trigger] sprite_bit(sprite, r, c)
            &&& before[pixel_index((x + c) % (SCREEN_WIDTH as int), (y + r) % (SCREEN_HEIGHT as int))]
        }
}

/// Wraparound hits distinct cells for distinct offsets below the modulus:
/// the reason a sprite of at most 32 rows and 8 columns toggles each pixel
/// at most once.
pub proof fn lemma_wrap_injective(base: int, a: int, b: int, m: int)
    requires
        0 < m,
        0 <= a < m,
        0 <= b < m,
        (base + a) % m == (base + b) % m,
    ensures
        a == b,
{
    lemma_mod_equivalence(base + a, base + b, m);
    if a > b {
        lemma_small_mod((a - b) as nat, m as nat);
    }
    if b > a {
        lemma_mod_equivalence(base + b, base + a, m);
        lemma_small_mod((b - a) as nat, m as nat);
    }
}

/// Like [`toggles`], but counting only the first `k` sprite bits in
/// row-major order: the bits the drawing loop has already blended.
pub open spec fn toggles_first(sprite: Seq<u8>, x: int, y: int, px: int, py: int, k: int) -> bool {
    exists|r: int, c: int|
        {
            &&& 0 <= r < sprite.len()
            &&& 0 <= c < SPRITE_WIDTH
            &&& 8 * r + c < k
            &&& #[trigger] sprite_bit(sprite, r, c)
            &&& px == (x + c) % (SCREEN_WIDTH as int)
            &&& py == (y + r) % (SCREEN_HEIGHT as int)
        }
}

/// Like [`draw_collision`], but counting only the first `k` sprite bits.
pub open spec fn collision_first(before: Seq<bool>, sprite: Seq<u8>, x: int, y: int, k: int) -> bool {
    exists|r: int, c: int|
        {
            &&& 0 <= r < sprite.len()
            &&& 0 <= c < SPRITE_WIDTH
            &&& 8 * r + c < k
            &&& #[trigger] sprite_bit(sprite, r, c)
            &&& before[pixel_index((x + c) % (SCREEN_WIDTH as int), (y + r) % (SCREEN_HEIGHT as int))]
        }
}

/// Counting all `8 * sprite.len()` bits counts every bit.
pub proof fn lemma_first_all(before: Seq<bool>, sprite: Seq<u8>, x: int, y: int, px: int, py: int)
    ensures
        toggles_first(sprite, x, y, px, py, 8 * sprite.len() as int) == toggles(sprite, x, y, px, py),
        collision_first(before, sprite, x, y, 8 * sprite.len() as int) == draw_collision(
            before,
            sprite,
            x,
            y,
        ),
{
    if toggles(sprite, x, y, px, py) {
        let (r, c) = choose|r: int, c: int|
            {
                &&& 0 <= r < sprite.len()
                &&& 0 <= c < SPRITE_WIDTH
                &&& #[trigger] sprite_bit(sprite, r, c)
                &&& px == (x + c) % (SCREEN_WIDTH as int)
                &&& py == (y + r) % (SCREEN_HEIGHT as int)
            };
        assert(8 * r + c < 8 * sprite.len() as int);
        assert(toggles_first(sprite, x, y, px, py, 8 * sprite.len() as int));
    }
    if draw_collision(before, sprite, x, y) {
        let (r, c) = choose|r: int, c: int|
            {
                &&& 0 <= r < sprite.len()
                &&& 0 <= c < SPRITE_WIDTH
                &&& #[trigger] sprite_bit(sprite, r, c)
                &&& before[pixel_index(
                    (x + c) % (SCREEN_WIDTH as int),
                    (y + r) % (SCREEN_HEIGHT as int),
                )]
            };
        assert(8 * r + c < 8 * sprite.len() as int);
        assert(collision_first(before, sprite, x, y, 8 * sprite.len() as int));
    }
}

/// The monochrome pixel grid, stored row-major.
pub struct Framebuffer {
    /// One boolean per pixel: row `y` occupies positions `64 * y` through
    /// `64 * y + 63`.
    pub grid: Vec<bool>,
}

impl Framebuffer {
    /// Structural invariant: the grid holds exactly 64 by 32 pixels.
    pub open spec fn wf(&self) -> bool {
        self.grid@.len() == SCREEN_PIXELS
    }

    /// The pixel at `(x, y)`, as the grid holds it.
    pub open spec fn pixel(&self, x: int, y: int) -> bool {
        self.grid@[pixel_index(x, y)]
    }

    /// A fresh grid: every pixel off.
    pub fn new() -> (fb: Framebuffer)
        ensures
            fb.wf(),
            forall|p: int| 0 <= p < SCREEN_PIXELS ==> !fb.grid@[p],
    {
        let mut grid: Vec<bool> = Vec::new();
        let mut p: usize = 0;
        while p < SCREEN_PIXELS
            invariant
                p <= SCREEN_PIXELS,
                grid@.len() == p,
                forall|j: int| 0 <= j < p ==> !grid@[j],
            decreases SCREEN_PIXELS - p,
        {
            grid.push(false);
            p += 1;
        }
        Framebuffer { grid }
    }

    /// Turn every pixel off.
    pub fn clear(&mut self)
        requires
            old(self).wf(),
        ensures
            final(self).wf(),
            forall|p: int| 0 <= p < SCREEN_PIXELS ==> !final(self).grid@[p],
    {
        let mut p: usize = 0;
        while p < SCREEN_PIXELS
            invariant
                self.wf(),
                p <= SCREEN_PIXELS,
                forall|j: int| 0 <= j < p ==> !self.grid@[j],
            decreases SCREEN_PIXELS - p,
        {
            self.grid.set(p, false);
            p += 1;
        }
    }

    /// XOR-blend `sprite` into the grid with its top-left corner at
    /// `(x, y)`, wrapping coordinates.  Returns true exactly when some pixel
    /// that was set gets unset: the collision signal.
    pub fn draw_sprite(&mut self, x: u8, y: u8, sprite: &Vec<u8>) -> (collision: bool)
        requires
            old(self).wf(),
            sprite@.len() <= SCREEN_HEIGHT,
        ensures
            final(self).wf(),
            draw_rel(old(self).grid@, final(self).grid@, sprite@, x as int, y as int),
            collision == draw_collision(old(self).grid@, sprite@, x as int, y as int),
    {
        let ghost xi = x as int;
        let ghost yi = y as int;
        let ghost g0 = old(self).grid@;
        let mut collision = false;
        let mut row: usize = 0;
        while row < sprite.len()
            invariant
                self.wf(),
                g0.len() == SCREEN_PIXELS,
                sprite@.len() <= SCREEN_HEIGHT,
                row <= sprite@.len(),
                xi == x as int,
                yi == y as int,
                forall|px: int, py: int|
                    0 <= px < SCREEN_WIDTH && 0 <= py < SCREEN_HEIGHT ==> self.grid@[pixel_index(
                        px,
                        py,
                    )] == (g0[pixel_index(px, py)] != toggles_first(
                        sprite@,
                        xi,
                        yi,
                        px,
                        py,
                        8 * row,
                    )),
                collision == collision_first(g0, sprite@, xi, yi, 8 * row),
            decreases sprite@.len() - row,
        {
            let byte = sprite[row];
            let py = (y as usize + row) % SCREEN_HEIGHT;
            let mut col: usize = 0;
            while col < SPRITE_WIDTH
                invariant
                    self.wf(),
                    g0.len() == SCREEN_PIXELS,
                    sprite@.len() <= SCREEN_HEIGHT,
                    row < sprite@.len(),
                    col <= SPRITE_WIDTH,
                    xi == x as int,
                    yi == y as int,
                    byte == sprite@[row as int],
                    py == (yi + row) % (SCREEN_HEIGHT as int),
                    forall|qx: int, qy: int|
                        0 <= qx < SCREEN_WIDTH && 0 <= qy < SCREEN_HEIGHT ==> self.grid@[
                        pixel_index(qx, qy)] == (g0[pixel_index(qx, qy)] != toggles_first(
                            sprite@,
                            xi,
                            yi,
                            qx,
                            qy,
                            8 * row + col,
                        )),
                    collision == collision_first(g0, sprite@, xi, yi, 8 * row + col),
                decreases SPRITE_WIDTH - col,
            {
                let ghost k = 8 * row + col;
                let ghost gpre = self.grid@;
                let place = place_value(col);
                let px = (x as usize + col) % SCREEN_WIDTH;
                assert(px == (xi + col) % (SCREEN_WIDTH as int));
                if (byte / place) % 2 == 1 {
                    assert(sprite_bit(sprite@, row as int, col as int));
                    let idx = py * SCREEN_WIDTH + px;
                    assert(idx == pixel_index(px as int, py as int) && idx < SCREEN_PIXELS);
                    // No earlier sprite bit lands on this pixel: wraparound is
                    // injective for offsets below the modulus, so only the
                    // current bit maps here.
                    assert(!toggles_first(sprite@, xi, yi, px as int, py as int, k)) by {
                        if toggles_first(sprite@, xi, yi, px as int, py as int, k) {
                            let (r, c) = choose|r: int, c: int|
                                {
                                    &&& 0 <= r < sprite@.len()
                                    &&& 0 <= c < SPRITE_WIDTH
                                    &&& 8 * r + c < k
                                    &&& #[trigger] sprite_bit(sprite@, r, c)
                                    &&& px as int == (xi + c) % (SCREEN_WIDTH as int)
                                    &&& py as int == (yi + r) % (SCREEN_HEIGHT as int)
                                };
                            lemma_wrap_injective(xi, c, col as int, SCREEN_WIDTH as int);
                            lemma_wrap_injective(yi, r, row as int, SCREEN_HEIGHT as int);
                        }
                    };
                    let prev = self.grid[idx];
                    assert(prev == g0[idx as int]);
                    if prev {
                        collision = true;
                    }
                    self.grid.set(idx, !prev);
                    proof {
                        assert forall|qx: int, qy: int|
                            0 <= qx < SCREEN_WIDTH && 0 <= qy < SCREEN_HEIGHT implies self.grid@[
                        pixel_index(qx, qy)] == (g0[pixel_index(qx, qy)] != toggles_first(
                            sprite@,
                            xi,
                            yi,
                            qx,
                            qy,
                            k + 1,
                        )) by {
                            if qx == px as int && qy == py as int {
                                assert(toggles_first(sprite@, xi, yi, qx, qy, k + 1));
                            } else {
                                assert(pixel_index(qx, qy) != idx);
                                assert(toggles_first(sprite@, xi, yi, qx, qy, k + 1)
                                    == toggles_first(sprite@, xi, yi, qx, qy, k)) by {
                                    if toggles_first(sprite@, xi, yi, qx, qy, k + 1) {
                                        let (r, c) = choose|r: int, c: int|
                                            {
                                                &&& 0 <= r < sprite@.len()
                                                &&& 0 <= c < SPRITE_WIDTH
                                                &&& 8 * r + c < k + 1
                                                &&& #[trigger] sprite_bit(sprite@, r, c)
                                                &&& qx == (xi + c) % (SCREEN_WIDTH as int)
                                                &&& qy == (yi + r) % (SCREEN_HEIGHT as int)
                                            };
                                        assert(8 * r + c < k);
                                        assert(toggles_first(sprite@, xi, yi, qx, qy, k));
                                    }
                                }
                            }
                        };
                        if prev {
                            assert(collision_first(g0, sprite@, xi, yi, k + 1));
                        }
                        assert(collision == collision_first(g0, sprite@, xi, yi, k + 1)) by {
                            if collision_first(g0, sprite@, xi, yi, k + 1) && !collision_first(
                                g0,
                                sprite@,
                                xi,
                                yi,
                                k,
                            ) {
                                let (r, c) = choose|r: int, c: int|
                                    {
                                        &&& 0 <= r < sprite@.len()
                                        &&& 0 <= c < SPRITE_WIDTH
                                        &&& 8 * r + c < k + 1
                                        &&& #[trigger] sprite_bit(sprite@, r, c)
                                        &&& g0[pixel_index(
                                            (xi + c) % (SCREEN_WIDTH as int),
                                            (yi + r) % (SCREEN_HEIGHT as int),
                                        )]
                                    };
                                assert(r == row && c == col);
                            }
                        };
                    }
                } else {
                    proof {
                        assert(!sprite_bit(sprite@, row as int, col as int));
                        assert forall|qx: int, qy: int|
                            0 <= qx < SCREEN_WIDTH && 0 <= qy < SCREEN_HEIGHT implies toggles_first(
                            sprite@,
                            xi,
                            yi,
                            qx,
                            qy,
                            k + 1,
                        ) == toggles_first(sprite@, xi, yi, qx, qy, k) by {
                            if toggles_first(sprite@, xi, yi, qx, qy, k + 1) {
                                let (r, c) = choose|r: int, c: int|
                                    {
                                        &&& 0 <= r < sprite@.len()
                                        &&& 0 <= c < SPRITE_WIDTH
                                        &&& 8 * r + c < k + 1
                                        &&& #[trigger] sprite_bit(sprite@, r, c)
                                        &&& qx == (xi + c) % (SCREEN_WIDTH as int)
                                        &&& qy == (yi + r) % (SCREEN_HEIGHT as int)
                                    };
                                assert(8 * r + c < k);
                                assert(toggles_first(sprite@, xi, yi, qx, qy, k));
                            }
                        };
                        assert(collision == collision_first(g0, sprite@, xi, yi, k + 1)) by {
                            if collision_first(g0, sprite@, xi, yi, k + 1) && !collision_first(
                                g0,
                                sprite@,
                                xi,
                                yi,
                                k,
                            ) {
                                let (r, c) = choose|r: int, c: int|
                                    {
                                        &&& 0 <= r < sprite@.len()
                                        &&& 0 <= c < SPRITE_WIDTH
                                        &&& 8 * r + c < k + 1
                                        &&& #[trigger] sprite_bit(sprite@, r, c)
                                        &&& g0[pixel_index(
                                            (xi + c) % (SCREEN_WIDTH as int),
                                            (yi + r) % (SCREEN_HEIGHT as int),
                                        )]
                                    };
                                assert(r == row && c == col);
                            }
                        };
                    }
                }
                col += 1;
            }
            row += 1;
        }
        proof {
            lemma_first_all(g0, sprite@, xi, yi, 0, 0);
            assert forall|px: int, py: int| 0 <= px < SCREEN_WIDTH && 0 <= py < SCREEN_HEIGHT implies self.grid@[
            pixel_index(px, py)] == (g0[pixel_index(px, py)] != toggles(
                sprite@,
                xi,
                yi,
                px,
                py,
            )) by {
                lemma_first_all(g0, sprite@, xi, yi, px, py);
            };
        }
        collision
    }

    /// The pixel at `(x, y)`, for the external renderer.
    pub fn pixel_at(&self, x: usize, y: usize) -> (r: bool)
        requires
            self.wf(),
            x < SCREEN_WIDTH,
            y < SCREEN_HEIGHT,
        ensures
            r == self.pixel(x as int, y as int),
    {
        self.grid[y * SCREEN_WIDTH + x]
    }
}

/// The place value of sprite column `c`, as executable code.
fn place_value(c: usize) -> (r: u8)
    requires
        c < SPRITE_WIDTH,
    ensures
        r == pow2_bit(c as int),
        r > 0,
{
    if c == 0 {
        128
    } else if c == 1 {
        64
    } else if c == 2 {
        32
    } else if c == 3 {
        16
    } else if c == 4 {
        8
    } else if c == 5 {
        4
    } else if c == 6 {
        2
    } else {
        1
    }
}

/// Drawing the same sprite twice at the same coordinates restores every
/// pixel: XOR blending is self-inverse, so the second draw undoes the first.
pub proof fn lemma_draw_twice_restores(
    g0: Seq<bool>,
    g1: Seq<bool>,
    g2: Seq<bool>,
    sprite: Seq<u8>,
    x: int,
    y: int,
)
    requires
        draw_rel(g0, g1, sprite, x, y),
        draw_rel(g1, g2, sprite, x, y),
    ensures
        g2 =~= g0,
{
    assert forall|p: int| 0 <= p < SCREEN_PIXELS implies g2[p] == g0[p] by {
        let px = p % (SCREEN_WIDTH as int);
        let py = p / (SCREEN_WIDTH as int);
        vstd::arithmetic::div_mod::lemma_fundamental_div_mod(p, SCREEN_WIDTH as int);
        vstd::arithmetic::div_mod::lemma_mod_bound(p, SCREEN_WIDTH as int);
        assert(p == pixel_index(px, py));
        assert(0 <= px < SCREEN_WIDTH && 0 <= py < SCREEN_HEIGHT);
        assert(g1[pixel_index(px, py)] == (g0[pixel_index(px, py)] != toggles(
            sprite,
            x,
            y,
            px,
            py,
        )));
        assert(g2[pixel_index(px, py)] == (g1[pixel_index(px, py)] != toggles(
            sprite,
            x,
            y,
            px,
            py,
        )));
    };
}

/// Drawing a sprite with at least one set bit over pixels that are all off
/// sets some of them, so drawing it a second time reports a collision.
pub proof fn lemma_draw_twice_collides(
    g0: Seq<bool>,
    g1: Seq<bool>,
    sprite: Seq<u8>,
    x: int,
    y: int,
)
    requires
        draw_rel(g0, g1, sprite, x, y),
        forall|r: int, c: int|
            0 <= r < sprite.len() && 0 <= c < SPRITE_WIDTH && #[trigger] sprite_bit(sprite, r, c)
                ==> !g0[pixel_index(
                (x + c) % (SCREEN_WIDTH as int),
                (y + r) % (SCREEN_HEIGHT as int),
            )],
        exists|r: int, c: int|
            0 <= r < sprite.len() && 0 <= c < SPRITE_WIDTH && #[trigger] sprite_bit(sprite, r, c),
    ensures
        draw_collision(g1, sprite, x, y),
{
    let (r, c) = choose|r: int, c: int|
        0 <= r < sprite.len() && 0 <= c < SPRITE_WIDTH && #[trigger] sprite_bit(sprite, r, c);
    let px = (x + c) % (SCREEN_WIDTH as int);
    let py = (y + r) % (SCREEN_HEIGHT as int);
    assert(0 <= px < SCREEN_WIDTH && 0 <= py < SCREEN_HEIGHT);
    assert(toggles(sprite, x, y, px, py));
    assert(g1[pixel_index(px, py)]);
}

/// On a fully cleared grid every pixel query is false: clearing the screen
/// leaves nothing set, whatever coordinate is asked for afterwards.
pub proof fn lemma_cleared_pixel(fb: Framebuffer, x: int, y: int)
    requires
        fb.wf(),
        forall|p: int| 0 <= p < SCREEN_PIXELS ==> !fb.grid@[p],
        0 <= x < SCREEN_WIDTH,
        0 <= y < SCREEN_HEIGHT,
    ensures
        !fb.pixel(x, y),
{
    assert(0 <= pixel_index(x, y) < SCREEN_PIXELS);
}

} // verus!
