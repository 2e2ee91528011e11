//! The 64 x 32 monochrome framebuffer and its XOR sprite drawing.
use vstd::prelude::*;

verus! {

/// Width of the screen in pixels.
pub const WIDTH: usize = 64;

/// Height of the screen in pixels.
pub const HEIGHT: usize = 32;

/// Number of pixels on the screen.
pub const PIXELS: usize = 2048;

/// Position in the row-major pixel sequence of the pixel at column `px`, row `py`.
pub open spec fn pixel_index(px: int, py: int) -> int {
    py * 64 + px
}

/// Whether bit `c` (0 = leftmost) of a sprite row is set.
pub open spec fn sprite_bit(b: u8, c: int) -> bool {
    (b >> ((7 - c) as u8)) & 1u8 == 1u8
}

/// Screen column that column `c` of a sprite placed at column `x` lands on.
pub open spec fn target_x(x: int, c: int) -> int {
    if x + c >= 64 { x + c - 64 } else { x + c }
}

/// Screen row that row `r` of a sprite placed at row `y` lands on.
pub open spec fn target_y(y: int, r: int) -> int {
    if y + r >= 32 { y + r - 32 } else { y + r }
}

/// Sprite column that covers screen column `px` for a sprite placed at column `x`.
pub open spec fn col_of(x: int, px: int) -> int {
    if px >= x { px - x } else { px + 64 - x }
}

/// Sprite row that covers screen row `py` for a sprite placed at row `y`.
pub open spec fn row_of(y: int, py: int) -> int {
    if py >= y { py - y } else { py + 32 - y }
}

/// Whether the sprite placed at `(x, y)` flips the pixel `(px, py)`.
pub open spec fn hit(x: int, y: int, sprite: Seq<u8>, px: int, py: int) -> bool {
    let c = col_of(x, px);
    let r = row_of(y, py);
    c < 8 && r < sprite.len() && sprite_bit(sprite[r], c)
}

/// The framebuffer after XOR-drawing `sprite` at `(x, y)` (already reduced to the screen).
pub open spec fn drawn(prev: Seq<bool>, x: int, y: int, sprite: Seq<u8>) -> Seq<bool> {
    Seq::new(
        prev.len(),
        |p: int| prev[p] != hit(x, y, sprite, p % 64, p / 64),
    )
}

/// Bit `c` of sprite row `r` is set and lands on a pixel that is already on.
pub open spec fn collides_at(prev: Seq<bool>, x: int, y: int, sprite: Seq<u8>, r: int, c: int) -> bool {
    sprite_bit(sprite[r], c) && prev[pixel_index(target_x(x, c), target_y(y, r))]
}

/// Whether drawing `sprite` at `(x, y)` turns off at least one pixel that was on.
pub open spec fn collision(prev: Seq<bool>, x: int, y: int, sprite: Seq<u8>) -> bool {
    exists|r: int, c: int|
        0 <= r < sprite.len() && 0 <= c < 8 && #[trigger] collides_at(prev, x, y, sprite, r, c)
}

/// A framebuffer with every pixel off.
pub open spec fn blank() -> Seq<bool> {
    Seq::new(2048, |p: int| false)
}

proof fn lemma_index_split(p: int)
    requires
        0 <= p < 2048,
    ensures
        0 <= p % 64 < 64,
        0 <= p / 64 < 32,
        p == pixel_index(p % 64, p / 64),
{
}

proof fn lemma_index_unique(px: int, py: int)
    requires
        0 <= px < 64,
        0 <= py < 32,
    ensures
        0 <= pixel_index(px, py) < 2048,
        pixel_index(px, py) % 64 == px,
        pixel_index(px, py) / 64 == py,
{
}

/// Sets every pixel of `pixels` to off.
pub fn clear_pixels(pixels: &mut Vec<bool>)
    requires
        old(pixels)@.len() == 2048,
    ensures
        final(pixels)@ == blank(),
{
    let mut p: usize = 0;
    while p < PIXELS
        invariant
            p <= 2048,
            pixels@.len() == 2048,
            forall|q: int| 0 <= q < p ==> !pixels@[q],
        decreases 2048 - p,
    {
        pixels.set(p, false);
        p = p + 1;
    }
    assert(pixels@ =~= blank());
}

/// `hit`, restricted to sprite bits before row `r0`, column `c0` in row-major order.
pub open spec fn hit_before(x: int, y: int, sprite: Seq<u8>, px: int, py: int, r0: int, c0: int) -> bool {
    hit(x, y, sprite, px, py) && (row_of(y, py) < r0 || (row_of(y, py) == r0 && col_of(x, px) < c0))
}

/// `collision`, restricted to sprite bits before row `r0`, column `c0` in row-major order.
pub open spec fn collision_before(prev: Seq<bool>, x: int, y: int, sprite: Seq<u8>, r0: int, c0: int) -> bool {
    exists|r: int, c: int|
        0 <= r < sprite.len() && 0 <= c < 8 && (r < r0 || (r == r0 && c < c0))
            && #[trigger] collides_at(prev, x, y, sprite, r, c)
}

/// XOR-draws `sprite` at column `x`, row `y` (each taken modulo the screen size,
/// and each sprite row and column wrapping around the edges), and returns
/// whether any pixel that was on got turned off.
pub fn draw_sprite(pixels: &mut Vec<bool>, x: u8, y: u8, sprite: &[u8]) -> (collided: bool)
    requires
        old(pixels)@.len() == 2048,
        sprite@.len() <= 15,
    ensures
        final(pixels)@ == drawn(old(pixels)@, x as int % 64, y as int % 32, sprite@),
        collided == collision(old(pixels)@, x as int % 64, y as int % 32, sprite@),
{
    let ghost start = pixels@;
    let x0: usize = (x % 64) as usize;
    let y0: usize = (y % 32) as usize;
    let ghost gx = x0 as int;
    let ghost gy = y0 as int;
    let mut collided = false;
    let mut r: usize = 0;
    while r < sprite.len()
        invariant
            0 <= gx < 64,
            0 <= gy < 32,
            gx == x0,
            gy == y0,
            sprite@.len() <= 15,
            r <= sprite@.len(),
            pixels@.len() == 2048,
            forall|p: int|
                0 <= p < 2048 ==> #[trigger] pixels@[p] == (start[p] != hit_before(
                    gx,
                    gy,
                    sprite@,
                    p % 64,
                    p / 64,
                    r as int,
                    0,
                )),
            collided == collision_before(start, gx, gy, sprite@, r as int, 0),
        decreases sprite@.len() - r,
    {
        let row = sprite[r];
        let ty: usize = if y0 + r >= 32 { y0 + r - 32 } else { y0 + r };
        let mut c: usize = 0;
        while c < 8
            invariant
                0 <= gx < 64,
                0 <= gy < 32,
                gx == x0,
                gy == y0,
                sprite@.len() <= 15,
                r < sprite@.len(),
                row == sprite@[r as int],
                ty == target_y(gy, r as int),
                c <= 8,
                pixels@.len() == 2048,
                forall|p: int|
                    0 <= p < 2048 ==> #[trigger] pixels@[p] == (start[p] != hit_before(
                        gx,
                        gy,
                        sprite@,
                        p % 64,
                        p / 64,
                        r as int,
                        c as int,
                    )),
                collided == collision_before(start, gx, gy, sprite@, r as int, c as int),
            decreases 8 - c,
        {
            let tx: usize = if x0 + c >= 64 { x0 + c - 64 } else { x0 + c };
            let idx: usize = ty * 64 + tx;
            proof {
                lemma_index_unique(tx as int, ty as int);
            }
            let ghost before = pixels@;
            let bit = (row >> ((7 - c) as u8)) & 1u8 == 1u8;
            if bit {
                let was_on = pixels[idx];
                pixels.set(idx, !was_on);
                if was_on {
                    collided = true;
                }
            }
            proof {
                assert forall|p: int| 0 <= p < 2048 implies #[trigger] pixels@[p] == (start[p]
                    != hit_before(gx, gy, sprite@, p % 64, p / 64, r as int, c + 1)) by {
                    lemma_index_split(p);
                    if p == idx {
                        assert(col_of(gx, p % 64) == c);
                        assert(row_of(gy, p / 64) == r);
                    } else {
                        assert(pixels@[p] == before[p]);
                        if row_of(gy, p / 64) == r && col_of(gx, p % 64) == c {
                            assert(p % 64 == tx);
                            assert(p / 64 == ty);
                        }
                    }
                }
                if collision_before(start, gx, gy, sprite@, r as int, c + 1) {
                    let (r1, c1) = choose|r1: int, c1: int|
                        0 <= r1 < sprite@.len() && 0 <= c1 < 8 && (r1 < r || (r1 == r && c1 < c + 1))
                            && #[trigger] collides_at(start, gx, gy, sprite@, r1, c1);
                    if r1 != r || c1 != c {
                        assert(collision_before(start, gx, gy, sprite@, r as int, c as int));
                    } else {
                        assert(start[idx as int]);
                    }
                }
                if bit && start[idx as int] {
                    assert(collides_at(start, gx, gy, sprite@, r as int, c as int));
                }
            }
            c = c + 1;
        }
        proof {
            assert forall|p: int| 0 <= p < 2048 implies #[trigger] pixels@[p] == (start[p]
                != hit_before(gx, gy, sprite@, p % 64, p / 64, r + 1, 0)) by {
                lemma_index_split(p);
            }
        }
        r = r + 1;
    }
    proof {
        assert forall|p: int| 0 <= p < 2048 implies #[trigger] pixels@[p] == drawn(start, gx, gy, sprite@)[p] by {
            lemma_index_split(p);
        }
        assert(pixels@ =~= drawn(start, gx, gy, sprite@));
        if collision(start, gx, gy, sprite@) {
            let (r1, c1) = choose|r1: int, c1: int|
                0 <= r1 < sprite@.len() && 0 <= c1 < 8 && #[trigger] collides_at(start, gx, gy, sprite@, r1, c1);
            assert(collision_before(start, gx, gy, sprite@, r as int, 0));
        }
        if collided {
            let (r1, c1) = choose|r1: int, c1: int|
                0 <= r1 < sprite@.len() && 0 <= c1 < 8 && (r1 < r || (r1 == r && c1 < 0))
                    && #[trigger] collides_at(start, gx, gy, sprite@, r1, c1);
            assert(collides_at(start, gx, gy, sprite@, r1, c1));
        }
    }
    collided
}

} // verus!
