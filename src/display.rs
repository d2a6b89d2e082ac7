//! The 64x32 monochrome framebuffer and sprite drawing.
//!
//! Pixels are stored row-major in a flat array of 2048 cells. Both axes wrap:
//! column `x` means `x mod 64` and row `y` means `y mod 32`.

use vstd::prelude::*;
use vstd::arithmetic::div_mod::{
    lemma_div_is_ordered, lemma_div_pos_is_pos, lemma_fundamental_div_mod,
    lemma_fundamental_div_mod_converse, lemma_mod_add_multiples_vanish, lemma_mod_equivalence, lemma_small_mod,
};

verus! {

/// Columns of the screen.
pub const WIDTH: usize = 64;

/// Rows of the screen.
pub const HEIGHT: usize = 32;

/// Cells of the framebuffer.
pub const PIXELS: usize = 2048;

/// The most rows a sprite can have: its height comes from a 4-bit field.
pub const MAX_SPRITE_ROWS: usize = 15;

/// Cell of the pixel at column `x`, row `y`, each wrapped around the screen.
pub open spec fn pixel_index(x: int, y: int) -> int {
    (y % 32) * 64 + x % 64
}

/// Bit `col` of a sprite row, counting from the most significant bit (the
/// leftmost pixel).
pub open spec fn sprite_bit(row: u8, col: int) -> bool {
    row & (0x80u8 >> (col as u8)) != 0
}

/// Sprite row that lands on cell `i` when the sprite's top-left corner is at
/// (`x`, `y`), as an offset in `0..32`.
pub open spec fn row_offset(y: u8, i: int) -> int {
    (i / 64 - y) % 32
}

/// Sprite column that lands on cell `i` when the sprite's top-left corner is at
/// (`x`, `y`), as an offset in `0..64`.
pub open spec fn col_offset(x: u8, i: int) -> int {
    (i % 64 - x) % 64
}

/// Whether drawing `sprite` at (`x`, `y`) flips cell `i`: a set bit of the
/// sprite lands on it.
pub open spec fn covers(sprite: Seq<u8>, x: u8, y: u8, i: int) -> bool {
    &&& row_offset(y, i) < sprite.len()
    &&& col_offset(x, i) < 8
    &&& sprite_bit(sprite[row_offset(y, i)], col_offset(x, i))
}

/// The framebuffer after drawing `sprite` at (`x`, `y`): every covered cell
/// is flipped (XOR), every other cell is kept.
pub open spec fn drawn(display: Seq<bool>, sprite: Seq<u8>, x: u8, y: u8) -> Seq<bool> {
    Seq::new(display.len(), |i: int| display[i] != covers(sprite, x, y, i))
}

/// Whether drawing `sprite` at (`x`, `y`) clears a pixel that was set.
pub open spec fn collides(display: Seq<bool>, sprite: Seq<u8>, x: u8, y: u8) -> bool {
    exists|i: int| 0 <= i < display.len() && display[i] && #[trigger] covers(sprite, x, y, i)
}

/// Cells covered by the rows before `r`, and by the columns before `c` of row `r`.
spec fn covered_before(sprite: Seq<u8>, x: u8, y: u8, i: int, r: int, c: int) -> bool {
    &&& covers(sprite, x, y, i)
    &&& (row_offset(y, i) < r || (row_offset(y, i) == r && col_offset(x, i) < c))
}

/// An offset taken modulo `m` from `x` is `c` exactly when the position is
/// `x + c` wrapped around.
pub(crate) proof fn lemma_wrapped_offset(a: int, x: int, c: int, m: int)
    requires
        0 <= a < m,
        0 <= c < m,
    ensures
        ((a - x) % m == c) <==> a == (x + c) % m,
{
    lemma_small_mod(a as nat, m as nat);
    lemma_small_mod(c as nat, m as nat);
    lemma_mod_equivalence(a - x, c, m);
    lemma_mod_equivalence(a, x + c, m);
    assert(a - x - c == a - (x + c));
}

/// The cell on which sprite row `r`, column `c` lands is the only cell whose
/// offsets from (`x`, `y`) are (`c`, `r`).
proof fn lemma_pixel_of_offsets(x: u8, y: u8, r: int, c: int, i: int)
    requires
        0 <= r < 32,
        0 <= c < 64,
        0 <= i < 2048,
    ensures
        0 <= pixel_index(x + c, y + r) < 2048,
        row_offset(y, pixel_index(x + c, y + r)) == r,
        col_offset(x, pixel_index(x + c, y + r)) == c,
        (row_offset(y, i) == r && col_offset(x, i) == c) <==> i == pixel_index(x + c, y + r),
{
    let p = pixel_index(x + c, y + r);
    let px = (x + c) % 64;
    let py = (y + r) % 32;
    lemma_fundamental_div_mod_converse(p, 64, py, px);
    lemma_fundamental_div_mod(i, 64);
    lemma_div_pos_is_pos(i, 64);
    lemma_div_is_strictly_smaller_bound(i);
    lemma_wrapped_offset(py, y as int, r, 32);
    lemma_wrapped_offset(px, x as int, c, 64);
    lemma_wrapped_offset(i / 64, y as int, r, 32);
    lemma_wrapped_offset(i % 64, x as int, c, 64);
    if i == p {
        assert(i / 64 == py && i % 64 == px);
    }
}

/// A cell lies in one of the 32 rows.
proof fn lemma_div_is_strictly_smaller_bound(i: int)
    requires
        0 <= i < 2048,
    ensures
        i / 64 < 32,
{
    lemma_div_is_ordered(i, 2047, 64);
}

/// Drawing the same sprite twice at the same place restores the framebuffer.
pub proof fn lemma_draw_twice_restores(display: Seq<bool>, sprite: Seq<u8>, x: u8, y: u8)
    ensures
        drawn(drawn(display, sprite, x, y), sprite, x, y) == display,
{
    assert(drawn(drawn(display, sprite, x, y), sprite, x, y) =~= display);
}

/// A draw reports a collision exactly when some pixel goes from set to clear.
pub proof fn lemma_collision_iff_pixel_cleared(
    display: Seq<bool>,
    sprite: Seq<u8>,
    x: u8,
    y: u8,
)
    ensures
        collides(display, sprite, x, y) <==> exists|i: int|
            0 <= i < display.len() && display[i] && !(#[trigger] drawn(display, sprite, x, y)[i]),
{
    if collides(display, sprite, x, y) {
        let w = choose|i: int|
            0 <= i < display.len() && display[i] && #[trigger] covers(sprite, x, y, i);
        assert(!drawn(display, sprite, x, y)[w]);
    }
    if exists|i: int|
        0 <= i < display.len() && display[i] && !(#[trigger] drawn(display, sprite, x, y)[i]) {
        let w = choose|i: int|
            0 <= i < display.len() && display[i] && !(#[trigger] drawn(display, sprite, x, y)[i]);
        assert(covers(sprite, x, y, w));
    }
}

/// Row `r`, column `c` of a sprite drawn at (`x`, `y`) flips the pixel at
/// (`x + c`, `y + r`), wrapped around the right and bottom edges onto the left
/// and top ones.
pub proof fn lemma_sprite_wraps(display: Seq<bool>, sprite: Seq<u8>, x: u8, y: u8, r: int, c: int)
    requires
        display.len() == PIXELS,
        sprite.len() <= MAX_SPRITE_ROWS,
        0 <= r < sprite.len(),
        0 <= c < 8,
    ensures
        drawn(display, sprite, x, y)[pixel_index(x + c, y + r)] == (display[pixel_index(
            x + c,
            y + r,
        )] != sprite_bit(sprite[r], c)),
{
    lemma_pixel_of_offsets(x, y, r, c, 0);
}

/// Coordinates are read modulo the screen size: a column 64 further right, or
/// a row 32 further down, is the same pixel.
pub proof fn lemma_coordinates_wrap(x: int, y: int)
    ensures
        pixel_index(x + 64, y) == pixel_index(x, y),
        pixel_index(x, y + 32) == pixel_index(x, y),
{
    lemma_mod_add_multiples_vanish(x, 64);
    lemma_mod_add_multiples_vanish(y, 32);
}

/// Reads the pixel at column `x`, row `y`, each wrapped around the screen.
pub fn pixel_at(display: &[bool; 2048], x: u8, y: u8) -> (r: bool)
    ensures
        r == display@[pixel_index(x as int, y as int)],
{
    let col = (x as usize) % WIDTH;
    let row = (y as usize) % HEIGHT;
    display[row * WIDTH + col]
}

/// Draws `sprite` with its top-left corner at (`x`, `y`) by XOR, wrapping
/// around both edges, and reports whether a set pixel was cleared.
pub fn draw_sprite(display: &mut [bool; 2048], sprite: &Vec<u8>, x: u8, y: u8) -> (collision: bool)
    requires
        sprite@.len() <= MAX_SPRITE_ROWS,
    ensures
        final(display)@ == drawn(old(display)@, sprite@, x, y),
        collision == collides(old(display)@, sprite@, x, y),
    no_unwind
{
    let ghost before = display@;
    let mut collision = false;
    let mut r: usize = 0;
    while r < sprite.len()
        invariant
            r <= sprite@.len() <= MAX_SPRITE_ROWS,
            before.len() == 2048,
            forall|i: int|
                0 <= i < 2048 ==> display@[i] == (before[i] != covered_before(
                    sprite@, x, y, i, r as int, 0,
                )),
            collision <==> exists|i: int|
                0 <= i < 2048 && before[i] && #[trigger] covered_before(
                    sprite@, x, y, i, r as int, 0,
                ),
        decreases sprite@.len() - r,
    {
        let bits = sprite[r];
        let row = (y as usize + r) % HEIGHT;
        let mut c: usize = 0;
        while c < 8
            invariant
                r < sprite@.len() <= MAX_SPRITE_ROWS,
                c <= 8,
                bits == sprite@[r as int],
                row == (y + r) % 32,
                before.len() == 2048,
                forall|i: int|
                    0 <= i < 2048 ==> display@[i] == (before[i] != covered_before(
                        sprite@, x, y, i, r as int, c as int,
                    )),
                collision <==> exists|i: int|
                    0 <= i < 2048 && before[i] && #[trigger] covered_before(
                        sprite@, x, y, i, r as int, c as int,
                    ),
            decreases 8 - c,
        {
            let p = row * WIDTH + (x as usize + c) % WIDTH;
            let bit = bits & (0x80u8 >> c as u8) != 0;
            proof {
                assert forall|i: int| 0 <= i < 2048 implies
                    #[trigger] covered_before(sprite@, x, y, i, r as int, c + 1)
                        == (covered_before(sprite@, x, y, i, r as int, c as int)
                            || (i == p && bit)) by {
                    lemma_pixel_of_offsets(x, y, r as int, c as int, i);
                }
                lemma_pixel_of_offsets(x, y, r as int, c as int, p as int);
            }
            if bit {
                if display[p] {
                    collision = true;
                }
                display[p] = !display[p];
            }
            proof {
                let next = |i: int| covered_before(sprite@, x, y, i, r as int, c + 1);
                if collision {
                    if !(bit && before[p as int]) {
                        let w = choose|i: int|
                            0 <= i < 2048 && before[i] && #[trigger] covered_before(
                                sprite@, x, y, i, r as int, c as int,
                            );
                        assert(next(w));
                    } else {
                        assert(next(p as int));
                    }
                } else {
                    assert forall|i: int| 0 <= i < 2048 && before[i] implies
                        !#[trigger] covered_before(sprite@, x, y, i, r as int, c + 1) by {
                        if i != p {
                            assert(!covered_before(sprite@, x, y, i, r as int, c as int));
                        }
                    }
                }
            }
            c += 1;
        }
        proof {
            assert forall|i: int| 0 <= i < 2048 implies
                #[trigger] covered_before(sprite@, x, y, i, r + 1, 0)
                    == covered_before(sprite@, x, y, i, r as int, 8) by {}
            if collision {
                let w = choose|i: int|
                    0 <= i < 2048 && before[i] && #[trigger] covered_before(
                        sprite@, x, y, i, r as int, 8,
                    );
                assert(covered_before(sprite@, x, y, w, r + 1, 0));
            } else {
                assert forall|i: int| 0 <= i < 2048 && before[i] implies
                    !#[trigger] covered_before(sprite@, x, y, i, r + 1, 0) by {
                    assert(!covered_before(sprite@, x, y, i, r as int, 8));
                }
            }
        }
        r += 1;
    }
    proof {
        assert forall|i: int| 0 <= i < 2048 implies
            #[trigger] covered_before(sprite@, x, y, i, r as int, 0)
                == covers(sprite@, x, y, i) by {}
        assert(display@ =~= drawn(before, sprite@, x, y));
        if collision {
            let w = choose|i: int|
                0 <= i < 2048 && before[i] && #[trigger] covered_before(
                    sprite@, x, y, i, r as int, 0,
                );
            assert(covers(sprite@, x, y, w));
        } else {
            assert forall|i: int| 0 <= i < 2048 && before[i] implies
                !#[trigger] covers(sprite@, x, y, i) by {
                assert(!covered_before(sprite@, x, y, i, r as int, 0));
            }
        }
    }
    collision
}

} // verus!
