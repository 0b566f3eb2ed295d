//! Where the bits of a sprite land, and what drawing the same sprite twice
//! does.

use vstd::prelude::*;
use crate::display::{
    blit, blit_row, cell, erases, flipped, lemma_blit_len, lemma_cell_offset, lemma_next_row,
    lemma_no_rows, lights, offset, row_erases, row_lights, sprite_bit, Pixel, DISPLAY_HEIGHT,
    DISPLAY_SIZE, DISPLAY_WIDTH, SPRITE_WIDTH,
};

verus! {

/// Whether row `j` of `sprite`, drawn at `(x, y)`, has a set bit over the
/// cell `c`.
pub open spec fn toggles(x: int, y: int, sprite: Seq<u8>, j: int, c: int) -> bool {
    &&& c / (DISPLAY_WIDTH as int) == (y + j) % (DISPLAY_HEIGHT as int)
    &&& offset(c, x) < SPRITE_WIDTH
    &&& sprite_bit(sprite[j], offset(c, x))
}

/// Whether row `j` of `sprite` changes the cell `c`, and finds it in state
/// `was`, when the sprite is drawn at `(x, y)` over `px`.
pub open spec fn changes(
    px: Seq<Pixel>,
    x: int,
    y: int,
    sprite: Seq<u8>,
    j: int,
    c: int,
    was: Pixel,
) -> bool {
    &&& 0 <= j < sprite.len()
    &&& 0 <= c < DISPLAY_SIZE
    &&& toggles(x, y, sprite, j, c)
    &&& blit(px, x, y, sprite.take(j))[c] == was
}

/// Drawing row `j` of a sprite toggles the cells under its set bits and
/// leaves the others.
pub proof fn lemma_row_by_cell(px: Seq<Pixel>, x: int, y: int, sprite: Seq<u8>, j: int, c: int)
    requires
        px.len() == DISPLAY_SIZE,
        0 <= j < sprite.len(),
        0 <= c < DISPLAY_SIZE,
    ensures
        blit(px, x, y, sprite.take(j + 1))[c] == flipped(
            blit(px, x, y, sprite.take(j))[c],
            toggles(x, y, sprite, j, c),
        ),
{
    lemma_next_row(px, x, y, sprite, j);
    lemma_blit_len(px, x, y, sprite.take(j));
}

/// Bit `i` of a sprite row drawn at column `x` of row `row` lands on the
/// cell in column `(x + i) mod 64` of row `row mod 32`, and toggles it if it
/// is set.
pub proof fn lemma_row_target(px: Seq<Pixel>, x: int, row: int, byte: u8, i: int)
    requires
        px.len() == DISPLAY_SIZE,
        0 <= i < SPRITE_WIDTH,
    ensures
        0 <= cell(x + i, row) < DISPLAY_SIZE,
        blit_row(px, x, row, byte)[cell(x + i, row)] == flipped(
            px[cell(x + i, row)],
            sprite_bit(byte, i),
        ),
{
    lemma_cell_offset(x, row, i, 0);
}

/// A sprite row leaves every cell alone that none of its eight bits lands
/// on.
pub proof fn lemma_row_elsewhere(px: Seq<Pixel>, x: int, row: int, byte: u8, c: int)
    requires
        px.len() == DISPLAY_SIZE,
        0 <= c < DISPLAY_SIZE,
        forall|i: int| 0 <= i < SPRITE_WIDTH ==> c != #[trigger] cell(x + i, row),
    ensures
        blit_row(px, x, row, byte)[c] == px[c],
{
    if c / (DISPLAY_WIDTH as int) == row % (DISPLAY_HEIGHT as int) && offset(c, x) < SPRITE_WIDTH {
        lemma_cell_offset(x, row, 0, c);
        assert(cell(x + offset(c, x), row) == c);
    }
}

/// A row turns a cell off, or on, exactly if one of its set bits lies over a
/// cell in that state.
pub proof fn lemma_row_effect_by_cell(px: Seq<Pixel>, x: int, row: int, byte: u8, was: Pixel)
    requires
        px.len() == DISPLAY_SIZE,
    ensures
        (if was == Pixel::On {
            row_erases(px, x, row, byte)
        } else {
            row_lights(px, x, row, byte)
        }) <==> exists|c: int|
            0 <= c < DISPLAY_SIZE && c / (DISPLAY_WIDTH as int) == row % (DISPLAY_HEIGHT as int)
                && offset(c, x) < SPRITE_WIDTH && sprite_bit(byte, offset(c, x)) && #[trigger] px[c]
                == was,
{
    let by_bit = if was == Pixel::On {
        row_erases(px, x, row, byte)
    } else {
        row_lights(px, x, row, byte)
    };
    let by_cell = exists|c: int|
        0 <= c < DISPLAY_SIZE && c / (DISPLAY_WIDTH as int) == row % (DISPLAY_HEIGHT as int)
            && offset(c, x) < SPRITE_WIDTH && sprite_bit(byte, offset(c, x)) && #[trigger] px[c]
            == was;
    if by_bit {
        let i = choose|i: int|
            0 <= i < SPRITE_WIDTH && sprite_bit(byte, i) && #[trigger] px[cell(x + i, row)] == was;
        let c = cell(x + i, row);
        lemma_cell_offset(x, row, i, c);
        assert(0 <= c < DISPLAY_SIZE && c / (DISPLAY_WIDTH as int) == row % (DISPLAY_HEIGHT as int)
            && offset(c, x) < SPRITE_WIDTH && sprite_bit(byte, offset(c, x)) && px[c] == was);
    }
    if by_cell {
        let c = choose|c: int|
            0 <= c < DISPLAY_SIZE && c / (DISPLAY_WIDTH as int) == row % (DISPLAY_HEIGHT as int)
                && offset(c, x) < SPRITE_WIDTH && sprite_bit(byte, offset(c, x)) && #[trigger] px[c]
                == was;
        let i = offset(c, x);
        lemma_cell_offset(x, row, i, c);
        assert(0 <= i < SPRITE_WIDTH && sprite_bit(byte, i) && px[cell(x + i, row)] == was);
    }
}

/// A sprite turns a cell off, or on, at some moment of its drawing exactly
/// if one of its rows changes a cell that it finds in that state.
pub proof fn lemma_effect_by_cell(px: Seq<Pixel>, x: int, y: int, sprite: Seq<u8>, was: Pixel)
    requires
        px.len() == DISPLAY_SIZE,
    ensures
        (if was == Pixel::On {
            erases(px, x, y, sprite)
        } else {
            lights(px, x, y, sprite)
        }) <==> exists|j: int, c: int| #[trigger] changes(px, x, y, sprite, j, c, was),
    decreases sprite.len(),
{
    reveal(blit);
    reveal(erases);
    reveal(lights);
    let whole = if was == Pixel::On {
        erases(px, x, y, sprite)
    } else {
        lights(px, x, y, sprite)
    };
    if sprite.len() > 0 {
        let above = sprite.drop_last();
        let n = sprite.len() - 1;
        let rest = if was == Pixel::On {
            erases(px, x, y, above)
        } else {
            lights(px, x, y, above)
        };
        let last = if was == Pixel::On {
            row_erases(blit(px, x, y, above), x, y + n, sprite.last())
        } else {
            row_lights(blit(px, x, y, above), x, y + n, sprite.last())
        };
        assert(whole == (rest || last));
        assert(above =~= sprite.take(n));
        lemma_effect_by_cell(px, x, y, above, was);
        lemma_blit_len(px, x, y, above);
        lemma_row_effect_by_cell(blit(px, x, y, above), x, y + n, sprite.last(), was);
        assert forall|j: int, c: int| 0 <= j < n implies changes(px, x, y, above, j, c, was)
            == changes(px, x, y, sprite, j, c, was) by {
            assert(above.take(j) =~= sprite.take(j));
        }
        if rest {
            let (j, c) = choose|j: int, c: int| #[trigger] changes(px, x, y, above, j, c, was);
            assert(changes(px, x, y, sprite, j, c, was));
        }
        if last {
            let before = blit(px, x, y, above);
            let c = choose|c: int|
                0 <= c < DISPLAY_SIZE && c / (DISPLAY_WIDTH as int) == (y + n) % (
                DISPLAY_HEIGHT as int) && offset(c, x) < SPRITE_WIDTH && sprite_bit(
                    sprite.last(),
                    offset(c, x),
                ) && #[trigger] before[c] == was;
            assert(changes(px, x, y, sprite, n, c, was));
        }
        if exists|j: int, c: int| #[trigger] changes(px, x, y, sprite, j, c, was) {
            let (j, c) = choose|j: int, c: int| #[trigger] changes(px, x, y, sprite, j, c, was);
            if j < n {
                assert(changes(px, x, y, above, j, c, was));
            } else {
                let before = blit(px, x, y, above);
                assert(before[c] == was);
                assert(last);
            }
        }
    }
}

/// Whether one of the first `k` rows of `sprite`, drawn at `(x, y)`, has a
/// set bit over the cell `c`.
pub open spec fn covers(x: int, y: int, sprite: Seq<u8>, k: int, c: int) -> bool {
    exists|j: int| 0 <= j < k && #[trigger] toggles(x, y, sprite, j, c)
}

/// Two rows of a sprite no taller than the display do not land on the same
/// cell.
pub proof fn lemma_rows_apart(x: int, y: int, sprite: Seq<u8>, j: int, k: int, c: int)
    requires
        sprite.len() <= DISPLAY_HEIGHT,
        0 <= j < sprite.len(),
        0 <= k < sprite.len(),
        toggles(x, y, sprite, j, c),
        toggles(x, y, sprite, k, c),
    ensures
        j == k,
{
    let h = DISPLAY_HEIGHT as int;
    vstd::arithmetic::div_mod::lemma_fundamental_div_mod(y + j, h);
    vstd::arithmetic::div_mod::lemma_fundamental_div_mod(y + k, h);
}

/// After the first `k` rows of a sprite no taller than the display, a cell
/// is toggled if one of those rows has a set bit over it, and is as it was
/// if none has.
pub proof fn lemma_rows_by_cell(px: Seq<Pixel>, x: int, y: int, sprite: Seq<u8>, k: int, c: int)
    requires
        px.len() == DISPLAY_SIZE,
        sprite.len() <= DISPLAY_HEIGHT,
        0 <= k <= sprite.len(),
        0 <= c < DISPLAY_SIZE,
    ensures
        blit(px, x, y, sprite.take(k))[c] == flipped(px[c], covers(x, y, sprite, k, c)),
    decreases k,
{
    if k == 0 {
        lemma_no_rows(px, x, y, sprite.take(0));
    } else {
        lemma_rows_by_cell(px, x, y, sprite, k - 1, c);
        lemma_row_by_cell(px, x, y, sprite, k - 1, c);
        if covers(x, y, sprite, k - 1, c) {
            let j = choose|j: int| 0 <= j < k - 1 && #[trigger] toggles(x, y, sprite, j, c);
            assert(toggles(x, y, sprite, j, c));
            if toggles(x, y, sprite, k - 1, c) {
                lemma_rows_apart(x, y, sprite, j, k - 1, c);
            }
        }
        if toggles(x, y, sprite, k - 1, c) {
            assert(covers(x, y, sprite, k, c));
        }
        if covers(x, y, sprite, k, c) && !toggles(x, y, sprite, k - 1, c) {
            let j = choose|j: int| 0 <= j < k && #[trigger] toggles(x, y, sprite, j, c);
            assert(0 <= j < k - 1 && toggles(x, y, sprite, j, c));
        }
    }
}

/// Drawing a sprite no taller than the display toggles the cells under its
/// set bits and leaves the others; it reports a collision exactly if one of
/// its set bits lies over a cell that was lit before the drawing.
pub proof fn lemma_draw_by_cell(px: Seq<Pixel>, x: int, y: int, sprite: Seq<u8>)
    requires
        px.len() == DISPLAY_SIZE,
        sprite.len() <= DISPLAY_HEIGHT,
    ensures
        forall|c: int|
            0 <= c < DISPLAY_SIZE ==> #[trigger] blit(px, x, y, sprite)[c] == flipped(
                px[c],
                covers(x, y, sprite, sprite.len() as int, c),
            ),
        erases(px, x, y, sprite) <==> exists|c: int|
            0 <= c < DISPLAY_SIZE && px[c] == Pixel::On && #[trigger] covers(
                x,
                y,
                sprite,
                sprite.len() as int,
                c,
            ),
{
    let n = sprite.len() as int;
    assert(sprite.take(n) =~= sprite);
    assert forall|c: int| 0 <= c < DISPLAY_SIZE implies #[trigger] blit(px, x, y, sprite)[c]
        == flipped(px[c], covers(x, y, sprite, n, c)) by {
        lemma_rows_by_cell(px, x, y, sprite, n, c);
    }
    lemma_effect_by_cell(px, x, y, sprite, Pixel::On);
    if erases(px, x, y, sprite) {
        let (j, c) = choose|j: int, c: int| #[trigger] changes(px, x, y, sprite, j, c, Pixel::On);
        lemma_rows_by_cell(px, x, y, sprite, j, c);
        if covers(x, y, sprite, j, c) {
            let i = choose|i: int| 0 <= i < j && #[trigger] toggles(x, y, sprite, i, c);
            lemma_rows_apart(x, y, sprite, i, j, c);
        }
        assert(toggles(x, y, sprite, j, c));
        assert(px[c] == Pixel::On && covers(x, y, sprite, n, c));
    }
    if exists|c: int|
        0 <= c < DISPLAY_SIZE && px[c] == Pixel::On && #[trigger] covers(x, y, sprite, n, c) {
        let c = choose|c: int|
            0 <= c < DISPLAY_SIZE && px[c] == Pixel::On && #[trigger] covers(x, y, sprite, n, c);
        let j = choose|j: int| 0 <= j < n && #[trigger] toggles(x, y, sprite, j, c);
        lemma_rows_by_cell(px, x, y, sprite, j, c);
        if covers(x, y, sprite, j, c) {
            let i = choose|i: int| 0 <= i < j && #[trigger] toggles(x, y, sprite, i, c);
            lemma_rows_apart(x, y, sprite, i, j, c);
        }
        assert(changes(px, x, y, sprite, j, c, Pixel::On));
    }
}

/// Drawn a second time at the same place, a sprite finds each cell, before
/// each of its rows, in the state the first drawing found it in if the
/// first drawing left the cell as it was, and in the other state if it did
/// not.
pub proof fn lemma_second_pass(px: Seq<Pixel>, x: int, y: int, sprite: Seq<u8>, j: int, c: int)
    requires
        px.len() == DISPLAY_SIZE,
        0 <= j <= sprite.len(),
        0 <= c < DISPLAY_SIZE,
    ensures
        blit(blit(px, x, y, sprite), x, y, sprite.take(j))[c] == flipped(
            blit(px, x, y, sprite.take(j))[c],
            blit(px, x, y, sprite)[c] != px[c],
        ),
    decreases j,
{
    let once = blit(px, x, y, sprite);
    lemma_blit_len(px, x, y, sprite);
    if j == 0 {
        lemma_no_rows(px, x, y, sprite.take(0));
        lemma_no_rows(once, x, y, sprite.take(0));
    } else {
        lemma_second_pass(px, x, y, sprite, j - 1, c);
        lemma_row_by_cell(px, x, y, sprite, j - 1, c);
        lemma_row_by_cell(once, x, y, sprite, j - 1, c);
    }
}

/// Drawing a sprite twice at the same place restores the framebuffer.
pub proof fn lemma_draw_twice_restores(px: Seq<Pixel>, x: int, y: int, sprite: Seq<u8>)
    requires
        px.len() == DISPLAY_SIZE,
    ensures
        blit(blit(px, x, y, sprite), x, y, sprite) == px,
{
    let once = blit(px, x, y, sprite);
    let twice = blit(once, x, y, sprite);
    lemma_blit_len(px, x, y, sprite);
    lemma_blit_len(once, x, y, sprite);
    assert(sprite.take(sprite.len() as int) =~= sprite);
    assert forall|c: int| 0 <= c < DISPLAY_SIZE implies twice[c] == px[c] by {
        lemma_second_pass(px, x, y, sprite, sprite.len() as int, c);
    }
    assert(twice =~= px);
}

/// A cell that is on before row `lo` and off before row `hi` is turned off
/// by a row in between.
pub proof fn lemma_turned_off_between(
    px: Seq<Pixel>,
    x: int,
    y: int,
    sprite: Seq<u8>,
    c: int,
    lo: int,
    hi: int,
) -> (m: int)
    requires
        px.len() == DISPLAY_SIZE,
        0 <= c < DISPLAY_SIZE,
        0 <= lo <= hi <= sprite.len(),
        blit(px, x, y, sprite.take(lo))[c] == Pixel::On,
        blit(px, x, y, sprite.take(hi))[c] == Pixel::Off,
    ensures
        lo <= m < hi,
        changes(px, x, y, sprite, m, c, Pixel::On),
    decreases hi - lo,
{
    lemma_row_by_cell(px, x, y, sprite, hi - 1, c);
    if blit(px, x, y, sprite.take(hi - 1))[c] == Pixel::On {
        hi - 1
    } else {
        lemma_turned_off_between(px, x, y, sprite, c, lo, hi - 1)
    }
}

/// If drawing a sprite turns any cell on, drawing it again at the same place
/// turns a cell off: the second drawing reports a collision.
pub proof fn lemma_draw_twice_collides(px: Seq<Pixel>, x: int, y: int, sprite: Seq<u8>)
    requires
        px.len() == DISPLAY_SIZE,
        lights(px, x, y, sprite),
    ensures
        erases(blit(px, x, y, sprite), x, y, sprite),
{
    let once = blit(px, x, y, sprite);
    let n = sprite.len() as int;
    lemma_blit_len(px, x, y, sprite);
    assert(sprite.take(n) =~= sprite);
    lemma_effect_by_cell(px, x, y, sprite, Pixel::Off);
    let (j, c) = choose|j: int, c: int| #[trigger] changes(px, x, y, sprite, j, c, Pixel::Off);
    lemma_row_by_cell(px, x, y, sprite, j, c);
    // The row at which the second drawing turns the cell `c` off.
    let m = if once[c] != px[c] {
        j
    } else if px[c] == Pixel::Off {
        lemma_turned_off_between(px, x, y, sprite, c, j + 1, n)
    } else {
        lemma_no_rows(px, x, y, sprite.take(0));
        lemma_turned_off_between(px, x, y, sprite, c, 0, j)
    };
    lemma_second_pass(px, x, y, sprite, m, c);
    assert(changes(once, x, y, sprite, m, c, Pixel::On));
    lemma_effect_by_cell(once, x, y, sprite, Pixel::On);
}

} // verus!
