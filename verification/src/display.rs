//! The framebuffer, and how sprites are drawn into it.

use vstd::prelude::*;

verus! {

/// Rows of the display.
pub const DISPLAY_HEIGHT: usize = 32;

/// Columns of the display.
pub const DISPLAY_WIDTH: usize = 64;

/// Cells of the display.
pub const DISPLAY_SIZE: usize = DISPLAY_HEIGHT * DISPLAY_WIDTH;

/// Number of columns a sprite row covers: one per bit of its byte.
pub const SPRITE_WIDTH: usize = 8;

/// The state of one cell of the display.
#[derive(Copy, Clone, Debug, PartialEq, Eq, Structural)]
pub enum Pixel {
    On,
    Off,
}

/// The colour of a lit pixel: red, green, blue, alpha.
pub const PIXEL_COLOR_ON: (u8, u8, u8, u8) = (0xFF, 0xFF, 0xFF, 0xFF);

/// The colour of a dark pixel: red, green, blue, alpha.
pub const PIXEL_COLOR_OFF: (u8, u8, u8, u8) = (0x00, 0x00, 0x00, 0xFF);

impl From<Pixel> for (u8, u8, u8, u8) {
    fn from(pixel: Pixel) -> (color: Self) {
        match pixel {
            Pixel::On => PIXEL_COLOR_ON,
            Pixel::Off => PIXEL_COLOR_OFF,
        }
    }
}

impl vstd::std_specs::convert::FromSpecImpl<Pixel> for (u8, u8, u8, u8) {
    open spec fn obeys_from_spec() -> bool {
        true
    }

    open spec fn from_spec(pixel: Pixel) -> Self {
        match pixel {
            Pixel::On => PIXEL_COLOR_ON,
            Pixel::Off => PIXEL_COLOR_OFF,
        }
    }
}

/// The framebuffer, row-major: cell `(column, row)` is entry
/// `row * DISPLAY_WIDTH + column` of `pixels`.
pub struct Display {
    pub pixels: [Pixel; DISPLAY_SIZE],
}

impl View for Display {
    type V = Seq<Pixel>;

    open spec fn view(&self) -> Seq<Pixel> {
        self.pixels@
    }
}

/// A framebuffer with every cell off.
pub open spec fn blank() -> Seq<Pixel> {
    Seq::new(DISPLAY_SIZE as nat, |c: int| Pixel::Off)
}

/// `p` after a sprite bit is drawn over it: a set bit toggles the cell, a
/// clear bit leaves it.
pub open spec fn flipped(p: Pixel, bit: bool) -> Pixel {
    if bit {
        if p == Pixel::On {
            Pixel::Off
        } else {
            Pixel::On
        }
    } else {
        p
    }
}

/// Bit `i` of a sprite row, counted from the left: bit 0 is the most
/// significant one.
pub open spec fn sprite_bit(byte: u8, i: int) -> bool {
    (byte >> ((7 - i) as u8)) & 1u8 == 1u8
}

/// Index of the cell in column `column` and row `row`, both taken modulo the
/// size of the display: what runs off one edge comes back at the other.
pub open spec fn cell(column: int, row: int) -> int {
    (row % (DISPLAY_HEIGHT as int)) * (DISPLAY_WIDTH as int) + column % (DISPLAY_WIDTH as int)
}

/// How many columns to the right of `x` the cell `c` lies, going round the
/// edge: a number in `0..DISPLAY_WIDTH`.
pub open spec fn offset(c: int, x: int) -> int {
    (c % (DISPLAY_WIDTH as int) - x) % (DISPLAY_WIDTH as int)
}

/// The framebuffer after the leftmost `count` bits of `byte` are drawn into
/// row `row`, starting at column `x`.
pub open spec fn blit_bits(px: Seq<Pixel>, x: int, row: int, byte: u8, count: int) -> Seq<Pixel> {
    Seq::new(
        px.len(),
        |c: int|
            if c / (DISPLAY_WIDTH as int) == row % (DISPLAY_HEIGHT as int) && offset(c, x) < count {
                flipped(px[c], sprite_bit(byte, offset(c, x)))
            } else {
                px[c]
            },
    )
}

/// The framebuffer after one sprite row is drawn.
pub open spec fn blit_row(px: Seq<Pixel>, x: int, row: int, byte: u8) -> Seq<Pixel> {
    blit_bits(px, x, row, byte, SPRITE_WIDTH as int)
}

/// Whether one of the leftmost `count` bits of `byte`, drawn into row `row`
/// from column `x` on, turns a lit cell off.
pub open spec fn bits_erase(px: Seq<Pixel>, x: int, row: int, byte: u8, count: int) -> bool {
    exists|i: int|
        0 <= i < count && sprite_bit(byte, i) && #[trigger] px[cell(x + i, row)] == Pixel::On
}

/// Whether drawing one sprite row turns a lit cell off.
pub open spec fn row_erases(px: Seq<Pixel>, x: int, row: int, byte: u8) -> bool {
    bits_erase(px, x, row, byte, SPRITE_WIDTH as int)
}

/// Whether one of the leftmost `count` bits of `byte`, drawn into row `row`
/// from column `x` on, turns a dark cell on.
pub open spec fn bits_light(px: Seq<Pixel>, x: int, row: int, byte: u8, count: int) -> bool {
    exists|i: int|
        0 <= i < count && sprite_bit(byte, i) && #[trigger] px[cell(x + i, row)] == Pixel::Off
}

/// Whether drawing one sprite row turns a dark cell on.
pub open spec fn row_lights(px: Seq<Pixel>, x: int, row: int, byte: u8) -> bool {
    bits_light(px, x, row, byte, SPRITE_WIDTH as int)
}

/// The framebuffer after `sprite` is drawn with its top left corner at
/// `(x, y)`: row `j` of the sprite goes to display row `y + j`, rows in order.
#[verifier::opaque]
pub open spec fn blit(px: Seq<Pixel>, x: int, y: int, sprite: Seq<u8>) -> Seq<Pixel>
    decreases sprite.len(),
{
    if sprite.len() == 0 {
        px
    } else {
        blit_row(blit(px, x, y, sprite.drop_last()), x, y + sprite.len() - 1, sprite.last())
    }
}

/// Whether drawing `sprite` at `(x, y)` turns a lit cell off at any moment
/// of the drawing.
#[verifier::opaque]
pub open spec fn erases(px: Seq<Pixel>, x: int, y: int, sprite: Seq<u8>) -> bool
    decreases sprite.len(),
{
    sprite.len() > 0 && (erases(px, x, y, sprite.drop_last()) || row_erases(
        blit(px, x, y, sprite.drop_last()),
        x,
        y + sprite.len() - 1,
        sprite.last(),
    ))
}

/// Whether drawing `sprite` at `(x, y)` turns a dark cell on at any moment of
/// the drawing.
#[verifier::opaque]
pub open spec fn lights(px: Seq<Pixel>, x: int, y: int, sprite: Seq<u8>) -> bool
    decreases sprite.len(),
{
    sprite.len() > 0 && (lights(px, x, y, sprite.drop_last()) || row_lights(
        blit(px, x, y, sprite.drop_last()),
        x,
        y + sprite.len() - 1,
        sprite.last(),
    ))
}

impl Default for Display {
    fn default() -> (display: Display)
        ensures
            display@ == blank(),
    {
        let display = Display { pixels: [Pixel::Off; DISPLAY_SIZE] };
        assert(display@ =~= blank());
        display
    }
}

impl Display {
    /// Turns every cell off.
    pub fn clear(&mut self)
        ensures
            final(self)@ == blank(),
    {
        self.pixels = [Pixel::Off; DISPLAY_SIZE];
    }

    /// Draws `sprite`, one byte a row, with its top left corner at column
    /// `x` and row `y`: each set bit toggles the cell it lands on, and what
    /// runs off an edge of the display comes back at the opposite edge.
    /// Returns whether any cell went from on to off.
    pub fn draw(&mut self, x: usize, y: usize, sprite: &[u8]) -> (collision: bool)
        ensures
            final(self)@ == blit(old(self)@, x as int, y as int, sprite@),
            collision == erases(old(self)@, x as int, y as int, sprite@),
    {
        let mut collision = false;
        let left = x % DISPLAY_WIDTH;
        let top = y % DISPLAY_HEIGHT;
        proof {
            lemma_no_rows(self@, x as int, y as int, sprite@.take(0));
        }
        let mut j: usize = 0;
        while j < sprite.len()
            invariant
                j <= sprite@.len(),
                left == x % DISPLAY_WIDTH,
                top == y % DISPLAY_HEIGHT,
                self@ == blit(old(self)@, x as int, y as int, sprite@.take(j as int)),
                collision == erases(old(self)@, x as int, y as int, sprite@.take(j as int)),
            decreases sprite@.len() - j,
        {
            let row = (top + j % DISPLAY_HEIGHT) % DISPLAY_HEIGHT;
            proof {
                lemma_next_row(old(self)@, x as int, y as int, sprite@, j as int);
                lemma_same_cells(self@, x as int, left as int, y + j, row as int, sprite@[j as int]);
            }
            if self.draw_row(left, row, sprite[j]) {
                collision = true;
            }
            j += 1;
        }
        assert(sprite@.take(sprite@.len() as int) == sprite@);
        collision
    }

    /// Draws one sprite row into display row `row`, from column `x` on.
    /// Returns whether that turned a lit cell off.
    fn draw_row(&mut self, x: usize, row: usize, byte: u8) -> (collision: bool)
        requires
            x < DISPLAY_WIDTH,
            row < DISPLAY_HEIGHT,
        ensures
            final(self)@ == blit_row(old(self)@, x as int, row as int, byte),
            collision == row_erases(old(self)@, x as int, row as int, byte),
    {
        let mut collision = false;
        let mut i: usize = 0;
        while i < SPRITE_WIDTH
            invariant
                i <= SPRITE_WIDTH,
                x < DISPLAY_WIDTH,
                row < DISPLAY_HEIGHT,
                self@ == blit_bits(old(self)@, x as int, row as int, byte, i as int),
                collision == bits_erase(old(self)@, x as int, row as int, byte, i as int),
            decreases SPRITE_WIDTH - i,
        {
            let column = (x + i) % DISPLAY_WIDTH;
            let shift: u8 = (7 - i) as u8;
            let pixel = (byte >> shift) & 1;
            assert((byte >> shift) & 1 < 2) by (bit_vector);
            let index = row * DISPLAY_WIDTH + column;
            proof {
                assert(index == cell(x + i, row as int));
                lemma_next_bit(old(self)@, x as int, row as int, byte, i as int);
            }
            let old_pixel = self.pixels[index];
            let new_pixel = xor_pixel(old_pixel, pixel);
            self.pixels[index] = new_pixel;
            if old_pixel == Pixel::On && new_pixel == Pixel::Off {
                collision = true;
            }
            i += 1;
        }
        collision
    }
}

/// Draws one sprite bit, `0` or `1`, over a cell.
pub fn xor_pixel(old: Pixel, new: u8) -> (pixel: Pixel)
    requires
        new < 2,
    ensures
        pixel == flipped(old, new == 1),
{
    match old {
        Pixel::On => if new == 1 {
            Pixel::Off
        } else {
            Pixel::On
        },
        Pixel::Off => if new == 1 {
            Pixel::On
        } else {
            Pixel::Off
        },
    }
}

/// Drawing one more bit of a row changes the one cell under it, which no
/// earlier bit of the row has touched.
pub proof fn lemma_next_bit(px: Seq<Pixel>, x: int, row: int, byte: u8, i: int)
    requires
        px.len() == DISPLAY_SIZE,
        0 <= i < SPRITE_WIDTH,
    ensures
        0 <= cell(x + i, row) < DISPLAY_SIZE,
        blit_bits(px, x, row, byte, i)[cell(x + i, row)] == px[cell(x + i, row)],
        blit_bits(px, x, row, byte, i + 1) == blit_bits(px, x, row, byte, i).update(
            cell(x + i, row),
            flipped(px[cell(x + i, row)], sprite_bit(byte, i)),
        ),
        bits_erase(px, x, row, byte, i + 1) == (bits_erase(px, x, row, byte, i) || (sprite_bit(
            byte,
            i,
        ) && px[cell(x + i, row)] == Pixel::On)),
{
    let here = cell(x + i, row);
    lemma_cell_offset(x, row, i, here);
    assert forall|c: int|
        0 <= c < DISPLAY_SIZE && c != here && c / (DISPLAY_WIDTH as int) == row % (
        DISPLAY_HEIGHT as int) implies offset(c, x) != i by {
        lemma_cell_offset(x, row, i, c);
    }
    assert(blit_bits(px, x, row, byte, i + 1) =~= blit_bits(px, x, row, byte, i).update(
        here,
        flipped(px[here], sprite_bit(byte, i)),
    ));
    if bits_erase(px, x, row, byte, i + 1) {
        let k = choose|k: int|
            0 <= k < i + 1 && sprite_bit(byte, k) && #[trigger] px[cell(x + k, row)] == Pixel::On;
        if k < i {
            assert(bits_erase(px, x, row, byte, i));
        }
    }
    if bits_erase(px, x, row, byte, i) {
        let k = choose|k: int|
            0 <= k < i && sprite_bit(byte, k) && #[trigger] px[cell(x + k, row)] == Pixel::On;
        assert(0 <= k < i + 1 && sprite_bit(byte, k) && px[cell(x + k, row)] == Pixel::On);
    }
    if sprite_bit(byte, i) && px[here] == Pixel::On {
        assert(0 <= i < i + 1 && sprite_bit(byte, i) && px[cell(x + i, row)] == Pixel::On);
    }
}

/// The cell `i` columns to the right of `x` in a row lies in that row, at
/// offset `i` from `x`; and a cell of a row is the one that lies at its
/// offset from `x`.
pub proof fn lemma_cell_offset(x: int, row: int, i: int, c: int)
    ensures
        0 <= i < DISPLAY_WIDTH ==> 0 <= cell(x + i, row) < DISPLAY_SIZE && cell(x + i, row) / (
        DISPLAY_WIDTH as int) == row % (DISPLAY_HEIGHT as int) && offset(cell(x + i, row), x) == i,
        0 <= c < DISPLAY_SIZE && c / (DISPLAY_WIDTH as int) == row % (DISPLAY_HEIGHT as int)
            ==> 0 <= offset(c, x) < DISPLAY_WIDTH && cell(x + offset(c, x), row) == c,
{
    let w = DISPLAY_WIDTH as int;
    let r = row % (DISPLAY_HEIGHT as int);
    if 0 <= i < DISPLAY_WIDTH {
        let k = (x + i) % w;
        assert(cell(x + i, row) == r * w + k);
        assert((r * w + k) % w == k) by {
            vstd::arithmetic::div_mod::lemma_fundamental_div_mod_converse(r * w + k, w, r, k);
        }
        assert((k - x) % w == i) by {
            vstd::arithmetic::div_mod::lemma_fundamental_div_mod(x + i, w);
            let q = (x + i) / w;
            vstd::arithmetic::div_mod::lemma_fundamental_div_mod_converse(k - x, w, -q, i);
        }
    }
    if 0 <= c < DISPLAY_SIZE && c / w == r {
        let o = (c % w - x) % w;
        vstd::arithmetic::div_mod::lemma_fundamental_div_mod(c % w - x, w);
        let q = (c % w - x) / w;
        assert((x + o) % w == c % w) by {
            vstd::arithmetic::div_mod::lemma_fundamental_div_mod_converse(x + o, w, -q, c % w);
        }
        vstd::arithmetic::div_mod::lemma_fundamental_div_mod(c, w);
    }
}

/// A column and a row beyond the display name the cells that their
/// remainders name.
pub proof fn lemma_wraps(x: int, y: int, i: int, c: int)
    ensures
        offset(c, x % (DISPLAY_WIDTH as int)) == offset(c, x),
        cell(x % (DISPLAY_WIDTH as int) + i, y % (DISPLAY_HEIGHT as int)) == cell(x + i, y),
{
    let w = DISPLAY_WIDTH as int;
    let h = DISPLAY_HEIGHT as int;
    vstd::arithmetic::div_mod::lemma_sub_mod_noop_right(c % w, x, w);
    vstd::arithmetic::div_mod::lemma_add_mod_noop_right(i, x, w);
    vstd::arithmetic::div_mod::lemma_mod_twice(y, h);
    assert(x % w + i == i + x % w);
    assert(x + i == i + x);
}

/// A row drawn at a column and row beyond the display goes where the same
/// row drawn at their remainders goes.
pub proof fn lemma_same_cells(px: Seq<Pixel>, x: int, left: int, y: int, top: int, byte: u8)
    requires
        left == x % (DISPLAY_WIDTH as int),
        top == y % (DISPLAY_HEIGHT as int),
    ensures
        blit_row(px, left, top, byte) == blit_row(px, x, y, byte),
        row_erases(px, left, top, byte) == row_erases(px, x, y, byte),
        row_lights(px, left, top, byte) == row_lights(px, x, y, byte),
{
    assert forall|c: int| #[trigger] offset(c, left) == offset(c, x) by {
        lemma_wraps(x, y, 0, c);
    }
    assert(top % (DISPLAY_HEIGHT as int) == y % (DISPLAY_HEIGHT as int)) by {
        vstd::arithmetic::div_mod::lemma_mod_twice(y, DISPLAY_HEIGHT as int);
    }
    assert(blit_row(px, left, top, byte) =~= blit_row(px, x, y, byte));
    assert forall|i: int| #[trigger] cell(left + i, top) == cell(x + i, y) by {
        lemma_wraps(x, y, i, 0);
    }
    if row_erases(px, left, top, byte) {
        let i = choose|i: int|
            0 <= i < SPRITE_WIDTH && sprite_bit(byte, i) && #[trigger] px[cell(left + i, top)]
                == Pixel::On;
        assert(cell(left + i, top) == cell(x + i, y));
        assert(0 <= i < SPRITE_WIDTH && sprite_bit(byte, i) && px[cell(x + i, y)] == Pixel::On);
    }
    if row_erases(px, x, y, byte) {
        let i = choose|i: int|
            0 <= i < SPRITE_WIDTH && sprite_bit(byte, i) && #[trigger] px[cell(x + i, y)]
                == Pixel::On;
        assert(cell(left + i, top) == cell(x + i, y));
        assert(0 <= i < SPRITE_WIDTH && sprite_bit(byte, i) && px[cell(left + i, top)]
            == Pixel::On);
    }
    if row_lights(px, left, top, byte) {
        let i = choose|i: int|
            0 <= i < SPRITE_WIDTH && sprite_bit(byte, i) && #[trigger] px[cell(left + i, top)]
                == Pixel::Off;
        assert(cell(left + i, top) == cell(x + i, y));
        assert(0 <= i < SPRITE_WIDTH && sprite_bit(byte, i) && px[cell(x + i, y)] == Pixel::Off);
    }
    if row_lights(px, x, y, byte) {
        let i = choose|i: int|
            0 <= i < SPRITE_WIDTH && sprite_bit(byte, i) && #[trigger] px[cell(x + i, y)]
                == Pixel::Off;
        assert(cell(left + i, top) == cell(x + i, y));
        assert(0 <= i < SPRITE_WIDTH && sprite_bit(byte, i) && px[cell(left + i, top)]
            == Pixel::Off);
    }
}

/// Drawing a sprite of no rows changes nothing.
pub proof fn lemma_no_rows(px: Seq<Pixel>, x: int, y: int, sprite: Seq<u8>)
    requires
        sprite.len() == 0,
    ensures
        blit(px, x, y, sprite) == px,
        !erases(px, x, y, sprite),
        !lights(px, x, y, sprite),
{
    reveal(blit);
    reveal(erases);
    reveal(lights);
}

/// Drawing keeps the size of the framebuffer.
pub proof fn lemma_blit_len(px: Seq<Pixel>, x: int, y: int, sprite: Seq<u8>)
    ensures
        blit(px, x, y, sprite).len() == px.len(),
    decreases sprite.len(),
{
    reveal(blit);
    if sprite.len() > 0 {
        lemma_blit_len(px, x, y, sprite.drop_last());
    }
}

/// Drawing one more row of a sprite draws that row over what the rows above
/// it have left.
pub proof fn lemma_next_row(px: Seq<Pixel>, x: int, y: int, sprite: Seq<u8>, j: int)
    requires
        0 <= j < sprite.len(),
    ensures
        blit(px, x, y, sprite.take(j + 1)) == blit_row(
            blit(px, x, y, sprite.take(j)),
            x,
            y + j,
            sprite[j],
        ),
        erases(px, x, y, sprite.take(j + 1)) == (erases(px, x, y, sprite.take(j)) || row_erases(
            blit(px, x, y, sprite.take(j)),
            x,
            y + j,
            sprite[j],
        )),
        lights(px, x, y, sprite.take(j + 1)) == (lights(px, x, y, sprite.take(j)) || row_lights(
            blit(px, x, y, sprite.take(j)),
            x,
            y + j,
            sprite[j],
        )),
{
    reveal(blit);
    reveal(erases);
    reveal(lights);
    let rows = sprite.take(j + 1);
    assert(rows.drop_last() =~= sprite.take(j));
    assert(rows.last() == sprite[j]);
    assert(rows.len() == j + 1);
}

} // verus!
