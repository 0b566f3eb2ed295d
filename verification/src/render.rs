//! Index buffers for a renderer that draws each lit pixel as two triangles.

use vstd::prelude::*;
use crate::display::Pixel;

verus! {

/// Vertices a renderer makes for each lit pixel: the corners of its square,
/// top left, top right, bottom left, bottom right.
pub const VERTICES_PER_PIXEL: u32 = 4;

/// Indices a renderer makes for each lit pixel: two triangles.
pub const INDICES_PER_PIXEL: usize = 6;

/// The size of a pixel grid, in cells.
pub struct PixelGridSize {
    pub width: usize,
    pub height: usize,
}

impl PixelGridSize {
    pub open spec fn cells(&self) -> int {
        self.width * self.height
    }

    /// Number of cells in the grid.
    pub fn size(&self) -> (size: usize)
        requires
            self.cells() <= usize::MAX,
        ensures
            size == self.cells(),
    {
        self.width * self.height
    }
}

/// Number of lit pixels in `pixels`.
pub open spec fn lit(pixels: Seq<Pixel>) -> nat
    decreases pixels.len(),
{
    if pixels.len() == 0 {
        0
    } else {
        lit(pixels.drop_last()) + if pixels.last() == Pixel::On {
            1nat
        } else {
            0nat
        }
    }
}

/// Which corner of its square the `k`-th index of a lit pixel names. The two
/// triangles are top left, bottom left, top right and bottom left, bottom
/// right, top right.
pub open spec fn corner(k: int) -> int {
    if k == 0 {
        0
    } else if k == 1 || k == 3 {
        2
    } else if k == 4 {
        3
    } else {
        1
    }
}

/// The index buffer for `count` lit pixels: six indices for each, into the
/// four vertices that belong to it.
pub open spec fn triangles(count: nat) -> Seq<u32> {
    Seq::new(
        count * INDICES_PER_PIXEL as nat,
        |k: int|
            (VERTICES_PER_PIXEL as int * (k / INDICES_PER_PIXEL as int) + corner(
                k % INDICES_PER_PIXEL as int,
            )) as u32,
    )
}

/// A prefix holds no more lit pixels than the whole.
pub proof fn lemma_lit_prefix(pixels: Seq<Pixel>, n: int)
    requires
        0 <= n <= pixels.len(),
    ensures
        lit(pixels.take(n)) <= lit(pixels),
    decreases pixels.len(),
{
    if n == pixels.len() {
        assert(pixels.take(n) =~= pixels);
    } else {
        lemma_lit_prefix(pixels.drop_last(), n);
        assert(pixels.drop_last().take(n) =~= pixels.take(n));
    }
}

/// One more pixel adds one to the count if it is lit, nothing if it is not.
pub proof fn lemma_lit_next(pixels: Seq<Pixel>, n: int)
    requires
        0 <= n < pixels.len(),
    ensures
        lit(pixels.take(n + 1)) == lit(pixels.take(n)) + if pixels[n] == Pixel::On {
            1nat
        } else {
            0nat
        },
{
    assert(pixels.take(n + 1).drop_last() =~= pixels.take(n));
}

/// The index buffer that draws the lit pixels of a grid as two triangles
/// each. The vertices of the `k`-th lit pixel, counted row by row, are
/// numbered `4k` to `4k + 3`.
pub fn create_pixel_indices(pixels: &[Pixel], pixel_grid_size: &PixelGridSize) -> (indices: Vec<
    u32,
>)
    requires
        pixels@.len() == pixel_grid_size.cells(),
        VERTICES_PER_PIXEL * lit(pixels@) <= u32::MAX + 1,
    ensures
        indices@ == triangles(lit(pixels@)),
{
    let mut indices: Vec<u32> = Vec::new();
    let mut count: u32 = 0;
    let mut n: usize = 0;
    while n < pixels.len()
        invariant
            n <= pixels@.len(),
            VERTICES_PER_PIXEL * lit(pixels@) <= u32::MAX + 1,
            count == lit(pixels@.take(n as int)),
            indices@ == triangles(count as nat),
        decreases pixels@.len() - n,
    {
        proof {
            lemma_lit_next(pixels@, n as int);
            lemma_lit_prefix(pixels@, n + 1);
        }
        if pixels[n] == Pixel::On {
            let i = count * VERTICES_PER_PIXEL;
            indices.push(i);
            indices.push(i + 2);
            indices.push(i + 1);
            indices.push(i + 2);
            indices.push(i + 3);
            indices.push(i + 1);
            count += 1;
            assert(indices@ =~= triangles(count as nat));
        }
        n += 1;
    }
    assert(pixels@.take(pixels@.len() as int) =~= pixels@);
    indices
}

} // verus!
