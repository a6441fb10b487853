//! The frame buffer: one packed pixel per grid cell, row by row from the top.

use crate::color::{pixel_of, shade};
use vstd::prelude::*;

verus! {

/// Cells per row of the standard frame.
pub const FRAME_WIDTH: usize = 600;

/// Rows of the standard frame.
pub const FRAME_HEIGHT: usize = 600;

/// The pixels that a grid of iteration counts is drawn as under a given cap.
pub open spec fn shaded(counts: Seq<u32>, max_iters: u32) -> Seq<u32> {
    Seq::new(counts.len(), |k: int| pixel_of(counts[k], max_iters))
}

/// The place of the cell in column `x` of row `y`, rows counted from the top.
pub open spec fn cell_index(x: int, y: int, width: int) -> int {
    y * width + x
}

/// Cells of a grid have places of their own: the place of a cell inside the
/// grid lies inside the buffer, and two cells share a place only if they are
/// the same cell.
pub proof fn lemma_cell_index_injective(x1: int, y1: int, x2: int, y2: int, width: int, height: int)
    requires
        0 <= x1 < width,
        0 <= x2 < width,
        0 <= y1 < height,
        0 <= y2 < height,
    ensures
        0 <= cell_index(x1, y1, width) < width * height,
        cell_index(x1, y1, width) == cell_index(x2, y2, width) ==> x1 == x2 && y1 == y2,
        cell_index(x1, y1, width) % width == x1,
        cell_index(x1, y1, width) / width == y1,
{
    assert(0 <= y1 * width + x1 < width * height) by (nonlinear_arith)
        requires
            0 <= x1 < width,
            0 <= y1 < height,
    ;
    assert((y1 * width + x1) % width == x1 && (y1 * width + x1) / width == y1) by {
        vstd::arithmetic::div_mod::lemma_fundamental_div_mod_converse(
            y1 * width + x1,
            width,
            y1,
            x1,
        );
        assert(width * y1 == y1 * width) by (nonlinear_arith);
    }
    assert((y2 * width + x2) % width == x2 && (y2 * width + x2) / width == y2) by {
        vstd::arithmetic::div_mod::lemma_fundamental_div_mod_converse(
            y2 * width + x2,
            width,
            y2,
            x2,
        );
        assert(width * y2 == y2 * width) by (nonlinear_arith);
    }
}

/// A grid of packed pixels, row-major, row zero at the top.
#[derive(Debug)]
pub struct PixelBuffer {
    /// Cells per row.
    pub width: usize,
    /// Number of rows.
    pub height: usize,
    /// One `0xRRGGBB` value per cell.
    pub pixels: Vec<u32>,
}

impl PixelBuffer {
    /// The buffer holds exactly one pixel per cell.
    pub open spec fn wf(&self) -> bool {
        self.pixels.len() == self.width * self.height
    }

    /// An all-black buffer of the given size, or nothing where the number of
    /// cells does not fit the machine.
    pub fn new(width: usize, height: usize) -> (made: Option<PixelBuffer>)
        ensures
            made.is_some() <==> width * height <= usize::MAX,
            made matches Some(buffer) ==> {
                &&& buffer.wf()
                &&& buffer.width == width
                &&& buffer.height == height
                &&& forall|k: int| 0 <= k < buffer.pixels.len() ==> buffer.pixels[k] == 0
            },
    {
        match width.checked_mul(height) {
            None => None,
            Some(cells) => {
                let pixels: Vec<u32> = vec![0u32; cells];
                Some(PixelBuffer { width, height, pixels })
            },
        }
    }

    /// The place in the buffer of the cell in column `x` of row `y`.
    pub fn index_of(&self, x: usize, y: usize) -> (index: usize)
        requires
            self.wf(),
            x < self.width,
            y < self.height,
        ensures
            index == cell_index(x as int, y as int, self.width as int),
            index < self.pixels.len(),
    {
        proof {
            lemma_cell_index_injective(
                x as int,
                y as int,
                x as int,
                y as int,
                self.width as int,
                self.height as int,
            );
            assert(0 <= y * self.width <= y * self.width + x) by (nonlinear_arith)
                requires
                    0 <= x,
                    0 <= y,
                    0 <= self.width,
            ;
        }
        y * self.width + x
    }

    /// Draws one cell from its iteration count and leaves the others alone.
    pub fn paint(&mut self, x: usize, y: usize, iter: u32, max_iters: u32)
        requires
            old(self).wf(),
            x < old(self).width,
            y < old(self).height,
        ensures
            final(self).wf(),
            final(self).width == old(self).width,
            final(self).height == old(self).height,
            final(self).pixels@ == old(self).pixels@.update(
                cell_index(x as int, y as int, old(self).width as int),
                pixel_of(iter, max_iters),
            ),
    {
        let index: usize = self.index_of(x, y);
        self.pixels.set(index, shade(iter, max_iters));
    }

    /// Redraws every cell from a grid of iteration counts laid out like the
    /// buffer. Nothing of the earlier contents is kept.
    pub fn render(&mut self, counts: &Vec<u32>, max_iters: u32)
        requires
            old(self).wf(),
            counts.len() == old(self).pixels.len(),
        ensures
            final(self).wf(),
            final(self).width == old(self).width,
            final(self).height == old(self).height,
            final(self).pixels@ == shaded(counts@, max_iters),
    {
        let cells: usize = counts.len();
        let mut k: usize = 0;
        while k < cells
            invariant
                k <= cells,
                cells == counts.len(),
                self.pixels.len() == cells,
                self.width == old(self).width,
                self.height == old(self).height,
                forall|j: int| 0 <= j < k ==> self.pixels[j] == pixel_of(counts[j], max_iters),
            decreases cells - k,
        {
            self.pixels.set(k, shade(counts[k], max_iters));
            k = k + 1;
        }
        assert(self.pixels@ =~= shaded(counts@, max_iters));
    }
}

/// The buffer after the first `cells` cells were painted one by one, in
/// buffer order, from a grid of iteration counts.
pub open spec fn painted_through(
    pixels: Seq<u32>,
    counts: Seq<u32>,
    max_iters: u32,
    cells: nat,
) -> Seq<u32>
    decreases cells,
{
    if cells == 0 {
        pixels
    } else {
        painted_through(pixels, counts, max_iters, (cells - 1) as nat).update(
            cells - 1,
            pixel_of(counts[cells - 1], max_iters),
        )
    }
}

/// Painting cell by cell redraws what it has reached and leaves the rest as it
/// was.
pub proof fn lemma_painted_prefix(pixels: Seq<u32>, counts: Seq<u32>, max_iters: u32, cells: nat)
    requires
        pixels.len() == counts.len(),
        cells <= counts.len(),
    ensures
        painted_through(pixels, counts, max_iters, cells).len() == pixels.len(),
        forall|k: int|
            0 <= k < cells ==> #[trigger] painted_through(pixels, counts, max_iters, cells)[k]
                == pixel_of(counts[k], max_iters),
        forall|k: int|
            cells <= k < pixels.len() ==> #[trigger] painted_through(
                pixels,
                counts,
                max_iters,
                cells,
            )[k] == pixels[k],
    decreases cells,
{
    if cells > 0 {
        lemma_painted_prefix(pixels, counts, max_iters, (cells - 1) as nat);
    }
}

/// A full repaint forgets the frame before: whatever the buffer held, once
/// every cell is painted it holds exactly the pixels of the counts.
pub proof fn lemma_full_repaint_forgets(pixels: Seq<u32>, counts: Seq<u32>, max_iters: u32)
    requires
        pixels.len() == counts.len(),
    ensures
        painted_through(pixels, counts, max_iters, counts.len()) == shaded(counts, max_iters),
{
    lemma_painted_prefix(pixels, counts, max_iters, counts.len());
    assert(painted_through(pixels, counts, max_iters, counts.len()) =~= shaded(
        counts,
        max_iters,
    ));
}

/// Drawing the same counts under the same cap a second time changes nothing,
/// and two buffers drawn from them are equal pixel for pixel, whatever either
/// held before.
pub proof fn lemma_redraw_is_idempotent(
    first: Seq<u32>,
    second: Seq<u32>,
    counts: Seq<u32>,
    max_iters: u32,
)
    requires
        first.len() == counts.len(),
        second.len() == counts.len(),
    ensures
        painted_through(first, counts, max_iters, counts.len()) == painted_through(
            second,
            counts,
            max_iters,
            counts.len(),
        ),
        painted_through(
            painted_through(first, counts, max_iters, counts.len()),
            counts,
            max_iters,
            counts.len(),
        ) == painted_through(first, counts, max_iters, counts.len()),
{
    lemma_full_repaint_forgets(first, counts, max_iters);
    lemma_full_repaint_forgets(second, counts, max_iters);
    lemma_full_repaint_forgets(shaded(counts, max_iters), counts, max_iters);
}

/// A cell whose count reached the cap is drawn black.
pub proof fn lemma_bounded_cells_are_black(counts: Seq<u32>, max_iters: u32, k: int)
    requires
        0 <= k < counts.len(),
        counts[k] == max_iters,
    ensures
        shaded(counts, max_iters)[k] == 0,
{
}

} // verus!
