//! The index geometry of frequency-domain convolution.
//!
//! A full linear convolution by transform pads both operands to
//! `grid + kernel - 1` per axis, embeds them in the top-left corner of the
//! padded raster, multiplies the transformed buffers position by position,
//! and reads the result back re-centered on the kernel's center tap. The
//! transforms themselves act on opaque cell values; everything about sizes,
//! embedding and read-back offsets is verified here.

use vstd::prelude::*;

use crate::grid::Grid;
use crate::raster::Center;
use crate::raster::Raster;

verus! {

/// The padded raster of a full linear convolution: `grid + kernel - 1` on
/// each axis, the smallest size that avoids circular wraparound.
pub open spec fn spec_padded(g: Raster, k: Raster) -> Raster {
    Raster {
        width: (g.width + k.width - 1) as usize,
        height: (g.height + k.height - 1) as usize,
    }
}

/// Computes the padded raster for a grid and a kernel raster.
pub fn padded_raster(g: Raster, k: Raster) -> (p: Raster)
    requires
        g.wf(),
        k.wf(),
        g.width + k.width - 1 <= usize::MAX,
        g.height + k.height - 1 <= usize::MAX,
    ensures
        p == spec_padded(g, k),
        p.wf(),
        p.width == g.width + k.width - 1,
        p.height == g.height + k.height - 1,
{
    Raster { width: g.width - 1 + k.width, height: g.height - 1 + k.height }
}

impl<Cell: Copy> Grid<Cell> {
    /// Embeds this grid in the top-left corner of a larger raster, filling
    /// every position outside the embedded region with `fill` (zero, for a
    /// transform buffer).
    pub fn pad_embed(&self, padded: Raster, fill: Cell) -> (out: Grid<Cell>)
        requires
            self.wf(),
            padded.wf(),
            padded.width >= self.raster.width,
            padded.height >= self.raster.height,
            padded.area() <= usize::MAX,
        ensures
            out.raster == padded,
            out.wf(),
            forall|x: int, y: int|
                padded.spec_is_inside(x, y) ==> #[trigger] out.spec_cell(x, y) == (
                if self.raster.spec_is_inside(x, y) {
                    self.spec_cell(x, y)
                } else {
                    fill
                }),
    {
        let mut rows: Vec<Vec<Cell>> = Vec::new();
        let mut y: usize = 0;
        while y < padded.height
            invariant
                self.wf(),
                padded.wf(),
                padded.width >= self.raster.width,
                padded.height >= self.raster.height,
                y <= padded.height,
                rows@.len() == y,
                forall|y0: int| 0 <= y0 < y ==> (#[trigger] rows@[y0])@.len() == padded.width,
                forall|x0: int, y0: int|
                    0 <= y0 < y && 0 <= x0 < padded.width ==> #[trigger] rows@[y0]@[x0] == (
                    if self.raster.spec_is_inside(x0, y0) {
                        self.spec_cell(x0, y0)
                    } else {
                        fill
                    }),
            decreases padded.height - y,
        {
            let mut row: Vec<Cell> = Vec::new();
            let mut x: usize = 0;
            while x < padded.width
                invariant
                    self.wf(),
                    padded.wf(),
                    y < padded.height,
                    x <= padded.width,
                    row@.len() == x,
                    forall|x0: int|
                        0 <= x0 < x ==> #[trigger] row@[x0] == (
                        if self.raster.spec_is_inside(x0, y as int) {
                            self.spec_cell(x0, y as int)
                        } else {
                            fill
                        }),
                decreases padded.width - x,
            {
                if x < self.raster.width && y < self.raster.height {
                    row.push(*self.get(x, y));
                } else {
                    row.push(fill);
                }
                x = x + 1;
            }
            rows.push(row);
            y = y + 1;
        }
        Self::from_rows(padded, rows)
    }

    /// Reads back the window of a padded convolution result that lies over
    /// the original raster, re-centered on the kernel's center: output
    /// (x, y) is the padded cell at (x + center.x, y + center.y).
    pub fn extract_centered(&self, out_raster: Raster, center: Center) -> (out: Grid<Cell>)
        requires
            self.wf(),
            out_raster.wf(),
            out_raster.width + center.x <= self.raster.width,
            out_raster.height + center.y <= self.raster.height,
        ensures
            out.raster == out_raster,
            out.wf(),
            forall|x: int, y: int|
                out_raster.spec_is_inside(x, y) ==> #[trigger] out.spec_cell(x, y)
                    == self.spec_cell(x + center.x, y + center.y),
    {
        let mut rows: Vec<Vec<Cell>> = Vec::new();
        let mut y: usize = 0;
        while y < out_raster.height
            invariant
                self.wf(),
                out_raster.wf(),
                out_raster.width + center.x <= self.raster.width,
                out_raster.height + center.y <= self.raster.height,
                y <= out_raster.height,
                rows@.len() == y,
                forall|y0: int| 0 <= y0 < y ==> (#[trigger] rows@[y0])@.len() == out_raster.width,
                forall|x0: int, y0: int|
                    0 <= y0 < y && 0 <= x0 < out_raster.width ==> #[trigger] rows@[y0]@[x0]
                        == self.spec_cell(x0 + center.x, y0 + center.y),
            decreases out_raster.height - y,
        {
            let mut row: Vec<Cell> = Vec::new();
            let mut x: usize = 0;
            while x < out_raster.width
                invariant
                    self.wf(),
                    out_raster.wf(),
                    out_raster.width + center.x <= self.raster.width,
                    out_raster.height + center.y <= self.raster.height,
                    y < out_raster.height,
                    x <= out_raster.width,
                    row@.len() == x,
                    forall|x0: int|
                        0 <= x0 < x ==> #[trigger] row@[x0] == self.spec_cell(
                            x0 + center.x,
                            y + center.y,
                        ),
                decreases out_raster.width - x,
            {
                row.push(*self.get(x + center.x, y + center.y));
                x = x + 1;
            }
            rows.push(row);
            y = y + 1;
        }
        proof {
            assert(out_raster.area() <= out_raster.width * out_raster.height);
            assert(out_raster.area() <= self.raster.area()) by (nonlinear_arith)
                requires
                    out_raster.width <= self.raster.width,
                    out_raster.height <= self.raster.height,
                    out_raster.width >= 0,
                    out_raster.height >= 0,
            {}
            assert(self.cells.len() == self.cells@.len());
        }
        Self::from_rows(out_raster, rows)
    }

    /// Combines two grids of identical dimensions position by position:
    /// the cell at each flat index of the result is `f` applied to the two
    /// cells at that index (for transform buffers, the element-wise complex
    /// product).
    pub fn pointwise_with<Other: Copy, Out, F: Fn(Cell, Other) -> Out>(
        &self,
        other: &Grid<Other>,
        f: &F,
    ) -> (out: Grid<Out>)
        requires
            self.wf(),
            other.wf(),
            other.raster == self.raster,
            forall|a: Cell, b: Other| #[trigger] call_requires(*f, (a, b)),
        ensures
            out.raster == self.raster,
            out.wf(),
            forall|i: int|
                0 <= i < self.cells@.len() ==> call_ensures(
                    *f,
                    (self.cells@[i], other.cells@[i]),
                    #[trigger] out.cells@[i],
                ),
    {
        let mut cells: Vec<Out> = Vec::new();
        let mut i: usize = 0;
        while i < self.cells.len()
            invariant
                self.wf(),
                other.wf(),
                other.raster == self.raster,
                forall|a: Cell, b: Other| #[trigger] call_requires(*f, (a, b)),
                i <= self.cells@.len(),
                cells@.len() == i,
                forall|k: int|
                    0 <= k < i ==> call_ensures(
                        *f,
                        (self.cells@[k], other.cells@[k]),
                        #[trigger] cells@[k],
                    ),
            decreases self.cells@.len() - i,
        {
            cells.push(f(self.cells[i], other.cells[i]));
            i = i + 1;
        }
        Grid { raster: self.raster, cells }
    }
}

} // verus!
