//! The dense 2D cell container: a raster plus a flat row-major buffer whose
//! length equals the raster's area. Generic over the cell type, so the same
//! container holds pixels and kernel weight tables.

use vstd::prelude::*;

use crate::raster::Center;
use crate::raster::Raster;

verus! {

/// A dense 2D buffer of cells over a raster, stored flat in row-major order:
/// `cells[y * width + x]` is the cell at (x, y).
#[derive(Clone)]
pub struct Grid<Cell> {
    pub raster: Raster,
    pub cells: Vec<Cell>,
}

impl<Cell> Grid<Cell> {
    /// A grid is well formed when its raster is (both dimensions positive)
    /// and the flat buffer holds exactly one cell per raster position.
    pub open spec fn wf(self) -> bool {
        self.raster.wf() && self.cells.len() == self.raster.area()
    }

    /// The cell at (x, y), as a mathematical value.
    pub open spec fn spec_cell(self, x: int, y: int) -> Cell {
        self.cells@[self.raster.spec_index_of(x, y)]
    }

    /// Builds a grid, rejecting a zero dimension and a buffer whose length
    /// does not match `width * height`.
    pub fn new(width: usize, height: usize, cells: Vec<Cell>) -> (r: Option<Grid<Cell>>)
        ensures
            r is Some <==> width > 0 && height > 0 && cells@.len() == width * height,
            r is Some ==> r->Some_0 == (Grid {
                raster: Raster { width, height },
                cells,
            }) && r->Some_0.wf(),
    {
        let n = cells.len();
        if width == 0 || height == 0 {
            return None;
        }
        match width.checked_mul(height) {
            Some(area) if area == n => Some(Grid { raster: Raster { width, height }, cells }),
            _ => None,
        }
    }

    /// The raster's width.
    pub fn width(&self) -> (w: usize)
        ensures
            w == self.raster.width,
    {
        self.raster.width
    }

    /// The raster's height.
    pub fn height(&self) -> (h: usize)
        ensures
            h == self.raster.height,
    {
        self.raster.height
    }

    /// The row-major index of (x, y) in the flat buffer.
    pub fn index(&self, x: usize, y: usize) -> (i: usize)
        requires
            self.wf(),
            self.raster.spec_is_inside(x as int, y as int),
        ensures
            i == self.raster.spec_index_of(x as int, y as int),
            i < self.cells@.len(),
    {
        self.raster.index(x, y)
    }

    /// The raster's geometric center.
    pub fn center(&self) -> (c: Center)
        ensures
            c.x == self.raster.width / 2,
            c.y == self.raster.height / 2,
    {
        self.raster.center()
    }

    /// Every position of the grid, exactly once, in row-major order.
    pub fn for_each(&self) -> (ps: Vec<(usize, usize, usize)>)
        requires
            self.wf(),
        ensures
            ps@.len() == self.raster.area(),
            forall|k: int|
                0 <= k < ps@.len() ==> #[trigger] ps@[k] == (
                (k % (self.raster.width as int)) as usize,
                (k / (self.raster.width as int)) as usize,
                k as usize,
                ),
    {
        self.raster.for_each()
    }

    /// Bounds-checked read of the cell at (x, y). The caller guarantees that
    /// the coordinate is inside the raster; a violation is a precondition
    /// failure, not a recoverable error.
    pub fn get(&self, x: usize, y: usize) -> (c: &Cell)
        requires
            self.wf(),
            self.raster.spec_is_inside(x as int, y as int),
        ensures
            *c == self.spec_cell(x as int, y as int),
    {
        let i = self.index(x, y);
        &self.cells[i]
    }

    /// Bounds-checked replacement of the cell at (x, y): the mutable
    /// counterpart of `get`. Every other cell keeps its value.
    pub fn set(&mut self, x: usize, y: usize, cell: Cell)
        requires
            old(self).wf(),
            old(self).raster.spec_is_inside(x as int, y as int),
        ensures
            final(self).wf(),
            final(self).raster == old(self).raster,
            final(self).cells@ == old(self).cells@.update(
                old(self).raster.spec_index_of(x as int, y as int),
                cell,
            ),
            final(self).spec_cell(x as int, y as int) == cell,
    {
        let i = self.index(x, y);
        self.cells.set(i, cell);
    }
}

impl<Cell: Copy> Grid<Cell> {
    /// Every cell of the grid together with its position, exactly once, in
    /// row-major order: the sequence of (x, y, index, cell) tuples.
    pub fn for_each_cell(&self) -> (ps: Vec<(usize, usize, usize, Cell)>)
        requires
            self.wf(),
        ensures
            ps@.len() == self.raster.area(),
            forall|k: int|
                0 <= k < ps@.len() ==> #[trigger] ps@[k] == (
                (k % (self.raster.width as int)) as usize,
                (k / (self.raster.width as int)) as usize,
                k as usize,
                self.cells@[k],
                ),
    {
        let w = self.raster.width;
        let mut ps: Vec<(usize, usize, usize, Cell)> = Vec::new();
        let mut i: usize = 0;
        while i < self.cells.len()
            invariant
                self.wf(),
                w == self.raster.width,
                i <= self.cells@.len(),
                ps@.len() == i,
                forall|k: int|
                    0 <= k < ps@.len() ==> #[trigger] ps@[k] == (
                    (k % (w as int)) as usize,
                    (k / (w as int)) as usize,
                    k as usize,
                    self.cells@[k],
                    ),
            decreases self.cells@.len() - i,
        {
            let x = i % w;
            let y = i / w;
            ps.push((x, y, i, self.cells[i]));
            i = i + 1;
        }
        ps
    }

    /// Applies `f` to every cell, producing a grid of the same dimensions
    /// whose cell at each position is a result of `f` on the old cell there.
    pub fn map<U, F: Fn(Cell) -> U>(&self, f: &F) -> (out: Grid<U>)
        requires
            self.wf(),
            forall|k: int|
                0 <= k < self.cells@.len() ==> call_requires(*f, (self.cells@[k],)),
        ensures
            out.raster == self.raster,
            out.wf(),
            forall|k: int|
                0 <= k < self.cells@.len() ==> call_ensures(
                    *f,
                    (self.cells@[k],),
                    #[trigger] out.cells@[k],
                ),
    {
        let mut cells: Vec<U> = Vec::new();
        let mut i: usize = 0;
        while i < self.cells.len()
            invariant
                self.wf(),
                i <= self.cells@.len(),
                cells@.len() == i,
                forall|k: int|
                    0 <= k < self.cells@.len() ==> call_requires(*f, (self.cells@[k],)),
                forall|k: int|
                    0 <= k < i ==> call_ensures(*f, (self.cells@[k],), #[trigger] cells@[k]),
            decreases self.cells@.len() - i,
        {
            cells.push(f(self.cells[i]));
            i = i + 1;
        }
        Grid { raster: self.raster, cells }
    }
}

} // verus!
