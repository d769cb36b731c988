//! The width/height pair and the row-major indexing scheme shared by every
//! 2D buffer in this crate.

use vstd::prelude::*;

verus! {

/// The geometric center of a raster: the cell at (width / 2, height / 2),
/// with integer (floor) division.
pub struct Center {
    pub x: usize,
    pub y: usize,
}

/// A pair of positive dimensions together with the row-major indexing scheme
/// `index(x, y) = y * width + x`.
#[derive(Clone, Copy, Debug)]
pub struct Raster {
    pub width: usize,
    pub height: usize,
}

impl Raster {
    /// A raster is well formed when both dimensions are positive.
    pub open spec fn wf(self) -> bool {
        self.width > 0 && self.height > 0
    }

    /// The row-major index of (x, y), as a mathematical integer.
    pub open spec fn spec_index_of(self, x: int, y: int) -> int {
        y * self.width + x
    }

    /// Whether the point (x, y) lies inside the raster.
    pub open spec fn spec_is_inside(self, x: int, y: int) -> bool {
        0 <= x < self.width && 0 <= y < self.height
    }

    /// The number of cells a buffer over this raster holds.
    pub open spec fn area(self) -> int {
        self.width * self.height
    }

    /// Builds a raster, rejecting a zero dimension.
    pub fn new(width: usize, height: usize) -> (r: Option<Raster>)
        ensures
            r is Some <==> width > 0 && height > 0,
            r is Some ==> r->Some_0 == (Raster { width, height }) && r->Some_0.wf(),
    {
        if width > 0 && height > 0 {
            Some(Raster { width, height })
        } else {
            None
        }
    }

    /// Every row-major index of an in-bounds point is itself in bounds of the
    /// flat buffer: `y * width + x < width * height`.
    pub proof fn lemma_index_in_area(self, x: int, y: int)
        requires
            self.spec_is_inside(x, y),
        ensures
            0 <= self.spec_index_of(x, y) < self.area(),
    {
        assert(y * self.width + x < self.width * self.height) by (nonlinear_arith)
            requires
                0 <= x < self.width,
                0 <= y < self.height,
        {}
        assert(0 <= y * self.width) by (nonlinear_arith)
            requires
                0 <= y,
                0 <= self.width,
        {}
    }

    /// The row-major index of (x, y).
    pub fn index(&self, x: usize, y: usize) -> (i: usize)
        requires
            self.spec_is_inside(x as int, y as int),
            self.area() <= usize::MAX,
        ensures
            i == self.spec_index_of(x as int, y as int),
            i < self.area(),
    {
        proof {
            self.lemma_index_in_area(x as int, y as int);
        }
        y * self.width + x
    }

    /// The bounds test every traversal and every kernel tap goes through.
    pub fn is_inside(&self, x: isize, y: isize) -> (r: bool)
        ensures
            r == self.spec_is_inside(x as int, y as int),
    {
        x >= 0 && (x as usize) < self.width && y >= 0 && (y as usize) < self.height
    }

    /// The geometric center, by floor division. For an odd dimension `n` this
    /// is exactly the middle index `(n - 1) / 2`.
    pub fn center(&self) -> (c: Center)
        ensures
            c.x == self.width / 2,
            c.y == self.height / 2,
    {
        Center { x: self.width / 2, y: self.height / 2 }
    }

    /// Every position of the raster, exactly once, in row-major order:
    /// the sequence of (x, y, index) triples the imperative traversals of
    /// this crate walk.
    pub fn for_each(&self) -> (ps: Vec<(usize, usize, usize)>)
        requires
            self.wf(),
            self.area() <= usize::MAX,
        ensures
            ps@.len() == self.area(),
            forall|k: int|
                0 <= k < ps@.len() ==> #[trigger] ps@[k] == (
                (k % (self.width as int)) as usize,
                (k / (self.width as int)) as usize,
                k as usize,
                ),
    {
        let ghost area = self.area();
        proof {
            assert(self.width * self.height >= 0) by (nonlinear_arith)
                requires
                    self.width >= 0,
                    self.height >= 0,
            {}
        }
        let mut ps: Vec<(usize, usize, usize)> = Vec::new();
        let mut y: usize = 0;
        while y < self.height
            invariant
                self.wf(),
                y <= self.height,
                ps@.len() == y * self.width,
                ps@.len() <= area,
                area == self.area(),
                area <= usize::MAX,
                forall|k: int|
                    0 <= k < ps@.len() ==> #[trigger] ps@[k] == (
                    (k % (self.width as int)) as usize,
                    (k / (self.width as int)) as usize,
                    k as usize,
                    ),
            decreases self.height - y,
        {
            proof {
                assert(y * self.width + self.width <= self.height * self.width) by (
                nonlinear_arith)
                    requires
                        y < self.height,
                        self.width >= 0,
                {}
                assert(self.height * self.width == self.width * self.height) by (nonlinear_arith);
            }
            let mut x: usize = 0;
            while x < self.width
                invariant
                    self.wf(),
                    y < self.height,
                    x <= self.width,
                    ps@.len() == y * self.width + x,
                    y * self.width + self.width <= area,
                    area == self.area(),
                    area <= usize::MAX,
                    forall|k: int|
                        0 <= k < ps@.len() ==> #[trigger] ps@[k] == (
                        (k % (self.width as int)) as usize,
                        (k / (self.width as int)) as usize,
                        k as usize,
                        ),
                decreases self.width - x,
            {
                proof {
                    self.lemma_index_in_area(x as int, y as int);
                }
                let i = self.index(x, y);
                ps.push((x, y, i));
                proof {
                    let k = ps@.len() - 1;
                    assert(k == y * self.width + x);
                    assert(k % (self.width as int) == x && k / (self.width as int) == y) by (
                    nonlinear_arith)
                        requires
                            0 <= x < self.width,
                            0 <= y,
                            k == y * self.width + x,
                    {}
                }
                x = x + 1;
            }
            proof {
                assert((y + 1) * self.width == y * self.width + self.width) by (nonlinear_arith);
            }
            y = y + 1;
        }
        proof {
            assert(self.height * self.width == self.width * self.height) by (nonlinear_arith);
        }
        ps
    }
}

} // verus!
