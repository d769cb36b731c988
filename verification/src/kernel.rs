//! Odd-sized weight kernels and the discrete Gaussian presets.
//!
//! A kernel is a grid of weights whose width and height are both odd, so it
//! has a unique integer center tap. The presets are the classical binomial
//! approximations to a Gaussian, kept here as integer numerators over a
//! power-of-two denominator: the real-valued weight of an entry `w` is
//! `w / scale`, where `scale` is the sum of all entries. Keeping the tables
//! in integers lets the normalization property be stated and proved exactly;
//! a consumer divides by the scale to obtain the floating-point table.

use vstd::prelude::*;

use crate::grid::Grid;
use crate::raster::Center;
use crate::raster::Raster;

verus! {

/// A weight grid with both dimensions odd.
pub struct Kernel<Weight> {
    pub grid: Grid<Weight>,
}

/// The sum of a sequence of kernel weights.
pub open spec fn weight_sum(s: Seq<u32>) -> int
    decreases s.len(),
{
    if s.len() == 0 {
        0
    } else {
        weight_sum(s.drop_last()) + s.last()
    }
}

/// For an odd dimension `n`, floor division by 2 hits the exact middle:
/// the center index is equidistant from the first and the last index.
pub proof fn lemma_odd_center_is_middle(n: int)
    requires
        n > 0,
        n % 2 == 1,
    ensures
        n / 2 == (n - 1) / 2,
        (n - 1) - n / 2 == n / 2,
{
}

impl<Weight> Kernel<Weight> {
    /// A kernel is well formed when its grid is and both dimensions are odd.
    pub open spec fn wf(self) -> bool {
        self.grid.wf() && self.grid.raster.width % 2 == 1 && self.grid.raster.height % 2 == 1
    }

    /// The horizontal reach of the kernel on either side of its center.
    pub open spec fn radius_x(self) -> int {
        self.grid.raster.width as int / 2
    }

    /// The vertical reach of the kernel on either side of its center.
    pub open spec fn radius_y(self) -> int {
        self.grid.raster.height as int / 2
    }

    /// The weight at kernel position (kx, ky), as a mathematical value.
    pub open spec fn spec_weight(self, kx: int, ky: int) -> Weight {
        self.grid.spec_cell(kx, ky)
    }

    /// Wraps a weight grid as a kernel, rejecting even dimensions: a kernel
    /// with an even width or height has no unique center tap.
    pub fn new(grid: Grid<Weight>) -> (r: Option<Kernel<Weight>>)
        requires
            grid.wf(),
        ensures
            r is Some <==> grid.raster.width % 2 == 1 && grid.raster.height % 2 == 1,
            r is Some ==> r->Some_0 == (Kernel { grid }) && r->Some_0.wf(),
    {
        if grid.raster.width % 2 == 1 && grid.raster.height % 2 == 1 {
            Some(Kernel { grid })
        } else {
            None
        }
    }

    /// The kernel's width.
    pub fn width(&self) -> (w: usize)
        ensures
            w == self.grid.raster.width,
    {
        self.grid.width()
    }

    /// The kernel's height.
    pub fn height(&self) -> (h: usize)
        ensures
            h == self.grid.raster.height,
    {
        self.grid.height()
    }

    /// The weight at kernel position (kx, ky).
    pub fn get(&self, kx: usize, ky: usize) -> (w: &Weight)
        requires
            self.wf(),
            self.grid.raster.spec_is_inside(kx as int, ky as int),
        ensures
            *w == self.spec_weight(kx as int, ky as int),
    {
        self.grid.get(kx, ky)
    }

    /// The unique center tap. For odd dimensions, floor division lands on
    /// the exact middle index of each axis.
    pub fn center(&self) -> (c: Center)
        requires
            self.wf(),
        ensures
            c.x == self.radius_x(),
            c.y == self.radius_y(),
            c.x == (self.grid.raster.width - 1) / 2,
            c.y == (self.grid.raster.height - 1) / 2,
    {
        proof {
            lemma_odd_center_is_middle(self.grid.raster.width as int);
            lemma_odd_center_is_middle(self.grid.raster.height as int);
        }
        self.grid.center()
    }
}

impl Kernel<u32> {
    /// The sum of all weights of an integer kernel. For a preset this is its
    /// denominator: entry `w` stands for the real weight `w / total`.
    pub fn weight_total(&self) -> (t: u64)
        requires
            self.wf(),
            self.grid.cells@.len() <= u32::MAX,
        ensures
            t == weight_sum(self.grid.cells@),
    {
        let mut t: u64 = 0;
        let mut i: usize = 0;
        while i < self.grid.cells.len()
            invariant
                self.grid.cells@.len() <= u32::MAX,
                i <= self.grid.cells@.len(),
                t == weight_sum(self.grid.cells@.take(i as int)),
                t <= i * (u32::MAX as int),
            decreases self.grid.cells@.len() - i,
        {
            proof {
                assert(self.grid.cells@.take(i + 1).drop_last() =~= self.grid.cells@.take(
                    i as int,
                ));
                assert(i * (u32::MAX as int) + u32::MAX <= (i + 1) * (u32::MAX as int)) by (
                nonlinear_arith);
                assert((i + 1) * (u32::MAX as int) <= u32::MAX * (u32::MAX as int)) by (
                nonlinear_arith)
                    requires
                        i + 1 <= u32::MAX,
                {}
            }
            t = t + self.grid.cells[i] as u64;
            i = i + 1;
        }
        proof {
            assert(self.grid.cells@.take(self.grid.cells@.len() as int) =~= self.grid.cells@);
        }
        t
    }

    /// The 3×3 discrete Gaussian preset: binomial numerators over 16.
    pub fn gauss3() -> (k: Kernel<u32>)
        ensures
            k.wf(),
            k.grid.raster == (Raster { width: 3, height: 3 }),
            k.grid.cells@ == seq![1u32, 2, 1, 2, 4, 2, 1, 2, 1],
            weight_sum(k.grid.cells@) == 16,
    {
        let cells: Vec<u32> = vec![1, 2, 1, 2, 4, 2, 1, 2, 1];
        let k = Kernel { grid: Grid { raster: Raster { width: 3, height: 3 }, cells } };
        proof {
            assert(k.grid.cells.len() == k.grid.cells@.len());
            assert(k.grid.cells@ =~= seq![1u32, 2, 1, 2, 4, 2, 1, 2, 1]);
            assert(weight_sum(seq![1u32, 2, 1, 2, 4, 2, 1, 2, 1]) == 16) by {
                reveal_with_fuel(weight_sum, 10);
            }
            assert(k.wf());
        }
        k
    }

    /// The 5×5 discrete Gaussian preset: binomial numerators over 256.
    pub fn gauss5() -> (k: Kernel<u32>)
        ensures
            k.wf(),
            k.grid.raster == (Raster { width: 5, height: 5 }),
            k.grid.cells@ == seq![
                1u32, 4, 6, 4, 1,
                4, 16, 24, 16, 4,
                6, 24, 36, 24, 6,
                4, 16, 24, 16, 4,
                1, 4, 6, 4, 1,
            ],
            weight_sum(k.grid.cells@) == 256,
    {
        let cells: Vec<u32> = vec![
            1, 4, 6, 4, 1,
            4, 16, 24, 16, 4,
            6, 24, 36, 24, 6,
            4, 16, 24, 16, 4,
            1, 4, 6, 4, 1,
        ];
        let k = Kernel { grid: Grid { raster: Raster { width: 5, height: 5 }, cells } };
        proof {
            let table = seq![
                1u32, 4, 6, 4, 1,
                4, 16, 24, 16, 4,
                6, 24, 36, 24, 6,
                4, 16, 24, 16, 4,
                1, 4, 6, 4, 1,
            ];
            assert(k.grid.cells.len() == k.grid.cells@.len());
            assert(k.grid.cells@ =~= table);
            assert(weight_sum(table) == 256) by {
                reveal_with_fuel(weight_sum, 26);
            }
            assert(k.wf());
        }
        k
    }

    /// The 7×7 discrete Gaussian preset: binomial numerators over 4096.
    pub fn gauss7() -> (k: Kernel<u32>)
        ensures
            k.wf(),
            k.grid.raster == (Raster { width: 7, height: 7 }),
            k.grid.cells@ == seq![
                1u32, 6, 15, 20, 15, 6, 1,
                6, 36, 90, 120, 90, 36, 6,
                15, 90, 225, 300, 225, 90, 15,
                20, 120, 300, 400, 300, 120, 20,
                15, 90, 225, 300, 225, 90, 15,
                6, 36, 90, 120, 90, 36, 6,
                1, 6, 15, 20, 15, 6, 1,
            ],
            weight_sum(k.grid.cells@) == 4096,
    {
        let cells: Vec<u32> = vec![
            1, 6, 15, 20, 15, 6, 1,
            6, 36, 90, 120, 90, 36, 6,
            15, 90, 225, 300, 225, 90, 15,
            20, 120, 300, 400, 300, 120, 20,
            15, 90, 225, 300, 225, 90, 15,
            6, 36, 90, 120, 90, 36, 6,
            1, 6, 15, 20, 15, 6, 1,
        ];
        let k = Kernel { grid: Grid { raster: Raster { width: 7, height: 7 }, cells } };
        proof {
            let table = seq![
                1u32, 6, 15, 20, 15, 6, 1,
                6, 36, 90, 120, 90, 36, 6,
                15, 90, 225, 300, 225, 90, 15,
                20, 120, 300, 400, 300, 120, 20,
                15, 90, 225, 300, 225, 90, 15,
                6, 36, 90, 120, 90, 36, 6,
                1, 6, 15, 20, 15, 6, 1,
            ];
            assert(k.grid.cells.len() == k.grid.cells@.len());
            assert(k.grid.cells@ =~= table);
            assert(weight_sum(table) == 4096) by {
                reveal_with_fuel(weight_sum, 50);
            }
            assert(k.wf());
        }
        k
    }
}

} // verus!
