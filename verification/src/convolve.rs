//! Convolution over a grid: the boundary-skip tap enumeration shared by the
//! spatial convolvers, and the direct and data-parallel convolution loops.
//!
//! The per-pixel numeric combination (a weighted sum over the taps, followed
//! by clamping) is supplied by the caller as a combining function over the
//! tap list; the contracts here pin down exactly which taps each output cell
//! is computed from, and in what order. Both convolvers promise the same
//! thing of every output cell, so a combining function that is deterministic
//! in the tap values makes their outputs equal cell for cell.

use vstd::prelude::*;

use rayon::iter::IndexedParallelIterator;
use rayon::iter::IntoParallelIterator;
use rayon::iter::ParallelIterator;

use crate::grid::Grid;
use crate::kernel::Kernel;

verus! {

/// One kernel tap over a grid position: the kernel coordinates of the tap,
/// the flat index of the source cell it reads, that cell's value, and the
/// tap's weight.
#[derive(Clone, Copy, Debug)]
pub struct Tap<Cell, Weight> {
    pub kx: usize,
    pub ky: usize,
    pub index: usize,
    pub cell: Cell,
    pub weight: Weight,
}

/// Whether the tap (kx, ky) of `k`, centered on grid position (x, y), reads
/// a source coordinate inside the grid. Taps for which this fails are
/// skipped entirely: their weight contributes nothing and is not
/// renormalized away (the boundary-skip policy).
pub open spec fn tap_in_bounds<Cell, Weight>(
    g: Grid<Cell>,
    k: Kernel<Weight>,
    x: int,
    y: int,
    kx: int,
    ky: int,
) -> bool {
    g.raster.spec_is_inside(x + kx - k.radius_x(), y + ky - k.radius_y())
}

/// The tap (kx, ky) of `k` centered on grid position (x, y), assuming its
/// source coordinate is inside the grid.
pub open spec fn tap_at<Cell, Weight>(
    g: Grid<Cell>,
    k: Kernel<Weight>,
    x: int,
    y: int,
    kx: int,
    ky: int,
) -> Tap<Cell, Weight> {
    let sx = x + kx - k.radius_x();
    let sy = y + ky - k.radius_y();
    Tap {
        kx: kx as usize,
        ky: ky as usize,
        index: g.raster.spec_index_of(sx, sy) as usize,
        cell: g.spec_cell(sx, sy),
        weight: k.spec_weight(kx, ky),
    }
}

/// The in-bounds taps among the first `n` kernel positions in row-major
/// kernel order, centered on grid position (x, y).
pub open spec fn taps_upto<Cell, Weight>(
    g: Grid<Cell>,
    k: Kernel<Weight>,
    x: int,
    y: int,
    n: int,
) -> Seq<Tap<Cell, Weight>>
    decreases n,
{
    if n <= 0 {
        Seq::empty()
    } else {
        let kx = (n - 1) % (k.grid.raster.width as int);
        let ky = (n - 1) / (k.grid.raster.width as int);
        taps_upto(g, k, x, y, n - 1) + if tap_in_bounds(g, k, x, y, kx, ky) {
            seq![tap_at(g, k, x, y, kx, ky)]
        } else {
            Seq::empty()
        }
    }
}

/// The full tap list of `k` centered on grid position (x, y): every kernel
/// position in row-major order whose source coordinate is inside the grid,
/// and no other.
pub open spec fn tap_seq<Cell, Weight>(
    g: Grid<Cell>,
    k: Kernel<Weight>,
    x: int,
    y: int,
) -> Seq<Tap<Cell, Weight>> {
    taps_upto(g, k, x, y, k.grid.raster.area())
}

impl<Cell: Copy> Grid<Cell> {
    /// Enumerates the kernel taps centered on (x, y) in row-major kernel
    /// order, skipping every tap whose source coordinate falls outside the
    /// grid. This is the one boundary policy every spatial convolver of this
    /// crate reproduces.
    pub fn for_each_in_kernel<Weight: Copy>(
        &self,
        kernel: &Kernel<Weight>,
        x: usize,
        y: usize,
    ) -> (taps: Vec<Tap<Cell, Weight>>)
        requires
            self.wf(),
            kernel.wf(),
            self.raster.spec_is_inside(x as int, y as int),
            self.raster.width + kernel.grid.raster.width <= usize::MAX,
            self.raster.height + kernel.grid.raster.height <= usize::MAX,
        ensures
            taps@ == tap_seq(*self, *kernel, x as int, y as int),
    {
        let kc = kernel.center();
        let kw = kernel.width();
        let n = kernel.grid.cells.len();
        let mut taps: Vec<Tap<Cell, Weight>> = Vec::new();
        let mut i: usize = 0;
        while i < n
            invariant
                self.wf(),
                kernel.wf(),
                self.raster.spec_is_inside(x as int, y as int),
                self.raster.width + kernel.grid.raster.width <= usize::MAX,
                self.raster.height + kernel.grid.raster.height <= usize::MAX,
                kc.x == kernel.radius_x(),
                kc.y == kernel.radius_y(),
                kw == kernel.grid.raster.width,
                n == kernel.grid.raster.area(),
                i <= n,
                taps@ == taps_upto(*self, *kernel, x as int, y as int, i as int),
            decreases n - i,
        {
            let kx = i % kw;
            let ky = i / kw;
            proof {
                assert((ky as int) == (i as int) / (kw as int));
                assert((ky as int) < kernel.grid.raster.height) by (nonlinear_arith)
                    requires
                        (i as int) < (kw as int) * (kernel.grid.raster.height as int),
                        (ky as int) == (i as int) / (kw as int),
                        kw > 0,
                {}
            }
            let sxp = x + kx;
            let syp = y + ky;
            if sxp >= kc.x && syp >= kc.y && sxp - kc.x < self.raster.width && syp - kc.y
                < self.raster.height {
                let sx = sxp - kc.x;
                let sy = syp - kc.y;
                let index = self.raster.index(sx, sy);
                let cell = *self.get(sx, sy);
                let weight = *kernel.get(kx, ky);
                taps.push(Tap { kx, ky, index, cell, weight });
                proof {
                    assert(tap_in_bounds(*self, *kernel, x as int, y as int, kx as int, ky as int));
                    assert(taps@ =~= taps_upto(*self, *kernel, x as int, y as int, i + 1));
                }
            } else {
                proof {
                    assert(!tap_in_bounds(
                        *self,
                        *kernel,
                        x as int,
                        y as int,
                        kx as int,
                        ky as int,
                    ));
                    assert(taps@ =~= taps_upto(*self, *kernel, x as int, y as int, i + 1));
                }
            }
            i = i + 1;
        }
        taps
    }
}

/// What every convolver promises of the output cell at (x, y): it is a
/// result of the combining function applied to the full boundary-skipped
/// tap list of the kernel centered there.
pub open spec fn convolved_cell<Cell, Weight, F: Fn(Vec<Tap<Cell, Weight>>) -> Cell>(
    g: Grid<Cell>,
    k: Kernel<Weight>,
    f: F,
    x: int,
    y: int,
    c: Cell,
) -> bool {
    exists|v: Vec<Tap<Cell, Weight>>|
        v@ == tap_seq(g, k, x, y) && #[trigger] call_ensures(f, (v,), c)
}

/// The machine limits under which a kernel can be slid over a grid: source
/// coordinates `x + kx` stay representable.
pub open spec fn dims_fit<Cell, Weight>(g: Grid<Cell>, k: Kernel<Weight>) -> bool {
    g.raster.width + k.grid.raster.width <= usize::MAX && g.raster.height + k.grid.raster.height
        <= usize::MAX
}

impl<Cell: Copy> Grid<Cell> {
    /// Convolves one output row: the cell at (x, y) is combined from the tap
    /// list centered on (x, y), for every x of the row.
    pub fn convolve_row<Weight: Copy, F: Fn(Vec<Tap<Cell, Weight>>) -> Cell>(
        &self,
        kernel: &Kernel<Weight>,
        y: usize,
        combine: &F,
    ) -> (row: Vec<Cell>)
        requires
            self.wf(),
            kernel.wf(),
            dims_fit(*self, *kernel),
            y < self.raster.height,
            forall|v: Vec<Tap<Cell, Weight>>| #[trigger] call_requires(*combine, (v,)),
        ensures
            row@.len() == self.raster.width,
            forall|x: int|
                0 <= x < self.raster.width ==> convolved_cell(
                    *self,
                    *kernel,
                    *combine,
                    x,
                    y as int,
                    #[trigger] row@[x],
                ),
    {
        let mut row: Vec<Cell> = Vec::new();
        let mut x: usize = 0;
        while x < self.raster.width
            invariant
                self.wf(),
                kernel.wf(),
                dims_fit(*self, *kernel),
                y < self.raster.height,
                forall|v: Vec<Tap<Cell, Weight>>| #[trigger] call_requires(*combine, (v,)),
                x <= self.raster.width,
                row@.len() == x,
                forall|x0: int|
                    0 <= x0 < x ==> convolved_cell(
                        *self,
                        *kernel,
                        *combine,
                        x0,
                        y as int,
                        #[trigger] row@[x0],
                    ),
            decreases self.raster.width - x,
        {
            let taps = self.for_each_in_kernel(kernel, x, y);
            let ghost taps_snapshot = taps;
            let cell = combine(taps);
            proof {
                assert(call_ensures(*combine, (taps_snapshot,), cell));
                assert(convolved_cell(*self, *kernel, *combine, x as int, y as int, cell));
            }
            row.push(cell);
            x = x + 1;
        }
        row
    }

    /// Reassembles a grid from its rows, in order. Row `y` supplies the
    /// cells `(0, y)` through `(width - 1, y)`.
    pub fn from_rows(raster: crate::raster::Raster, rows: Vec<Vec<Cell>>) -> (out: Grid<Cell>)
        requires
            raster.wf(),
            raster.area() <= usize::MAX,
            rows@.len() == raster.height,
            forall|y: int| 0 <= y < rows@.len() ==> (#[trigger] rows@[y])@.len() == raster.width,
        ensures
            out.raster == raster,
            out.wf(),
            forall|x: int, y: int|
                raster.spec_is_inside(x, y) ==> #[trigger] out.spec_cell(x, y) == rows@[y]@[x],
    {
        let w = raster.width;
        let h = raster.height;
        let mut cells: Vec<Cell> = Vec::new();
        let mut y: usize = 0;
        while y < h
            invariant
                raster.wf(),
                raster.area() <= usize::MAX,
                w == raster.width,
                h == raster.height,
                rows@.len() == h,
                forall|y0: int| 0 <= y0 < rows@.len() ==> (#[trigger] rows@[y0])@.len() == w,
                y <= h,
                cells@.len() == y * w,
                forall|x0: int, y0: int|
                    0 <= y0 < y && 0 <= x0 < w ==> #[trigger] cells@[y0 * w + x0] == rows@[y0]@[x0],
            decreases h - y,
        {
            proof {
                assert(y * w + w <= h * w) by (nonlinear_arith)
                    requires
                        y < h,
                        w >= 0,
                {}
                assert(h * w == raster.area()) by (nonlinear_arith)
                    requires
                        w == raster.width,
                        h == raster.height,
                {}
            }
            let row = &rows[y];
            let mut x: usize = 0;
            while x < w
                invariant
                    raster.wf(),
                    w == raster.width,
                    h == raster.height,
                    rows@.len() == h,
                    forall|y0: int| 0 <= y0 < rows@.len() ==> (#[trigger] rows@[y0])@.len() == w,
                    y < h,
                    x <= w,
                    row == &rows@[y as int],
                    y * w + w <= h * w,
                    cells@.len() == y * w + x,
                    forall|x0: int, y0: int|
                        0 <= y0 < y && 0 <= x0 < w ==> #[trigger] cells@[y0 * w + x0]
                            == rows@[y0]@[x0],
                    forall|x0: int|
                        0 <= x0 < x ==> #[trigger] cells@[y * w + x0] == rows@[y as int]@[x0],
                decreases w - x,
            {
                cells.push(row[x]);
                proof {
                    assert forall|x0: int, y0: int|
                        0 <= y0 < y && 0 <= x0 < w implies #[trigger] cells@[y0 * w + x0]
                        == rows@[y0]@[x0] by {
                        assert(y0 * w + x0 < y * w) by (nonlinear_arith)
                            requires
                                0 <= y0 < y,
                                0 <= x0 < w,
                        {}
                    }
                }
                x = x + 1;
            }
            proof {
                assert((y + 1) * w == y * w + w) by (nonlinear_arith);
            }
            y = y + 1;
        }
        proof {
            assert(h * w == raster.area()) by (nonlinear_arith)
                requires
                    w == raster.width,
                    h == raster.height,
            {}
        }
        let out = Grid { raster, cells };
        proof {
            assert(out.cells.len() == out.cells@.len());
        }
        out
    }

    /// Direct spatial convolution: a new grid of the same dimensions whose
    /// every cell is combined from the boundary-skipped tap list centered on
    /// it. The input buffer is never written; the output buffer is fresh.
    pub fn convolve<Weight: Copy, F: Fn(Vec<Tap<Cell, Weight>>) -> Cell>(
        &self,
        kernel: &Kernel<Weight>,
        combine: &F,
    ) -> (out: Grid<Cell>)
        requires
            self.wf(),
            kernel.wf(),
            dims_fit(*self, *kernel),
            forall|v: Vec<Tap<Cell, Weight>>| #[trigger] call_requires(*combine, (v,)),
        ensures
            out.raster == self.raster,
            out.wf(),
            forall|x: int, y: int|
                self.raster.spec_is_inside(x, y) ==> convolved_cell(
                    *self,
                    *kernel,
                    *combine,
                    x,
                    y,
                    #[trigger] out.spec_cell(x, y),
                ),
    {
        let h = self.raster.height;
        let mut rows: Vec<Vec<Cell>> = Vec::new();
        let mut y: usize = 0;
        while y < h
            invariant
                self.wf(),
                kernel.wf(),
                dims_fit(*self, *kernel),
                forall|v: Vec<Tap<Cell, Weight>>| #[trigger] call_requires(*combine, (v,)),
                h == self.raster.height,
                y <= h,
                rows@.len() == y,
                forall|y0: int|
                    0 <= y0 < y ==> (#[trigger] rows@[y0])@.len() == self.raster.width,
                forall|x0: int, y0: int|
                    0 <= y0 < y && 0 <= x0 < self.raster.width ==> convolved_cell(
                        *self,
                        *kernel,
                        *combine,
                        x0,
                        y0,
                        #[trigger] rows@[y0]@[x0],
                    ),
            decreases h - y,
        {
            let row = self.convolve_row(kernel, y, combine);
            rows.push(row);
            y = y + 1;
        }
        proof {
            assert(self.cells.len() == self.cells@.len());
        }
        let out = Self::from_rows(self.raster, rows);
        out
    }
}

/// Relies on rayon's `into_par_iter` over a range together with `map` and
/// `collect_into_vec`: an indexed parallel map over `0..height` collects its
/// results in index order, so entry `y` of the result is what
/// `convolve_row` returns for row `y`. Each worker only reads the shared
/// grid and kernel and only writes its own row, so the rows need no
/// synchronization.
#[verifier::external_body]
fn par_convolve_rows<
    Cell: Copy + Send + Sync,
    Weight: Copy + Send + Sync,
    F: Fn(Vec<Tap<Cell, Weight>>) -> Cell + Sync,
>(
    grid: &Grid<Cell>,
    kernel: &Kernel<Weight>,
    combine: &F,
) -> (rows: Vec<Vec<Cell>>)
    requires
        grid.wf(),
        kernel.wf(),
        dims_fit(*grid, *kernel),
        forall|v: Vec<Tap<Cell, Weight>>| #[trigger] call_requires(*combine, (v,)),
    ensures
        rows@.len() == grid.raster.height,
        forall|y: int|
            0 <= y < grid.raster.height ==> (#[trigger] rows@[y])@.len() == grid.raster.width,
        forall|x: int, y: int|
            0 <= y < grid.raster.height && 0 <= x < grid.raster.width ==> convolved_cell(
                *grid,
                *kernel,
                *combine,
                x,
                y,
                #[trigger] rows@[y]@[x],
            ),
{
    let mut rows: Vec<Vec<Cell>> = Vec::new();
    (0..grid.raster.height).into_par_iter().map(|y| grid.convolve_row(kernel, y, combine))
        .collect_into_vec(&mut rows);
    rows
}

impl<Cell: Copy + Send + Sync> Grid<Cell> {
    /// Data-parallel spatial convolution: numerically the same algorithm as
    /// `convolve`, with the output partitioned into disjoint rows, each
    /// computed by an independent worker from the shared read-only input.
    /// Every output cell satisfies exactly the promise `convolve` makes, so
    /// the two strategies are interchangeable.
    pub fn convolve_par<Weight: Copy + Send + Sync, F: Fn(Vec<Tap<Cell, Weight>>) -> Cell + Sync>(
        &self,
        kernel: &Kernel<Weight>,
        combine: &F,
    ) -> (out: Grid<Cell>)
        requires
            self.wf(),
            kernel.wf(),
            dims_fit(*self, *kernel),
            forall|v: Vec<Tap<Cell, Weight>>| #[trigger] call_requires(*combine, (v,)),
        ensures
            out.raster == self.raster,
            out.wf(),
            forall|x: int, y: int|
                self.raster.spec_is_inside(x, y) ==> convolved_cell(
                    *self,
                    *kernel,
                    *combine,
                    x,
                    y,
                    #[trigger] out.spec_cell(x, y),
                ),
    {
        let rows = par_convolve_rows(self, kernel, combine);
        proof {
            assert(self.cells.len() == self.cells@.len());
        }
        let out = Self::from_rows(self.raster, rows);
        out
    }
}

/// A 1×1 kernel has exactly one tap at every pixel: the pixel itself, with
/// the kernel's single weight. A combining function that returns the cell of
/// a single tap of weight one therefore reproduces the input exactly.
pub proof fn lemma_identity_kernel_taps<Cell, Weight>(
    g: Grid<Cell>,
    k: Kernel<Weight>,
    x: int,
    y: int,
)
    requires
        g.wf(),
        k.wf(),
        k.grid.raster.width == 1,
        k.grid.raster.height == 1,
        g.raster.spec_is_inside(x, y),
    ensures
        tap_seq(g, k, x, y) =~= seq![
            Tap {
                kx: 0,
                ky: 0,
                index: g.raster.spec_index_of(x, y) as usize,
                cell: g.spec_cell(x, y),
                weight: k.spec_weight(0, 0),
            },
        ],
{
    assert(k.grid.raster.area() == 1);
    assert(k.radius_x() == 0 && k.radius_y() == 0);
    assert(tap_in_bounds(g, k, x, y, 0, 0));
    assert(taps_upto(g, k, x, y, 0) =~= Seq::empty());
    assert(tap_seq(g, k, x, y) =~= Seq::empty() + seq![tap_at(g, k, x, y, 0, 0)]);
}

/// Whether (x, y) lies in the interior of the grid with respect to kernel
/// `k`: the full kernel footprint centered there stays inside the raster.
pub open spec fn is_interior<Cell, Weight>(g: Grid<Cell>, k: Kernel<Weight>, x: int, y: int) -> bool {
    k.radius_x() <= x && x + k.radius_x() < g.raster.width && k.radius_y() <= y && y + k.radius_y()
        < g.raster.height
}

proof fn lemma_taps_upto_interior<Cell, Weight>(
    g: Grid<Cell>,
    k: Kernel<Weight>,
    x: int,
    y: int,
    n: int,
)
    requires
        g.wf(),
        k.wf(),
        is_interior(g, k, x, y),
        0 <= n <= k.grid.raster.area(),
    ensures
        taps_upto(g, k, x, y, n).len() == n,
        forall|i: int|
            0 <= i < n ==> #[trigger] taps_upto(g, k, x, y, n)[i] == tap_at(
                g,
                k,
                x,
                y,
                i % (k.grid.raster.width as int),
                i / (k.grid.raster.width as int),
            ),
    decreases n,
{
    let kw = k.grid.raster.width as int;
    let kh = k.grid.raster.height as int;
    if n > 0 {
        lemma_taps_upto_interior(g, k, x, y, n - 1);
        let kx = (n - 1) % kw;
        let ky = (n - 1) / kw;
        assert(0 <= kx < kw);
        assert(0 <= ky < kh) by (nonlinear_arith)
            requires
                0 <= n - 1 < kw * kh,
                ky == (n - 1) / kw,
                kw > 0,
        {}
        assert(kw == 2 * k.radius_x() + 1);
        assert(kh == 2 * k.radius_y() + 1);
        assert(tap_in_bounds(g, k, x, y, kx, ky));
    }
}

/// Interior pixels see the full kernel footprint: at every position whose
/// whole kernel footprint lies inside the raster, no tap is skipped, and
/// tap `i` of the list is kernel position `(i % kw, i / kw)` over its
/// source cell. Only pixels within the kernel radius of an edge lose taps
/// to the boundary-skip policy.
pub proof fn lemma_interior_full_footprint<Cell, Weight>(
    g: Grid<Cell>,
    k: Kernel<Weight>,
    x: int,
    y: int,
)
    requires
        g.wf(),
        k.wf(),
        is_interior(g, k, x, y),
    ensures
        tap_seq(g, k, x, y).len() == k.grid.raster.area(),
        forall|i: int|
            0 <= i < k.grid.raster.area() ==> #[trigger] tap_seq(g, k, x, y)[i] == tap_at(
                g,
                k,
                x,
                y,
                i % (k.grid.raster.width as int),
                i / (k.grid.raster.width as int),
            ),
{
    assert(k.grid.raster.area() >= 0) by (nonlinear_arith)
        requires
            k.grid.raster.width >= 0,
            k.grid.raster.height >= 0,
    {}
    lemma_taps_upto_interior(g, k, x, y, k.grid.raster.area());
}

/// The convolution contract pins the output down whenever the combining
/// function is deterministic in the tap values: if `f` admits at most one
/// result per tap list, two cells that both satisfy the convolution promise
/// for the same position are equal. Since the direct and the parallel
/// convolver promise exactly this of every output cell, their outputs agree
/// cell for cell for such an `f`.
pub proof fn lemma_convolved_cell_unique<Cell, Weight, F: Fn(Vec<Tap<Cell, Weight>>) -> Cell>(
    g: Grid<Cell>,
    k: Kernel<Weight>,
    f: F,
    x: int,
    y: int,
    c1: Cell,
    c2: Cell,
)
    requires
        forall|v1: Vec<Tap<Cell, Weight>>, v2: Vec<Tap<Cell, Weight>>, r1: Cell, r2: Cell|
            v1@ == v2@ && #[trigger] call_ensures(f, (v1,), r1) && #[trigger] call_ensures(
                f,
                (v2,),
                r2,
            ) ==> r1 == r2,
        convolved_cell(g, k, f, x, y, c1),
        convolved_cell(g, k, f, x, y, c2),
    ensures
        c1 == c2,
{
    let v1 = choose|v: Vec<Tap<Cell, Weight>>|
        v@ == tap_seq(g, k, x, y) && #[trigger] call_ensures(f, (v,), c1);
    let v2 = choose|v: Vec<Tap<Cell, Weight>>|
        v@ == tap_seq(g, k, x, y) && #[trigger] call_ensures(f, (v,), c2);
    assert(v1@ == v2@);
}

/// Interchangeability of the convolution strategies: two grids that both
/// satisfy the shared convolution contract for the same input, kernel and
/// combining function are equal cell for cell, as long as the combining
/// function is deterministic in the tap values. The direct and the parallel
/// convolver each establish that contract, so their outputs agree.
pub proof fn lemma_strategies_agree<Cell, Weight, F: Fn(Vec<Tap<Cell, Weight>>) -> Cell>(
    g: Grid<Cell>,
    k: Kernel<Weight>,
    f: F,
    a: Grid<Cell>,
    b: Grid<Cell>,
)
    requires
        forall|v1: Vec<Tap<Cell, Weight>>, v2: Vec<Tap<Cell, Weight>>, r1: Cell, r2: Cell|
            v1@ == v2@ && #[trigger] call_ensures(f, (v1,), r1) && #[trigger] call_ensures(
                f,
                (v2,),
                r2,
            ) ==> r1 == r2,
        forall|x: int, y: int|
            g.raster.spec_is_inside(x, y) ==> convolved_cell(
                g,
                k,
                f,
                x,
                y,
                #[trigger] a.spec_cell(x, y),
            ),
        forall|x: int, y: int|
            g.raster.spec_is_inside(x, y) ==> convolved_cell(
                g,
                k,
                f,
                x,
                y,
                #[trigger] b.spec_cell(x, y),
            ),
    ensures
        forall|x: int, y: int|
            g.raster.spec_is_inside(x, y) ==> #[trigger] a.spec_cell(x, y) == b.spec_cell(x, y),
{
    assert forall|x: int, y: int| g.raster.spec_is_inside(x, y) implies #[trigger] a.spec_cell(
        x,
        y,
    ) == b.spec_cell(x, y) by {
        lemma_convolved_cell_unique(g, k, f, x, y, a.spec_cell(x, y), b.spec_cell(x, y));
    }
}

/// The identity-kernel law: under a 1×1 kernel, every pixel's tap list is
/// the single tap holding that pixel's own cell, so a combining function
/// that returns the cell of a singleton tap list reproduces the input grid
/// exactly. (The weighted-sum combination has this property when the single
/// weight is one and the cell is already in gamut.)
pub proof fn lemma_identity_convolution<Cell, Weight, F: Fn(Vec<Tap<Cell, Weight>>) -> Cell>(
    g: Grid<Cell>,
    k: Kernel<Weight>,
    f: F,
    out: Grid<Cell>,
)
    requires
        g.wf(),
        k.wf(),
        k.grid.raster.width == 1,
        k.grid.raster.height == 1,
        forall|v: Vec<Tap<Cell, Weight>>, r: Cell|
            #[trigger] call_ensures(f, (v,), r) && v@.len() == 1 ==> r == v@[0].cell,
        forall|x: int, y: int|
            g.raster.spec_is_inside(x, y) ==> convolved_cell(
                g,
                k,
                f,
                x,
                y,
                #[trigger] out.spec_cell(x, y),
            ),
    ensures
        forall|x: int, y: int|
            g.raster.spec_is_inside(x, y) ==> #[trigger] out.spec_cell(x, y) == g.spec_cell(x, y),
{
    assert forall|x: int, y: int| g.raster.spec_is_inside(x, y) implies #[trigger] out.spec_cell(
        x,
        y,
    ) == g.spec_cell(x, y) by {
        lemma_identity_kernel_taps(g, k, x, y);
        let v = choose|v: Vec<Tap<Cell, Weight>>|
            v@ == tap_seq(g, k, x, y) && #[trigger] call_ensures(f, (v,), out.spec_cell(x, y));
        assert(v@.len() == 1);
        assert(v@[0].cell == g.spec_cell(x, y));
    }
}

/// The interior fixed-point law: on a uniform grid, every pixel whose full
/// kernel footprint lies inside the raster hands the combining function a
/// tap list of the full kernel length whose cells are all the uniform color
/// and whose weights are exactly the kernel's weights in row-major order.
/// A combining function that fixes the color on such a list (the weighted
/// sum under a kernel whose weights sum to one) therefore reproduces the
/// color exactly at every interior pixel; only pixels within the kernel
/// radius of an edge may differ.
pub proof fn lemma_interior_uniform_fixed_point<Cell, Weight, F: Fn(Vec<Tap<Cell, Weight>>) -> Cell>(
    g: Grid<Cell>,
    k: Kernel<Weight>,
    f: F,
    out: Grid<Cell>,
    c: Cell,
)
    requires
        g.wf(),
        k.wf(),
        forall|i: int| 0 <= i < g.cells@.len() ==> #[trigger] g.cells@[i] == c,
        forall|v: Vec<Tap<Cell, Weight>>, r: Cell|
            #[trigger] call_ensures(f, (v,), r) && v@.len() == k.grid.raster.area() && (forall|
                i: int,
            |
                0 <= i < v@.len() ==> (#[trigger] v@[i]).cell == c && v@[i].weight
                    == k.grid.cells@[i]) ==> r == c,
        forall|x: int, y: int|
            g.raster.spec_is_inside(x, y) ==> convolved_cell(
                g,
                k,
                f,
                x,
                y,
                #[trigger] out.spec_cell(x, y),
            ),
    ensures
        forall|x: int, y: int|
            is_interior(g, k, x, y) ==> #[trigger] out.spec_cell(x, y) == c,
{
    assert forall|x: int, y: int| is_interior(g, k, x, y) implies #[trigger] out.spec_cell(x, y)
        == c by {
        let kw = k.grid.raster.width as int;
        let kh = k.grid.raster.height as int;
        assert(kw * kh >= kw) by (nonlinear_arith)
            requires
                kw >= 0,
                kh >= 1,
        {}
        assert(g.raster.spec_is_inside(x, y));
        lemma_interior_full_footprint(g, k, x, y);
        assert(convolved_cell(g, k, f, x, y, out.spec_cell(x, y)));
        let v = choose|v: Vec<Tap<Cell, Weight>>|
            v@ == tap_seq(g, k, x, y) && #[trigger] call_ensures(f, (v,), out.spec_cell(x, y));
        assert forall|i: int| 0 <= i < v@.len() implies (#[trigger] v@[i]).cell == c && v@[i].weight
            == k.grid.cells@[i] by {
            let kx = i % kw;
            let ky = i / kw;
            assert(0 <= kx < kw);
            assert(0 <= ky < kh) by (nonlinear_arith)
                requires
                    0 <= i < kw * kh,
                    ky == i / kw,
                    kw > 0,
            {}
            assert(v@[i] == tap_at(g, k, x, y, kx, ky));
            let sx = x + kx - k.radius_x();
            let sy = y + ky - k.radius_y();
            assert(kw == 2 * k.radius_x() + 1);
            assert(kh == 2 * k.radius_y() + 1);
            assert(g.raster.spec_is_inside(sx, sy));
            g.raster.lemma_index_in_area(sx, sy);
            assert(v@[i].cell == g.cells@[g.raster.spec_index_of(sx, sy)]);
            k.grid.raster.lemma_index_in_area(kx, ky);
            assert(v@[i].weight == k.grid.cells@[ky * kw + kx]);
            assert(ky * kw + kx == i) by (nonlinear_arith)
                requires
                    kx == i % kw,
                    ky == i / kw,
                    kw > 0,
                    i >= 0,
            {}
        }
    }
}

} // verus!
