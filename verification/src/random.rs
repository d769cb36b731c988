//! Deterministic pseudo-random grid initialization for the demo/test path.
//!
//! The fill draws its channel levels from a ChaCha8 stream seeded with a
//! fixed all-zero key, so the same dimensions always produce the same grid.
//! Levels are 8-bit: a consumer maps a level `v` to the real-valued channel
//! `v / 255` and supplies full alpha.

use vstd::prelude::*;

use rand::Rng;
use rand::SeedableRng;

use crate::grid::Grid;
use crate::raster::Raster;

verus! {

/// One pixel of the random fill: three 8-bit channel levels.
#[derive(Clone, Copy, Debug, PartialEq, Eq, Structural)]
pub struct Rgb8 {
    pub r: u8,
    pub g: u8,
    pub b: u8,
}

/// The first `n` channel levels of the fixed-seed ChaCha8 draw stream: a
/// function of the count alone, since the seed is a fixed constant.
pub uninterp spec fn chacha_levels(n: nat) -> Seq<u8>;

/// Relies on `rand_chacha::ChaCha8Rng::from_seed` and `rand::Rng::gen_range`:
/// ChaCha8 is a deterministic keyed stream cipher core, so with the fixed
/// all-zero seed the sequence of draws is a function of the draw count
/// alone, and `gen_range(0..255)` samples uniformly from the half-open
/// range, so every level is strictly below 255.
#[verifier::external_body]
fn chacha_fill(n: usize) -> (levels: Vec<u8>)
    ensures
        levels@.len() == n,
        levels@ == chacha_levels(n as nat),
        forall|i: int| 0 <= i < n ==> levels@[i] < 255,
{
    let mut rng = rand_chacha::ChaCha8Rng::from_seed([0; 32]);
    let mut levels = Vec::with_capacity(n);
    for _ in 0..n {
        levels.push(rng.gen_range(0..255) as u8);
    }
    levels
}

/// The cells of the random fill for a `width` by `height` grid: pixel `i`
/// in row-major order takes levels `3i`, `3i + 1`, `3i + 2` of the stream.
pub open spec fn spec_random_cells(width: int, height: int) -> Seq<Rgb8> {
    Seq::new(
        (width * height) as nat,
        |i: int|
            Rgb8 {
                r: chacha_levels((3 * width * height) as nat)[3 * i],
                g: chacha_levels((3 * width * height) as nat)[3 * i + 1],
                b: chacha_levels((3 * width * height) as nat)[3 * i + 2],
            },
    )
}

impl Grid<Rgb8> {
    /// Builds a grid of the given dimensions filled from the fixed-seed
    /// draw stream: three levels per pixel, pixels in row-major order.
    /// Rejects a zero dimension and dimensions whose level count does not
    /// fit the machine.
    pub fn new_random(width: usize, height: usize) -> (r: Option<Grid<Rgb8>>)
        ensures
            r is Some <==> width > 0 && height > 0 && 3 * width * height <= usize::MAX,
            r is Some ==> r->Some_0.wf() && r->Some_0.raster == (Raster { width, height })
                && r->Some_0.cells@ == spec_random_cells(width as int, height as int),
    {
        if width == 0 || height == 0 {
            return None;
        }
        let area = match width.checked_mul(height) {
            Some(area) => area,
            None => {
                proof {
                    assert(3 * width * height > usize::MAX) by (nonlinear_arith)
                        requires
                            width * height > usize::MAX,
                            width > 0,
                            height > 0,
                    {}
                }
                return None;
            },
        };
        let n3 = match area.checked_mul(3) {
            Some(n3) => n3,
            None => {
                proof {
                    assert(3 * width * height == (width * height) * 3) by (nonlinear_arith);
                }
                return None;
            },
        };
        proof {
            assert(3 * width * height == (width * height) * 3) by (nonlinear_arith);
        }
        let levels = chacha_fill(n3);
        let mut cells: Vec<Rgb8> = Vec::new();
        let mut i: usize = 0;
        while i < area
            invariant
                area == width * height,
                n3 == 3 * width * height,
                n3 == 3 * area,
                n3 <= usize::MAX,
                levels@.len() == n3,
                levels@ == chacha_levels(n3 as nat),
                i <= area,
                cells@.len() == i,
                forall|k: int|
                    0 <= k < i ==> #[trigger] cells@[k] == spec_random_cells(
                        width as int,
                        height as int,
                    )[k],
            decreases area - i,
        {
            let r = levels[3 * i];
            let g = levels[3 * i + 1];
            let b = levels[3 * i + 2];
            cells.push(Rgb8 { r, g, b });
            i = i + 1;
        }
        let grid = Grid { raster: Raster { width, height }, cells };
        proof {
            assert(grid.cells.len() == grid.cells@.len());
            assert(grid.cells@ =~= spec_random_cells(width as int, height as int));
        }
        Some(grid)
    }
}

/// The random fill is deterministic: it is a function of the fixed seed and
/// the dimensions alone, so two grids built with the same dimensions are
/// element-wise identical.
pub proof fn lemma_random_fill_deterministic(a: Grid<Rgb8>, b: Grid<Rgb8>, width: int, height: int)
    requires
        a.cells@ == spec_random_cells(width, height),
        b.cells@ == spec_random_cells(width, height),
    ensures
        a.cells@ == b.cells@,
{
}

} // verus!
