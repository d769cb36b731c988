use rustfft::num_complex::Complex;
use rustfft::FftPlanner;

use gridconv::convolve::Tap;
use gridconv::fft::padded_raster;
use gridconv::random::Rgb8;
use gridconv::Grid;
use gridconv::Kernel;

#[derive(Clone, Copy, Debug, PartialEq)]
struct Rgba {
    r: f32,
    g: f32,
    b: f32,
    a: f32,
}

fn combine(taps: Vec<Tap<Rgba, f32>>) -> Rgba {
    let mut r = 0.0f32;
    let mut g = 0.0f32;
    let mut b = 0.0f32;
    let mut a = 0.0f32;
    for t in taps {
        r += t.cell.r * t.weight;
        g += t.cell.g * t.weight;
        b += t.cell.b * t.weight;
        a += t.cell.a * t.weight;
    }
    Rgba {
        r: r.clamp(0.0, 1.0),
        g: g.clamp(0.0, 1.0),
        b: b.clamp(0.0, 1.0),
        a: a.clamp(0.0, 1.0),
    }
}

fn float_grid(levels: &Grid<Rgb8>) -> Grid<Rgba> {
    let cells = levels
        .cells
        .iter()
        .map(|c| Rgba {
            r: c.r as f32 / 255.0,
            g: c.g as f32 / 255.0,
            b: c.b as f32 / 255.0,
            a: 1.0,
        })
        .collect();
    Grid::new(levels.width(), levels.height(), cells).unwrap()
}

fn float_kernel(preset: &Kernel<u32>) -> Kernel<f32> {
    let scale = preset.weight_total() as f32;
    let weights: Vec<f32> = preset.grid.cells.iter().map(|w| *w as f32 / scale).collect();
    Kernel::new(Grid::new(preset.width(), preset.height(), weights).unwrap()).unwrap()
}

/// Full linear convolution by transform: zero-pad to grid + kernel - 1 per
/// axis, transform, multiply position by position, transform back, then
/// read the window re-centered on the kernel center, normalized and
/// clamped. The index geometry (padding, embedding, re-centering) is the
/// library's; the transform and the complex arithmetic are rustfft's.
fn convolve_fft(g: &Grid<Rgba>, k: &Kernel<f32>) -> Grid<Rgba> {
    let padded = padded_raster(g.raster, k.grid.raster);
    let n = padded.width * padded.height;
    let mut planner = FftPlanner::new();
    let fft = planner.plan_fft_forward(n);
    let ifft = planner.plan_fft_inverse(n);
    let zero = Complex::new(0.0f32, 0.0);

    let embed = |chan: Grid<Complex<f32>>| -> Vec<Complex<f32>> {
        let mut cells = chan.pad_embed(padded, zero).cells;
        fft.process(&mut cells);
        cells
    };
    let kernel_grid = Grid::new(
        padded.width,
        padded.height,
        embed(k.grid.map(&|w: f32| Complex::new(w, 0.0))),
    )
    .unwrap();

    let channels: Vec<Vec<Complex<f32>>> = [
        g.map(&|c: Rgba| Complex::new(c.r, 0.0)),
        g.map(&|c: Rgba| Complex::new(c.g, 0.0)),
        g.map(&|c: Rgba| Complex::new(c.b, 0.0)),
        g.map(&|c: Rgba| Complex::new(c.a, 0.0)),
    ]
    .into_iter()
    .map(|chan| {
        let freq = Grid::new(padded.width, padded.height, embed(chan)).unwrap();
        let mut product = freq
            .pointwise_with(&kernel_grid, &|a: Complex<f32>, b: Complex<f32>| a * b)
            .cells;
        ifft.process(&mut product);
        let full = Grid::new(padded.width, padded.height, product).unwrap();
        let window = full.extract_centered(g.raster, k.center());
        window.cells.iter().map(|c| *c / n as f32).collect()
    })
    .collect();

    let cells = (0..g.cells.len())
        .map(|i| Rgba {
            r: channels[0][i].re.clamp(0.0, 1.0),
            g: channels[1][i].re.clamp(0.0, 1.0),
            b: channels[2][i].re.clamp(0.0, 1.0),
            a: channels[3][i].re.clamp(0.0, 1.0),
        })
        .collect();
    Grid::new(g.width(), g.height(), cells).unwrap()
}

#[test]
fn fft_agrees_with_direct_on_interior() {
    let g = float_grid(&Grid::new_random(24, 16).unwrap());
    let k = float_kernel(&Kernel::gauss5());
    let radius = 2usize;
    let direct = g.convolve(&k, &combine);
    let transformed = convolve_fft(&g, &k);
    assert_eq!(transformed.width(), g.width());
    assert_eq!(transformed.height(), g.height());
    for y in radius..(g.height() - radius) {
        for x in radius..(g.width() - radius) {
            let d = direct.get(x, y);
            let f = transformed.get(x, y);
            assert!((d.r - f.r).abs() < 1e-3, "r at ({x},{y}): {} vs {}", d.r, f.r);
            assert!((d.g - f.g).abs() < 1e-3, "g at ({x},{y}): {} vs {}", d.g, f.g);
            assert!((d.b - f.b).abs() < 1e-3, "b at ({x},{y}): {} vs {}", d.b, f.b);
            assert!((d.a - f.a).abs() < 1e-3, "a at ({x},{y}): {} vs {}", d.a, f.a);
        }
    }
}

#[test]
fn fft_identity_kernel_on_interior() {
    let g = float_grid(&Grid::new_random(9, 7).unwrap());
    let k = Kernel::new(Grid::new(1, 1, vec![1.0f32]).unwrap()).unwrap();
    let transformed = convolve_fft(&g, &k);
    // A 1x1 identity kernel has radius zero: every pixel is interior.
    for y in 0..g.height() {
        for x in 0..g.width() {
            let a = g.get(x, y);
            let b = transformed.get(x, y);
            assert!((a.r - b.r).abs() < 1e-3);
            assert!((a.g - b.g).abs() < 1e-3);
            assert!((a.b - b.b).abs() < 1e-3);
            assert!((a.a - b.a).abs() < 1e-3);
        }
    }
}
