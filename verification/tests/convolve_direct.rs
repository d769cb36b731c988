use gridconv::convolve::Tap;
use gridconv::Grid;
use gridconv::Kernel;

#[derive(Clone, Copy, Debug, PartialEq)]
struct Rgba {
    r: f32,
    g: f32,
    b: f32,
    a: f32,
}

fn rgba(r: f32, g: f32, b: f32, a: f32) -> Rgba {
    Rgba { r, g, b, a }
}

/// The per-pixel combination the spatial convolvers are meant for:
/// accumulate cell * weight over the surviving taps, then clamp to [0, 1].
fn combine(taps: Vec<Tap<Rgba, f32>>) -> Rgba {
    let mut c = rgba(0.0, 0.0, 0.0, 0.0);
    for t in taps {
        c.r += t.cell.r * t.weight;
        c.g += t.cell.g * t.weight;
        c.b += t.cell.b * t.weight;
        c.a += t.cell.a * t.weight;
    }
    rgba(
        c.r.clamp(0.0, 1.0),
        c.g.clamp(0.0, 1.0),
        c.b.clamp(0.0, 1.0),
        c.a.clamp(0.0, 1.0),
    )
}

fn float_kernel(cells: Vec<f32>, w: usize, h: usize) -> Kernel<f32> {
    Kernel::new(Grid::new(w, h, cells).unwrap()).unwrap()
}

fn golden_grid() -> Grid<Rgba> {
    Grid::new(
        3,
        3,
        vec![
            rgba(1.0, 0.0, 0.0, 1.0),
            rgba(0.0, 1.0, 0.0, 1.0),
            rgba(0.0, 0.0, 1.0, 1.0),
            rgba(1.0, 1.0, 0.0, 1.0),
            rgba(0.0, 1.0, 1.0, 1.0),
            rgba(1.0, 0.0, 1.0, 1.0),
            rgba(1.0, 1.0, 1.0, 1.0),
            rgba(0.0, 0.0, 0.0, 1.0),
            rgba(0.5, 0.5, 0.5, 1.0),
        ],
    )
    .unwrap()
}

#[test]
fn identity_kernel_returns_input_unchanged() {
    let g = golden_grid();
    let identity = float_kernel(vec![1.0], 1, 1);
    let out = g.convolve(&identity, &combine);
    assert_eq!(out.width(), g.width());
    assert_eq!(out.height(), g.height());
    for y in 0..3 {
        for x in 0..3 {
            assert_eq!(*out.get(x, y), *g.get(x, y));
        }
    }
}

#[test]
fn interior_fixed_point_for_normalized_kernel() {
    let c = rgba(0.25, 0.5, 0.75, 1.0);
    let g = Grid::new(5, 5, vec![c; 25]).unwrap();
    let preset = Kernel::gauss3();
    let scale = preset.weight_total() as f32;
    let weights: Vec<f32> = preset.grid.cells.iter().map(|w| *w as f32 / scale).collect();
    let k = float_kernel(weights, 3, 3);
    let out = g.convolve(&k, &combine);
    // Interior pixels (full 3x3 footprint inside) reproduce the color.
    for y in 1..4 {
        for x in 1..4 {
            let p = out.get(x, y);
            assert!((p.r - c.r).abs() < 1e-6);
            assert!((p.g - c.g).abs() < 1e-6);
            assert!((p.b - c.b).abs() < 1e-6);
            assert!((p.a - c.a).abs() < 1e-6);
        }
    }
    // Border pixels lose taps and darken; the corner keeps weights
    // (4 + 2 + 2 + 1) / 16 = 9/16 of the mass, not renormalized.
    let corner = out.get(0, 0);
    assert!((corner.r - c.r * 9.0 / 16.0).abs() < 1e-6);
    assert!((corner.g - c.g * 9.0 / 16.0).abs() < 1e-6);
    assert!((corner.b - c.b * 9.0 / 16.0).abs() < 1e-6);
    for y in 0..5 {
        for x in 0..5 {
            let p = out.get(x, y);
            assert!(p.r <= c.r + 1e-6);
            assert!(p.g <= c.g + 1e-6);
            assert!(p.b <= c.b + 1e-6);
        }
    }
}

#[test]
fn golden_box_average_scenario() {
    let g = golden_grid();
    let k = float_kernel(vec![1.0 / 9.0; 9], 3, 3);
    let out = g.convolve(&k, &combine);
    // Center pixel: unweighted average of all nine cells.
    let center = out.get(1, 1);
    assert!((center.r - 4.5 / 9.0).abs() < 1e-6);
    assert!((center.g - 4.5 / 9.0).abs() < 1e-6);
    assert!((center.b - 4.5 / 9.0).abs() < 1e-6);
    assert!((center.a - 1.0).abs() < 1e-6);
    // Top-left corner: only the four in-bounds taps contribute, without
    // renormalization: sources (0,0), (1,0), (0,1), (1,1).
    let corner = out.get(0, 0);
    assert!((corner.r - 2.0 / 9.0).abs() < 1e-6);
    assert!((corner.g - 3.0 / 9.0).abs() < 1e-6);
    assert!((corner.b - 1.0 / 9.0).abs() < 1e-6);
    assert!((corner.a - 4.0 / 9.0).abs() < 1e-6);
    // Bottom-right corner: sources (1,1), (2,1), (1,2), (2,2).
    let br = out.get(2, 2);
    assert!((br.r - 1.5 / 9.0).abs() < 1e-6);
    assert!((br.g - 1.5 / 9.0).abs() < 1e-6);
    assert!((br.b - 2.5 / 9.0).abs() < 1e-6);
    assert!((br.a - 4.0 / 9.0).abs() < 1e-6);
}
