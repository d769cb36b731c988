use gridconv::convolve::Tap;
use gridconv::random::Rgb8;
use gridconv::Grid;
use gridconv::Kernel;

#[derive(Clone, Copy, Debug, PartialEq)]
struct Rgba {
    r: f32,
    g: f32,
    b: f32,
    a: f32,
}

fn combine(taps: Vec<Tap<Rgba, f32>>) -> Rgba {
    let mut r = 0.0f32;
    let mut g = 0.0f32;
    let mut b = 0.0f32;
    let mut a = 0.0f32;
    for t in taps {
        r += t.cell.r * t.weight;
        g += t.cell.g * t.weight;
        b += t.cell.b * t.weight;
        a += t.cell.a * t.weight;
    }
    Rgba {
        r: r.clamp(0.0, 1.0),
        g: g.clamp(0.0, 1.0),
        b: b.clamp(0.0, 1.0),
        a: a.clamp(0.0, 1.0),
    }
}

fn float_grid(levels: &Grid<Rgb8>) -> Grid<Rgba> {
    let cells = levels
        .cells
        .iter()
        .map(|c| Rgba {
            r: c.r as f32 / 255.0,
            g: c.g as f32 / 255.0,
            b: c.b as f32 / 255.0,
            a: 1.0,
        })
        .collect();
    Grid::new(levels.width(), levels.height(), cells).unwrap()
}

fn float_kernel(preset: &Kernel<u32>) -> Kernel<f32> {
    let scale = preset.weight_total() as f32;
    let weights: Vec<f32> = preset.grid.cells.iter().map(|w| *w as f32 / scale).collect();
    Kernel::new(Grid::new(preset.width(), preset.height(), weights).unwrap()).unwrap()
}

#[test]
fn direct_and_parallel_agree_per_pixel() {
    let g = float_grid(&Grid::new_random(32, 17).unwrap());
    let k = float_kernel(&Kernel::gauss5());
    let direct = g.convolve(&k, &combine);
    let parallel = g.convolve_par(&k, &combine);
    assert_eq!(parallel.width(), direct.width());
    assert_eq!(parallel.height(), direct.height());
    for y in 0..direct.height() {
        for x in 0..direct.width() {
            let d = direct.get(x, y);
            let p = parallel.get(x, y);
            assert!((d.r - p.r).abs() <= 1e-5);
            assert!((d.g - p.g).abs() <= 1e-5);
            assert!((d.b - p.b).abs() <= 1e-5);
            assert!((d.a - p.a).abs() <= 1e-5);
        }
    }
}

#[test]
fn parallel_reproduces_golden_corner() {
    // The same concrete scenario as the direct convolver's golden test,
    // through the parallel strategy: the strategies are interchangeable.
    let cells = vec![
        Rgba { r: 1.0, g: 0.0, b: 0.0, a: 1.0 },
        Rgba { r: 0.0, g: 1.0, b: 0.0, a: 1.0 },
        Rgba { r: 0.0, g: 0.0, b: 1.0, a: 1.0 },
        Rgba { r: 1.0, g: 1.0, b: 0.0, a: 1.0 },
        Rgba { r: 0.0, g: 1.0, b: 1.0, a: 1.0 },
        Rgba { r: 1.0, g: 0.0, b: 1.0, a: 1.0 },
        Rgba { r: 1.0, g: 1.0, b: 1.0, a: 1.0 },
        Rgba { r: 0.0, g: 0.0, b: 0.0, a: 1.0 },
        Rgba { r: 0.5, g: 0.5, b: 0.5, a: 1.0 },
    ];
    let g = Grid::new(3, 3, cells).unwrap();
    let k = Kernel::new(Grid::new(3, 3, vec![1.0f32 / 9.0; 9]).unwrap()).unwrap();
    let out = g.convolve_par(&k, &combine);
    let center = out.get(1, 1);
    assert!((center.r - 4.5 / 9.0).abs() < 1e-6);
    assert!((center.g - 4.5 / 9.0).abs() < 1e-6);
    assert!((center.b - 4.5 / 9.0).abs() < 1e-6);
    assert!((center.a - 1.0).abs() < 1e-6);
    let corner = out.get(0, 0);
    assert!((corner.r - 2.0 / 9.0).abs() < 1e-6);
    assert!((corner.g - 3.0 / 9.0).abs() < 1e-6);
    assert!((corner.b - 1.0 / 9.0).abs() < 1e-6);
    assert!((corner.a - 4.0 / 9.0).abs() < 1e-6);
}
