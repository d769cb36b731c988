use gridconv::Kernel;

#[test]
fn preset_dimensions_are_odd_squares() {
    let k3 = Kernel::gauss3();
    assert_eq!((k3.width(), k3.height()), (3, 3));
    let k5 = Kernel::gauss5();
    assert_eq!((k5.width(), k5.height()), (5, 5));
    let k7 = Kernel::gauss7();
    assert_eq!((k7.width(), k7.height()), (7, 7));
}

#[test]
fn preset_integer_sums_equal_scale() {
    assert_eq!(Kernel::gauss3().weight_total(), 16);
    assert_eq!(Kernel::gauss5().weight_total(), 256);
    assert_eq!(Kernel::gauss7().weight_total(), 4096);
}

#[test]
fn preset_float_weights_sum_to_one() {
    for preset in [Kernel::gauss3(), Kernel::gauss5(), Kernel::gauss7()] {
        let scale = preset.weight_total() as f32;
        let sum: f32 = preset.grid.cells.iter().map(|w| *w as f32 / scale).sum();
        assert!((sum - 1.0).abs() < 1e-6);
    }
}

#[test]
fn gauss3_exact_table() {
    let k = Kernel::gauss3();
    assert_eq!(k.grid.cells, vec![1, 2, 1, 2, 4, 2, 1, 2, 1]);
    assert_eq!(*k.get(1, 1), 4);
    assert_eq!(*k.get(0, 0), 1);
}

#[test]
fn gauss5_center_row_and_column() {
    let k = Kernel::gauss5();
    assert_eq!(*k.get(2, 2), 36);
    assert_eq!(*k.get(0, 2), 6);
    assert_eq!(*k.get(2, 0), 6);
    assert_eq!(*k.get(4, 4), 1);
}
