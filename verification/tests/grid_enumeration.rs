use lighter_mm_dryrun::grid::{
    grid_combinations, grid_size, slot_label, summary_log_needs_rotation,
    GridError, MAX_GRID_COMBOS,
};

#[test]
fn two_axes_enumerate_last_axis_fastest() {
    let combos = grid_combinations(&vec![2, 3]).unwrap();
    assert_eq!(
        combos,
        vec![
            vec![0, 0],
            vec![0, 1],
            vec![0, 2],
            vec![1, 0],
            vec![1, 1],
            vec![1, 2],
        ]
    );
}

#[test]
fn readme_grid_has_every_combination_once() {
    // vol_to_half_spread x skew x c1_ticks, as in the README example: 8 x 5 x 13.
    let lens = vec![8, 5, 13];
    let combos = grid_combinations(&lens).unwrap();
    assert_eq!(combos.len(), 520);
    let mut seen = std::collections::HashSet::new();
    for c in &combos {
        assert_eq!(c.len(), 3);
        assert!(c[0] < 8 && c[1] < 5 && c[2] < 13);
        assert!(seen.insert(c.clone()));
    }
    assert_eq!(combos[0], vec![0, 0, 0]);
    assert_eq!(combos[13], vec![0, 1, 0]);
    assert_eq!(combos[65], vec![1, 0, 0]);
    assert_eq!(combos[519], vec![7, 4, 12]);
}

#[test]
fn single_value_axes_give_one_slot() {
    assert_eq!(grid_combinations(&vec![1]).unwrap(), vec![vec![0]]);
    assert_eq!(grid_combinations(&vec![1, 1, 1]).unwrap(), vec![vec![0, 0, 0]]);
}

#[test]
fn grid_without_axes_is_refused() {
    assert_eq!(grid_combinations(&vec![]), Err(GridError::NoAxes));
    assert_eq!(
        GridError::NoAxes.message(),
        "Grid config 'parameters' must contain at least one axis"
    );
}

#[test]
fn grid_limit_is_two_thousand() {
    assert_eq!(MAX_GRID_COMBOS, 2000);
    assert_eq!(grid_combinations(&vec![40, 50]).unwrap().len(), 2000);
    assert_eq!(grid_combinations(&vec![40, 50, 2]), Err(GridError::TooLarge(4000)));
    assert_eq!(
        GridError::TooLarge(2001).message(),
        "Grid too large: 2001 combos (max 2000)"
    );
}

#[test]
fn grid_size_is_product_of_axis_lengths() {
    assert_eq!(grid_size(&vec![]), 1);
    assert_eq!(grid_size(&vec![8, 5, 13]), 520);
    assert_eq!(grid_size(&vec![100_000, 100_000]), 10_000_000_000);
}

#[test]
fn combination_is_mixed_radix_digits() {
    let readme = grid_combinations(&vec![8, 5, 13]).unwrap();
    assert_eq!(readme[100], vec![1, 2, 9]);
    let decimal = grid_combinations(&vec![10, 10, 10]).unwrap();
    assert_eq!(decimal[472], vec![4, 7, 2]);
    assert_eq!(decimal[999], vec![9, 9, 9]);
}

#[test]
fn slot_labels_are_zero_padded() {
    assert_eq!(slot_label(0), "s000");
    assert_eq!(slot_label(7), "s007");
    assert_eq!(slot_label(42), "s042");
    assert_eq!(slot_label(999), "s999");
    assert_eq!(slot_label(1999), "s1999");
}

#[test]
fn summary_log_rotates_past_ten_mebibytes() {
    assert!(!summary_log_needs_rotation(0));
    assert!(!summary_log_needs_rotation(10 * 1024 * 1024));
    assert!(summary_log_needs_rotation(10 * 1024 * 1024 + 1));
}
