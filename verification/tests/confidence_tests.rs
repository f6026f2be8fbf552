use avail_light::confidence::{confidence_ppm, required_cell_count, MAX_CELL_COUNT, PPM_SCALE};

#[test]
fn confidence_values_match_formula() {
    assert_eq!(confidence_ppm(0), 0);
    assert_eq!(confidence_ppm(1), 500_000);
    assert_eq!(confidence_ppm(2), 750_000);
    assert_eq!(confidence_ppm(3), 875_000);
    assert_eq!(confidence_ppm(4), 937_500);
    assert_eq!(confidence_ppm(17), 999_993);
    assert_eq!(confidence_ppm(20), 1_000_000);
    assert_eq!(confidence_ppm(30), 1_000_000);
}

#[test]
fn confidence_never_exceeds_scale() {
    for c in 0..64 {
        assert!(confidence_ppm(c) <= PPM_SCALE);
    }
}

#[test]
fn required_cells_for_common_targets() {
    assert_eq!(required_cell_count(0), 1);
    assert_eq!(required_cell_count(500_000), 1);
    assert_eq!(required_cell_count(500_001), 2);
    assert_eq!(required_cell_count(920_000), 4);
    assert_eq!(required_cell_count(1_000_000), 20);
}

#[test]
fn required_cells_monotone_in_target() {
    let mut previous = required_cell_count(0);
    for target in [1_000u64, 250_000, 500_000, 875_000, 920_000, 990_000, 1_000_000] {
        let count = required_cell_count(target);
        assert!(count >= previous);
        assert!(count >= 1 && count <= MAX_CELL_COUNT);
        previous = count;
    }
}

#[test]
fn confidence_strictly_grows_below_twenty() {
    for c in 0..20u32 {
        assert!(confidence_ppm(c) < confidence_ppm(c + 1));
    }
}
