use durer::interpolation::interpolate_int;

#[test]
fn test_interpolate_int() {
    let results = interpolate_int(0, 0, 10, 6);
    for result in results {
        println!("result: {}", result);
    }
}

#[test]
fn interpolate_int_rounds_each_value() {
    assert_eq!(interpolate_int(0, 0, 10, 6), vec![0, 1, 1, 2, 2, 3, 4, 4, 5, 5, 6]);
}

#[test]
fn interpolate_int_single_point() {
    assert_eq!(interpolate_int(3, 7, 3, 100), vec![7]);
}

#[test]
fn interpolate_int_backwards_range_is_empty() {
    assert_eq!(interpolate_int(5, 0, 2, 10), Vec::<i32>::new());
}

#[test]
fn interpolate_int_halves_round_away_from_zero() {
    assert_eq!(interpolate_int(0, 0, 2, 1), vec![0, 1, 1]);
    assert_eq!(interpolate_int(0, 0, 2, -1), vec![0, -1, -1]);
}

#[test]
fn interpolate_int_descending() {
    assert_eq!(interpolate_int(-2, 10, 2, 2), vec![10, 8, 6, 4, 2]);
}

#[test]
fn interpolate_int_reaches_both_ends() {
    let values = interpolate_int(-100, -37, 57, 1234);
    assert_eq!(values.len(), 158);
    assert_eq!(values[0], -37);
    assert_eq!(values[157], 1234);
    for pair in values.windows(2) {
        assert!(pair[0] <= pair[1]);
    }
}
