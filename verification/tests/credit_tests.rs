use peer_tracker::credited;

#[test]
fn credited_neutral_factor_is_identity() {
    assert_eq!(credited(12345, 100), 12345);
    assert_eq!(credited(0, 100), 0);
    assert_eq!(credited(u64::MAX, 100), u64::MAX);
}

#[test]
fn credited_zero_factor_discounts_everything() {
    assert_eq!(credited(0, 0), 0);
    assert_eq!(credited(1, 0), 0);
    assert_eq!(credited(u64::MAX, 0), 0);
}

#[test]
fn credited_double_factor_doubles() {
    assert_eq!(credited(1000, 200), 2000);
}

#[test]
fn credited_rounds_down() {
    assert_eq!(credited(999, 50), 499);
    assert_eq!(credited(1, 150), 1);
    assert_eq!(credited(3, 150), 4);
}

#[test]
fn credited_saturates_instead_of_wrapping() {
    assert_eq!(credited(u64::MAX, 255), u64::MAX);
    assert_eq!(credited(u64::MAX, 101), u64::MAX);
}
