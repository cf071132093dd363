use pulse::decimal::usize_to_decimal;

#[test]
fn decimal_matches_display() {
    for n in [0usize, 7, 10, 99, 100, 1_234_567_890, usize::MAX] {
        assert_eq!(usize_to_decimal(n), n.to_string());
    }
}
