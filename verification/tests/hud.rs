use interact::hud::darken_fill;

#[test]
fn fill_darkened_to_seven_eighths() {
    assert_eq!(darken_fill([255, 128, 7, 0]), [223, 112, 6, 0]);
    assert_eq!(darken_fill([27, 27, 27, 248]), [23, 23, 23, 217]);
    assert_eq!(darken_fill([1, 8, 9, 16]), [0, 7, 7, 14]);
}
