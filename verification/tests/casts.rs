use rasterizer::idx_usize_isize;

#[test]
fn viewmodel_float_cast_usize() {
    assert!(-13.04 as usize == 0);
}

#[test]
fn viewmodel_negint_cast_usize() {
    assert!(34_i32 as usize == 34);
    assert!(-34_i32 as usize > 34);
}

#[test]
fn offset_below_zero_wraps_like_the_cast() {
    let (x, y) = idx_usize_isize(0, 5, -1, -2);
    assert_eq!(x, -1_isize as usize);
    assert_eq!(y, 3);
}
