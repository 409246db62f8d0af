use stl_generator::part_index::model_color;

#[test]
fn palette_by_ten_thousands() {
    assert_eq!(model_color(10000), 0x00FF00);
    assert_eq!(model_color(19999), 0x00FF00);
    assert_eq!(model_color(20500), 0xFF2000);
    assert_eq!(model_color(30001), 0xEEEEEE);
    assert_eq!(model_color(40000), 0x0080FF);
    assert_eq!(model_color(51234), 0xFF8000);
    assert_eq!(model_color(60000), 0xFFFF00);
    assert_eq!(model_color(70000), 0xFF00FF);
    assert_eq!(model_color(89999), 0xFF80FF);
}

#[test]
fn scrambled_colours() {
    assert_eq!(model_color(0), 0xA7C381);
    assert_eq!(model_color(5), 6u32.wrapping_mul(0x274381) | 0x808080);
    assert_eq!(model_color(90000), 90001u32.wrapping_mul(0x274381) | 0x808080);
    assert_eq!(model_color(u32::MAX - 1), 0xFFFF_FFFFu32.wrapping_mul(0x274381) | 0x808080);
    for m in [0u32, 7, 9999, 90000, 123456, 4_000_000_000] {
        assert_eq!(model_color(m) & 0x808080, 0x808080);
    }
}
