use stl_generator::bitmask::{count_ones, ilog2, mask_from_sides, mask_shape, matches_sides, MaskShape};

#[test]
fn count_ones_counts_set_bits() {
    assert_eq!(count_ones(0), 0);
    assert_eq!(count_ones(0b1011), 3);
    assert_eq!(count_ones(0x8000_0000), 1);
    assert_eq!(count_ones(u32::MAX), 32);
    for x in [0u32, 1, 7, 0x1234_5678, 0xdead_beef, u32::MAX] {
        assert_eq!(count_ones(x), x.count_ones());
    }
}

#[test]
fn ilog2_finds_top_bit() {
    assert_eq!(ilog2(1), 0);
    assert_eq!(ilog2(2), 1);
    assert_eq!(ilog2(10), 3);
    assert_eq!(ilog2(0x8000_0000), 31);
    assert_eq!(ilog2(u32::MAX), 31);
    for x in [1u32, 3, 255, 256, 0x1234_5678] {
        assert_eq!(ilog2(x), x.ilog2());
    }
}

#[test]
fn mask_from_sides_sets_one_bit_per_side() {
    assert_eq!(mask_from_sides(&vec![]), 0);
    assert_eq!(mask_from_sides(&vec![true]), 1);
    assert_eq!(mask_from_sides(&vec![false, true, true]), 0b110);
    assert_eq!(mask_from_sides(&vec![true; 32]), u32::MAX);
    let mut last = vec![false; 32];
    last[31] = true;
    assert_eq!(mask_from_sides(&last), 0x8000_0000);
}

#[test]
fn mask_has_one_bit_per_holding_side() {
    let sides = vec![true, false, true, true, false, false, true, false];
    let mask = mask_from_sides(&sides);
    assert_eq!(count_ones(mask), 4);
    assert!(matches_sides(mask, &sides));
}

#[test]
fn matches_sides_compares_each_axis() {
    assert!(matches_sides(0b101, &vec![true, false, true]));
    assert!(!matches_sides(0b101, &vec![true, true, true]));
    assert!(!matches_sides(0b001, &vec![true, false, true]));
    assert!(matches_sides(0b1000, &vec![false, false, false]));
    assert!(matches_sides(12345, &vec![]));
}

#[test]
fn mask_shape_classifies_by_set_bits() {
    assert!(matches!(mask_shape(0b101), MaskShape::Pair { high: 2, low: 0 }));
    assert!(matches!(mask_shape(0x8000_0001), MaskShape::Pair { high: 31, low: 0 }));
    assert!(matches!(mask_shape(0b1100_0000), MaskShape::Pair { high: 7, low: 6 }));
    assert!(matches!(mask_shape(0b1111), MaskShape::Quad));
    assert!(matches!(mask_shape(0b1010_1010), MaskShape::Quad));
    assert!(matches!(mask_shape(0), MaskShape::Other));
    assert!(matches!(mask_shape(1), MaskShape::Other));
    assert!(matches!(mask_shape(0b111), MaskShape::Other));
    assert!(matches!(mask_shape(u32::MAX), MaskShape::Other));
}

#[test]
fn pair_shape_rebuilds_the_mask() {
    for index in [0b11u32, 0b1001, 0b1000_0010, 0x4000_0100] {
        match mask_shape(index) {
            MaskShape::Pair { high, low } => {
                assert!(low < high);
                assert_eq!((1u32 << high) | (1u32 << low), index);
            }
            _ => panic!("two bits make a pair"),
        }
    }
}
