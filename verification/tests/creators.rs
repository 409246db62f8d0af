use stl_generator::axle_tool_creator::{AxleToolCreator, StickerProbe};
use stl_generator::octo_mixup_creator::{OctoMixupCreator, ShellProbe, Zone};
use stl_generator::roach_creator::{RoachCreator, RoachProbe};

#[test]
fn axle_tool_counts() {
    let c: AxleToolCreator<(f32, f32)> = AxleToolCreator::with_rolls(vec![(1.0, 2.0)]);
    assert_eq!(AxleToolCreator::<(f32, f32)>::get_quality(), 1);
    assert_eq!(c.faces(), 7);
    assert_eq!(c.get_count(0), 2);
    assert_eq!(c.get_count(3), 1);
    assert_eq!(c.get_name(2), None);
    assert_eq!(c.get_part_index((0.0f32, 1.0f32, 2.0f32)), 0);
    assert_eq!(c.rolls().len(), 1);
    assert_eq!(c.outline_of(0), 0);
    assert_eq!(c.outline_of(5), 5);
    assert_eq!(c.outline_of(6), 6);
    assert_eq!(c.outline_of(100), 6);
}

#[test]
fn octo_mixup_flat_parts() {
    let c = OctoMixupCreator::new();
    assert_eq!(c.faces(), 0);
    assert_eq!(c.get_sticker_index((3.0f32, 4.0f32), 1), 0);
    assert_eq!(c.axis().len(), 8);
    assert_eq!(c.axis()[0], (1, 1, 1));
    assert_eq!(c.axis()[7], (-1, -1, -1));
    assert_eq!(c.side_mask(&vec![true, false, true, false, false, false, false, true]), 0b1000_0101);
    assert_eq!(c.side_mask(&vec![true; 8]), 255);
}

#[test]
fn octo_mixup_settles_parts() {
    let c = OctoMixupCreator::new();
    let same = vec![true, true, false, false, false, false, false, false];
    let other = vec![true, false, true, false, false, false, false, false];
    assert_eq!(c.settle_part(0b11, &vec![same.clone(), same.clone()]), 0b11);
    assert_eq!(c.settle_part(0b11, &vec![same.clone(), other.clone()]), 0);
    assert_eq!(c.settle_part(0b1111, &vec![]), 0b1111);
    assert_eq!(c.settle_part(0b1, &vec![]), 0);
    assert_eq!(c.settle_part(0b111, &vec![]), 0);
    assert_eq!(c.settle_part(0, &vec![]), 0);
}

#[test]
fn roach_flat_parts() {
    let c = RoachCreator::new();
    assert_eq!(c.faces(), 0);
    assert_eq!(c.get_sticker_index((3.0f32, 4.0f32), 0), 0);
    let probe = |in_layer, in_body, in_legs: Vec<bool>| RoachProbe { in_layer, in_body, in_legs };
    assert_eq!(c.get_part_index(&probe(false, true, vec![true])), 0);
    assert_eq!(c.get_part_index(&probe(true, true, vec![])), 1);
    assert_eq!(c.get_part_index(&probe(true, false, vec![false, false, true])), 1);
    assert_eq!(c.get_part_index(&probe(true, false, vec![false, false])), 0);
}

fn sticker(tests: Vec<bool>, track: Vec<bool>) -> StickerProbe {
    StickerProbe { tests, track }
}

#[test]
fn axle_tool_stickers() {
    let c: AxleToolCreator<(f32, f32)> = AxleToolCreator::with_rolls(vec![(0.0, 0.0), (1.0, 0.0), (2.0, 0.0)]);
    assert_eq!(c.get_sticker_index(&sticker(vec![false, false, false], vec![]), 0), 1);
    assert_eq!(c.get_sticker_index(&sticker(vec![false, true, false], vec![]), 0), 0);
    assert_eq!(c.get_sticker_index(&sticker(vec![true, true], vec![]), 1), 1);
    assert_eq!(c.get_sticker_index(&sticker(vec![true, false], vec![]), 2), 0);
    assert_eq!(c.get_sticker_index(&sticker(vec![false, false, false, true], vec![]), 3), 0);
    assert_eq!(c.get_sticker_index(&sticker(vec![false, true, true], vec![]), 4), 1);
    assert_eq!(c.get_sticker_index(&sticker(vec![false, true, false], vec![]), 4), 0);
    assert_eq!(c.get_sticker_index(&sticker(vec![false, false, true], vec![]), 4), 1);
    assert_eq!(c.get_sticker_index(&sticker(vec![true, false, true], vec![]), 4), 0);
    assert_eq!(c.get_sticker_index(&sticker(vec![false, false, false], vec![false, false]), 5), 1);
    assert_eq!(c.get_sticker_index(&sticker(vec![false, false, false], vec![false, true]), 5), 0);
    let late = sticker(vec![false, false, false, false, false, true], vec![]);
    assert_eq!(c.get_sticker_index(&late, 6), 0);
    assert_eq!(c.get_sticker_index(&late, 9), c.get_sticker_index(&late, 6));
    let clear = sticker(vec![false; 6], vec![]);
    assert_eq!(c.get_sticker_index(&clear, 7), 1);
}

#[test]
fn octo_mixup_parts() {
    let c = OctoMixupCreator::new();
    let probe = |near_axis, zone, sides: Vec<bool>, rotations: Vec<Vec<bool>>| ShellProbe { near_axis, zone, sides, rotations };
    let pair = vec![true, true, false, false, false, false, false, false];
    let quad = vec![true, true, true, true, false, false, false, false];
    assert_eq!(c.get_part_index(&probe(true, Zone::Core, vec![], vec![])), 0);
    assert_eq!(c.get_part_index(&probe(false, Zone::Outside, vec![], vec![])), 0);
    assert_eq!(c.get_part_index(&probe(false, Zone::Core, vec![], vec![])), 0xffff_ffff);
    assert_eq!(c.get_part_index(&probe(false, Zone::Shell, pair.clone(), vec![pair.clone(), pair.clone()])), 3);
    assert_eq!(c.get_part_index(&probe(false, Zone::Shell, pair.clone(), vec![pair.clone(), quad.clone()])), 0);
    assert_eq!(c.get_part_index_impl(&probe(false, Zone::Shell, quad.clone(), vec![]), 2), 15);
    assert_eq!(c.get_part_index(&probe(false, Zone::Shell, vec![true; 8], vec![])), 0);
}
