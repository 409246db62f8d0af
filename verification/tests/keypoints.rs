use stl_generator::keypoints::select_keypoints;

#[test]
fn select_keypoints_sorts_and_dedups() {
    let points = vec![10, 11, 12, 13, 14, 15];
    let r = select_keypoints(&points, &vec![4, 1, 4, 6, 1, 0, 6]);
    assert_eq!(r, vec![10, 11, 14]);
}

#[test]
fn select_keypoints_edges() {
    let points: Vec<u8> = vec![];
    assert!(select_keypoints(&points, &vec![0, 1]).is_empty());
    let points = vec![(1.0f32, 2.0f32), (3.0, 4.0)];
    assert!(select_keypoints(&points, &vec![]).is_empty());
    assert_eq!(select_keypoints(&points, &vec![2, 2, 1]), vec![(3.0, 4.0)]);
    assert_eq!(select_keypoints(&points, &vec![1, 0]), points);
}
