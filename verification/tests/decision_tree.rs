use stl_generator::decision_tree::{apply_indices, indices_fit, pieces_fit, tree_fits, walk, Group, Side, SubGroup};

fn sample_tree() -> Vec<Group> {
    vec![
        Group { splitter: 0, lhs: SubGroup::Piece(0), rhs: SubGroup::Piece(1) },
        Group { splitter: 1, lhs: SubGroup::Piece(2), rhs: SubGroup::Group(0) },
        Group { splitter: 2, lhs: SubGroup::Group(1), rhs: SubGroup::Piece(3) },
    ]
}

#[test]
fn walk_follows_the_sides() {
    let groups = sample_tree();
    assert!(tree_fits(&groups, 3));
    let r = walk(&groups, &vec![Side::Pos, Side::Pos, Side::Neg]);
    assert_eq!(r, Some((1, vec![2, 1, 0])));
    let r = walk(&groups, &vec![Side::Neg, Side::Pos, Side::Neg]);
    assert_eq!(r, Some((0, vec![2, 1, 0])));
    let r = walk(&groups, &vec![Side::Gap, Side::Neg, Side::Neg]);
    assert_eq!(r, Some((2, vec![2, 1])));
    let r = walk(&groups, &vec![Side::Gap, Side::Gap, Side::Pos]);
    assert_eq!(r, Some((3, vec![2])));
}

#[test]
fn walk_stops_in_a_gap() {
    let groups = sample_tree();
    assert_eq!(walk(&groups, &vec![Side::Pos, Side::Gap, Side::Neg]), None);
    assert_eq!(walk(&groups, &vec![Side::Gap, Side::Pos, Side::Neg]), None);
    assert_eq!(walk(&groups, &vec![Side::Pos, Side::Pos, Side::Gap]), None);
}

#[test]
fn walk_without_gaps_reaches_a_piece() {
    let groups = sample_tree();
    for a in [Side::Pos, Side::Neg] {
        for b in [Side::Pos, Side::Neg] {
            for c in [Side::Pos, Side::Neg] {
                let r = walk(&groups, &vec![a, b, c]);
                let (piece, path) = r.expect("no gap, so a piece");
                assert!(piece < 4);
                assert_eq!(path[0], 2);
            }
        }
    }
}

#[test]
fn tree_fits_rejects_bad_trees() {
    assert!(!tree_fits(&vec![], 3));
    assert!(!tree_fits(&sample_tree(), 2));
    let forward = vec![
        Group { splitter: 0, lhs: SubGroup::Group(1), rhs: SubGroup::Piece(0) },
        Group { splitter: 0, lhs: SubGroup::Piece(1), rhs: SubGroup::Piece(2) },
    ];
    assert!(!tree_fits(&forward, 1));
    let selfloop = vec![Group { splitter: 0, lhs: SubGroup::Piece(0), rhs: SubGroup::Group(0) }];
    assert!(!tree_fits(&selfloop, 1));
}

#[test]
fn apply_indices_selects_ascending_positions() {
    let mut v = vec![10, 11, 12, 13, 14];
    apply_indices(&mut v, &[1, 2, 4]);
    assert_eq!(v, vec![11, 12, 14]);
    let mut v = vec![10, 11, 12, 13];
    apply_indices(&mut v, &[0, 2, 3]);
    assert_eq!(v, vec![10, 12, 13]);
    let mut v = vec![10, 11, 12];
    apply_indices(&mut v, &[]);
    assert!(v.is_empty());
}

#[test]
fn apply_indices_overwrites_in_place() {
    let mut v = vec!['a', 'b', 'c'];
    apply_indices(&mut v, &[1, 0]);
    assert_eq!(v, vec!['b', 'b']);
    let mut v = vec![1.5f32, 2.5, 3.5];
    apply_indices(&mut v, &[2, 2, 0]);
    assert_eq!(v, vec![3.5, 3.5, 3.5]);
}

#[test]
fn indices_fit_checks_ranges() {
    assert!(indices_fit(&[0, 1, 2], 3));
    assert!(!indices_fit(&[0, 3], 3));
    assert!(!indices_fit(&[0, 0, 0, 0], 3));
    assert!(indices_fit(&[], 0));
}

#[test]
fn pieces_fit_checks_piece_numbers() {
    assert!(pieces_fit(&sample_tree(), 4));
    assert!(!pieces_fit(&sample_tree(), 3));
    assert!(pieces_fit(&vec![], 0));
}
