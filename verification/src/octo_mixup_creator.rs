use vstd::prelude::*;

use crate::bitmask::{mask_from_sides, mask_shape, matches_sides, MaskShape};
use crate::part_index::PartIndex;

verus! {

/// The axes of the octahedral mixup: the diagonals of the cube, as the signs
/// of their x, y and z coordinates.
pub open spec fn cube_diagonals() -> Seq<(i8, i8, i8)> {
    seq![
        (1i8, 1i8, 1i8),
        (1i8, 1i8, -1i8),
        (1i8, -1i8, -1i8),
        (1i8, -1i8, 1i8),
        (-1i8, -1i8, 1i8),
        (-1i8, 1i8, 1i8),
        (-1i8, 1i8, -1i8),
        (-1i8, -1i8, -1i8),
    ]
}

/// Whether every side test of every rotated copy agrees with `index`.
pub open spec fn all_rotations_match(index: u32, rotations: Seq<Seq<bool>>) -> bool {
    forall|k: int, j: u32|
        0 <= k < rotations.len() && j < rotations[k].len() ==> crate::bitmask::bit_set(index, j)
            == rotations[k][j as int]
}

/// The part of a point on the shell, from its mask: a mask of two axes is a
/// part when the point's rotated copies fall in the same mask, a mask of
/// four axes is a part, any other mask is none.
pub open spec fn settled_part(index: u32, rotations: Seq<Seq<bool>>) -> u32 {
    if crate::bitmask::popcount(index) == 2 {
        if all_rotations_match(index, rotations) {
            index
        } else {
            0
        }
    } else if crate::bitmask::popcount(index) == 4 {
        index
    } else {
        0
    }
}

/// Where a point lies radially in the octahedral mixup.
#[derive(Copy, Clone, PartialEq, Eq, Structural)]
pub enum Zone {
    /// Beyond the outer radius.
    Outside,
    /// Inside the inner radius: the core.
    Core,
    /// In the shell between the two radii, where the cuts are.
    Shell,
}

/// The tests of one point against the octahedral mixup: whether it lies in
/// the hole along a coordinate axis, its radial zone, its side test against
/// each axis, and (for a point whose sides give a two-axis mask) the side
/// tests of its copies turned by a third and two thirds of a turn around the
/// middle of those two axes.
pub struct ShellProbe {
    pub near_axis: bool,
    pub zone: Zone,
    pub sides: Vec<bool>,
    pub rotations: Vec<Vec<bool>>,
}

/// The part of a point with the tests `p`: none in the axis holes or
/// outside, the core part `0xffffffff` inside, and in the shell the settled
/// part of its mask.
pub open spec fn mixup_part(p: ShellProbe) -> u32 {
    if p.near_axis {
        0
    } else if p.zone == Zone::Outside {
        0
    } else if p.zone == Zone::Core {
        0xffff_ffff
    } else {
        settled_part(
            crate::bitmask::mask_value(p.sides@),
            p.rotations@.map_values(|v: Vec<bool>| v@),
        )
    }
}

/// The octahedral mixup puzzle, cut by planes across the diagonals of the
/// cube.
pub struct OctoMixupCreator {
    axis: Vec<(i8, i8, i8)>,
}

impl View for OctoMixupCreator {
    type V = Seq<(i8, i8, i8)>;

    closed spec fn view(&self) -> Seq<(i8, i8, i8)> {
        self.axis@
    }
}

impl OctoMixupCreator {
    #[verifier::type_invariant]
    spec fn axes_are_diagonals(self) -> bool {
        self.axis@ == cube_diagonals()
    }

    /// The creator, with its eight axes along the diagonals of the cube.
    pub fn new() -> (r: Self)
        ensures
            r@ == cube_diagonals(),
    {
        let axis = vec![
            (1, 1, 1),
            (1, 1, -1),
            (1, -1, -1),
            (1, -1, 1),
            (-1, -1, 1),
            (-1, 1, 1),
            (-1, 1, -1),
            (-1, -1, -1),
        ];
        assert(axis@ == cube_diagonals());
        Self { axis }
    }

    /// The cutting axes, as sign triples (to be normalised).
    pub fn axis(&self) -> (r: &Vec<(i8, i8, i8)>)
        ensures
            r@ == self@,
            r@ == cube_diagonals(),
    {
        proof {
            use_type_invariant(self);
        }
        &self.axis
    }

    /// Number of flat parts: the puzzle has none.
    pub fn faces(&self) -> (r: usize)
        ensures
            r == 0,
    {
        0
    }

    /// Sticker of flat part `current_normal` at `pos`: there are no flat
    /// parts, so every point belongs to none.
    pub fn get_sticker_index<Q>(&self, pos: Q, current_normal: usize) -> (r: PartIndex)
        ensures
            r == 0,
    {
        0
    }

    /// The part mask of a point from its side test against each axis: bit
    /// `i` is set when the point lies beyond the cut of axis `i`.
    pub fn side_mask(&self, sides: &Vec<bool>) -> (r: PartIndex)
        requires
            sides.len() == self@.len(),
        ensures
            crate::bitmask::is_mask_of(r, sides@),
            r == crate::bitmask::mask_value(sides@),
            r < 256,
    {
        proof {
            use_type_invariant(self);
        }
        let r = mask_from_sides(sides);
        proof {
            crate::bitmask::lemma_mask_below_256(r, sides@);
        }
        r
    }

    /// The part of a point on the shell whose mask is `index`; `rotations`
    /// holds the side tests of the point turned by a third and by two thirds
    /// of a turn around the middle of the two axes of a two-axis mask (they
    /// are read only for such a mask).
    pub fn settle_part(&self, index: u32, rotations: &Vec<Vec<bool>>) -> (r: PartIndex)
        requires
            forall|k: int| 0 <= k < rotations.len() ==> #[trigger] rotations@[k].len() == self@.len(),
        ensures
            r == settled_part(index, rotations@.map_values(|v: Vec<bool>| v@)),
            r == 0 || r == index,
            r != 0 ==> crate::bitmask::popcount(r) == 2 || crate::bitmask::popcount(r) == 4,
            crate::bitmask::popcount(index) == 2 ==> (r != 0 <==> forall|k: int, j: u32|
                0 <= k < rotations.len() && j < rotations@[k].len() ==> crate::bitmask::bit_set(
                    index,
                    j,
                ) == rotations@[k]@[j as int]),
            crate::bitmask::popcount(index) == 4 ==> r == index,
            crate::bitmask::popcount(index) != 2 && crate::bitmask::popcount(index) != 4 ==> r == 0,
    {
        proof {
            use_type_invariant(self);
            let rs = rotations@.map_values(|v: Vec<bool>| v@);
            lemma_settle_laws(index, rs);
            assert(forall|k: int| 0 <= k < rotations.len() ==> #[trigger] rs[k] == rotations@[k]@);
            if forall|k: int, j: u32|
                0 <= k < rs.len() && j < rs[k].len() ==> crate::bitmask::bit_set(index, j)
                    == rs[k][j as int] {
                assert forall|k: int, j: u32|
                    0 <= k < rotations.len() && j < rotations@[k].len() implies crate::bitmask::bit_set(
                        index,
                        j,
                    ) == rotations@[k]@[j as int] by {
                    assert(rs[k] == rotations@[k]@);
                }
            }
            if forall|k: int, j: u32|
                0 <= k < rotations.len() && j < rotations@[k].len() ==> crate::bitmask::bit_set(
                    index,
                    j,
                ) == rotations@[k]@[j as int] {
                assert forall|k: int, j: u32|
                    0 <= k < rs.len() && j < rs[k].len() implies crate::bitmask::bit_set(index, j)
                        == rs[k][j as int] by {
                    assert(rs[k] == rotations@[k]@);
                }
            }
        }
        let ghost rots = rotations@.map_values(|v: Vec<bool>| v@);
        let shape = mask_shape(index);
        match shape {
            MaskShape::Pair { .. } => {
                assert(crate::bitmask::popcount(index) == 2);
                let mut k: usize = 0;
                while k < rotations.len()
                    invariant
                        k <= rotations.len(),
                        crate::bitmask::popcount(index) == 2,
                        rots == rotations@.map_values(|v: Vec<bool>| v@),
                        forall|i: int| 0 <= i < rotations.len() ==> #[trigger] rotations@[i].len() == 8,
                        forall|i: int, j: u32|
                            0 <= i < k && j < rots[i].len() ==> crate::bitmask::bit_set(index, j)
                                == rots[i][j as int],
                    decreases rotations.len() - k,
                {
                    if !matches_sides(index, &rotations[k]) {
                        assert(!all_rotations_match(index, rots)) by {
                            assert(rots[k as int] == rotations@[k as int]@);
                            let j = choose|j: u32|
                                j < rotations@[k as int].len() && !(crate::bitmask::bit_set(
                                    index,
                                    j,
                                ) == rotations@[k as int]@[j as int]);
                            assert(!(crate::bitmask::bit_set(index, j) == rots[k as int][j as int]));
                        }
                        return 0;
                    }
                    assert(rots[k as int] == rotations@[k as int]@);
                    k = k + 1;
                }
                index
            },
            MaskShape::Quad => index,
            MaskShape::Other => 0,
        }
    }

    /// Part of the volume model at the point that `probe` describes, for the
    /// flat part `current_normal` (which does not change the result).
    pub fn get_part_index_impl(&self, probe: &ShellProbe, current_normal: usize) -> (r: PartIndex)
        requires
            probe.zone == Zone::Shell ==> probe.sides.len() == self@.len(),
            forall|k: int|
                0 <= k < probe.rotations.len() ==> #[trigger] probe.rotations@[k].len()
                    == self@.len(),
        ensures
            r == mixup_part(*probe),
            r == 0 || r == 0xffff_ffff || (r < 256 && (crate::bitmask::popcount(r) == 2
                || crate::bitmask::popcount(r) == 4)),
    {
        if probe.near_axis {
            return 0;
        }
        match probe.zone {
            Zone::Outside => 0,
            Zone::Core => 0xffff_ffff,
            Zone::Shell => {
                let index = self.side_mask(&probe.sides);
                self.settle_part(index, &probe.rotations)
            },
        }
    }

    /// Part of the volume model at the point that `probe` describes.
    pub fn get_part_index(&self, probe: &ShellProbe) -> (r: PartIndex)
        requires
            probe.zone == Zone::Shell ==> probe.sides.len() == self@.len(),
            forall|k: int|
                0 <= k < probe.rotations.len() ==> #[trigger] probe.rotations@[k].len()
                    == self@.len(),
        ensures
            r == mixup_part(*probe),
    {
        self.get_part_index_impl(probe, 8)
    }
}

/// How a shell mask is settled: a two-axis mask stays (and is nonzero)
/// exactly when every rotated copy, the first as well as the others, agrees
/// with it bit by bit; a four-axis mask always stays; any other mask gives
/// no part.
pub proof fn lemma_settle_laws(index: u32, rotations: Seq<Seq<bool>>)
    ensures
        crate::bitmask::popcount(index) == 2 ==> (settled_part(index, rotations) != 0 <==> forall|
            k: int,
            j: u32,
        |
            0 <= k < rotations.len() && j < rotations[k].len() ==> crate::bitmask::bit_set(index, j)
                == rotations[k][j as int]),
        crate::bitmask::popcount(index) == 2 ==> settled_part(index, rotations) == 0
            || settled_part(index, rotations) == index,
        crate::bitmask::popcount(index) == 4 ==> settled_part(index, rotations) == index,
        crate::bitmask::popcount(index) != 2 && crate::bitmask::popcount(index) != 4
            ==> settled_part(index, rotations) == 0,
{
    if crate::bitmask::popcount(index) == 2 && index == 0 {
        assert(forall|j: u32| j < 32 ==> !crate::bitmask::bit_set(0u32, j)) by (bit_vector);
        assert(crate::bitmask::popcount(0) == 0) by {
            lemma_zero_count(32);
        }
    }
}

proof fn lemma_zero_count(n: nat)
    requires
        n <= 32,
    ensures
        crate::bitmask::count_bits_below(0, n) == 0,
    decreases n,
{
    if n > 0 {
        lemma_zero_count((n - 1) as nat);
        assert(forall|j: u32| j < 32 ==> !crate::bitmask::bit_set(0u32, j)) by (bit_vector);
        assert(!crate::bitmask::bit_set(0u32, (n - 1) as u32));
    }
}

} // verus!
