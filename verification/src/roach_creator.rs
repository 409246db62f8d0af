use vstd::prelude::*;

use crate::part_index::PartIndex;

verus! {

/// The tests of one point against the roach figure: whether it lies in the
/// height range of the figure, inside its body, and inside each leg.
pub struct RoachProbe {
    pub in_layer: bool,
    pub in_body: bool,
    pub in_legs: Vec<bool>,
}

/// The part of a point with the tests `p`.
pub open spec fn roach_part(p: RoachProbe) -> u32 {
    if p.in_layer && (p.in_body || p.in_legs@.contains(true)) {
        1
    } else {
        0
    }
}

/// The roach figure: a single solid body, with no flat parts.
pub struct RoachCreator {}

impl RoachCreator {
    /// The creator; it has no settings.
    pub fn new() -> (r: Self) {
        Self {  }
    }

    /// Number of flat parts: the figure has none.
    pub fn faces(&self) -> (r: usize)
        ensures
            r == 0,
    {
        0
    }

    /// Part of the volume model at the point that `probe` describes: it is
    /// part 1 when the point lies in the height range of the figure and
    /// inside the body or inside one of the legs, and no part otherwise.
    pub fn get_part_index(&self, probe: &RoachProbe) -> (r: PartIndex)
        ensures
            r == roach_part(*probe),
            r == 0 || r == 1,
            !probe.in_layer ==> r == 0,
            r == 1 <==> probe.in_layer && (probe.in_body || exists|k: int|
                0 <= k < probe.in_legs@.len() && probe.in_legs@[k]),
    {
        proof {
            lemma_roach_part(*probe);
        }
        if !probe.in_layer {
            return 0;
        }
        if probe.in_body {
            return 1;
        }
        let mut i: usize = 0;
        while i < probe.in_legs.len()
            invariant
                i <= probe.in_legs.len(),
                probe.in_layer,
                !probe.in_body,
                forall|k: int| 0 <= k < i ==> !probe.in_legs@[k],
            decreases probe.in_legs.len() - i,
        {
            if probe.in_legs[i] {
                assert(probe.in_legs@[i as int]);
                return 1;
            }
            i = i + 1;
        }
        0
    }

    /// Sticker of flat part `current_normal` at `pos`: there are no flat
    /// parts, so every point belongs to none.
    pub fn get_sticker_index<Q>(&self, pos: Q, current_normal: usize) -> (r: PartIndex)
        ensures
            r == 0,
    {
        0
    }
}

/// A point is in the figure exactly when it lies in the height range and
/// inside the body or inside some leg, the first leg as well as the others;
/// otherwise it is in no part.
pub proof fn lemma_roach_part(p: RoachProbe)
    ensures
        roach_part(p) == 1 <==> p.in_layer && (p.in_body || exists|k: int|
            0 <= k < p.in_legs@.len() && p.in_legs@[k]),
        roach_part(p) == 0 || roach_part(p) == 1,
{
    if exists|k: int| 0 <= k < p.in_legs@.len() && p.in_legs@[k] {
        let k = choose|k: int| 0 <= k < p.in_legs@.len() && p.in_legs@[k];
        assert(p.in_legs@.contains(true));
    }
}

} // verus!
