use vstd::prelude::*;

use crate::part_index::PartIndex;

verus! {

/// The tests of one planar point against the outline of a flat part, in the
/// order the outline makes them, and (for the outline of part 5) whether the
/// point lies within reach of each segment of the roller track.
pub struct StickerProbe {
    pub tests: Vec<bool>,
    pub track: Vec<bool>,
}

/// How many tests each outline makes.
pub open spec fn outline_test_count(outline: usize) -> nat {
    if outline == 0 {
        3
    } else if outline == 1 || outline == 2 {
        2
    } else if outline == 3 {
        4
    } else if outline == 4 || outline == 5 {
        3
    } else {
        6
    }
}

/// Whether none of `t` holds.
pub open spec fn none_hold(t: Seq<bool>) -> bool {
    forall|i: int| 0 <= i < t.len() ==> !t[i]
}

/// The sticker of a point with the tests `p` on outline `outline`:
/// outlines 1 and 2 take the point when both of their tests hold, outline 4
/// rejects it on its first test and otherwise, inside the radius of its
/// second test, takes it only inside one of the four notches of its third;
/// outline 5 takes it when none of its tests holds and it is clear of the
/// roller track; the others take it when none of their tests holds.
pub open spec fn sticker_of(outline: usize, p: StickerProbe) -> u32 {
    let t = p.tests@;
    if outline == 1 || outline == 2 {
        if t[0] && t[1] {
            1
        } else {
            0
        }
    } else if outline == 4 {
        if t[0] {
            0
        } else if t[1] {
            if t[2] {
                1
            } else {
                0
            }
        } else {
            1
        }
    } else if outline == 5 {
        if none_hold(t) && none_hold(p.track@) {
            1
        } else {
            0
        }
    } else if none_hold(t) {
        1
    } else {
        0
    }
}

/// The outline of flat part `current_normal`.
pub open spec fn outline_for(current_normal: usize) -> usize {
    if current_normal < 6 {
        current_normal
    } else {
        6
    }
}

/// Whether none of `t` holds.
fn none_true(t: &Vec<bool>) -> (r: bool)
    ensures
        r == none_hold(t@),
{
    let mut i: usize = 0;
    while i < t.len()
        invariant
            i <= t.len(),
            forall|k: int| 0 <= k < i ==> !t@[k],
        decreases t.len() - i,
    {
        if t[i] {
            return false;
        }
        i = i + 1;
    }
    true
}

/// The tool for pressing axles: seven flat parts cut from plates. `P` is the
/// type of the planar points of the roller track that outlines the fifth part.
pub struct AxleToolCreator<P> {
    rolls: Vec<P>,
}

impl<P> View for AxleToolCreator<P> {
    type V = Seq<P>;

    closed spec fn view(&self) -> Seq<P> {
        self.rolls@
    }
}

impl<P> AxleToolCreator<P> {
    /// A creator whose roller track passes through `rolls`, in order.
    pub fn with_rolls(rolls: Vec<P>) -> (r: Self)
        ensures
            r@ == rolls@,
    {
        Self { rolls }
    }

    /// The points of the roller track.
    pub fn rolls(&self) -> (r: &Vec<P>)
        ensures
            r@ == self@,
    {
        &self.rolls
    }

    /// Resolution of the volume model: the tool is made of flat parts only.
    pub fn get_quality() -> (r: usize)
        ensures
            r == 1,
    {
        1
    }

    /// Number of flat parts.
    pub fn faces(&self) -> (r: usize)
        ensures
            r == 7,
    {
        7
    }

    /// Name of the flat part `current_normal`: none has a name of its own.
    pub fn get_name(&self, current_normal: usize) -> (r: Option<&str>)
        ensures
            r is None,
    {
        None
    }

    /// How many copies of flat part `current_normal` the tool needs: two of
    /// the first part, one of each other.
    pub fn get_count(&self, current_normal: usize) -> (r: usize)
        ensures
            r == if current_normal == 0 {
                2usize
            } else {
                1usize
            },
    {
        if current_normal == 0 {
            2
        } else {
            1
        }
    }

    /// Which outline cuts flat part `current_normal`: parts 0 to 5 have one
    /// each (that of part 5 follows the roller track), and every later part
    /// shares the outline of part 6.
    pub fn outline_of(&self, current_normal: usize) -> (r: usize)
        ensures
            r == outline_for(current_normal),
            current_normal < 6 ==> r == current_normal,
            current_normal >= 6 ==> r == 6,
    {
        if current_normal < 6 {
            current_normal
        } else {
            6
        }
    }

    /// Sticker of flat part `current_normal` at the point that `probe`
    /// describes (tested against the outline of that part): 1 inside the
    /// part, 0 outside. The roller track has one segment fewer than it has
    /// points.
    pub fn get_sticker_index(&self, probe: &StickerProbe, current_normal: usize) -> (r: PartIndex)
        requires
            probe.tests.len() == outline_test_count(outline_for(current_normal)),
            outline_for(current_normal) == 5 ==> probe.track.len() + 1 == self@.len(),
        ensures
            r == sticker_of(outline_for(current_normal), *probe),
            r == 0 || r == 1,
            current_normal == 1 || current_normal == 2 ==> (r == 1 <==> probe.tests@[0]
                && probe.tests@[1]),
            current_normal == 5 ==> (r == 1 <==> (forall|i: int|
                0 <= i < probe.tests@.len() ==> !probe.tests@[i]) && (forall|i: int|
                0 <= i < probe.track@.len() ==> !probe.track@[i])),
    {
        proof {
            lemma_sticker_laws(current_normal, *probe);
        }
        let t = &probe.tests;
        let outline = self.outline_of(current_normal);
        if outline == 1 || outline == 2 {
            if t[0] && t[1] {
                1
            } else {
                0
            }
        } else if outline == 4 {
            if t[0] {
                0
            } else if t[1] {
                if t[2] {
                    1
                } else {
                    0
                }
            } else {
                1
            }
        } else if outline == 5 {
            if none_true(t) && none_true(&probe.track) {
                1
            } else {
                0
            }
        } else if none_true(t) {
            1
        } else {
            0
        }
    }

    /// Part of the volume model at `pos`: the tool has no volume parts, so
    /// every point belongs to none.
    pub fn get_part_index<Q>(&self, pos: Q) -> (r: PartIndex)
        ensures
            r == 0,
    {
        0
    }
}

/// Every flat part from 6 upward is cut by the same outline, so a point gets
/// the same sticker in each of them as in part 6.
pub proof fn lemma_late_parts_share_outline(current_normal: usize, probe: StickerProbe)
    requires
        current_normal >= 6,
    ensures
        outline_for(current_normal) == outline_for(6),
        sticker_of(outline_for(current_normal), probe) == sticker_of(outline_for(6), probe),
{
}

/// Each of the flat parts 0 to 5 is cut by its own outline, and every later
/// part by the outline of part 6.
pub proof fn lemma_outline_by_part(current_normal: usize)
    ensures
        current_normal < 6 ==> outline_for(current_normal) == current_normal,
        current_normal >= 6 ==> outline_for(current_normal) == 6,
{
}

/// What the outlines take: each sticker is 0 or 1; parts 1 and 2 take a
/// point exactly when its shape test and its hole test both hold; part 4
/// takes it when its outer test fails and, inside the radius of its second
/// test, when it lies in a notch; part 5 takes it exactly when none of its
/// tests holds and it is out of reach of every segment of the roller track;
/// parts 0, 3 and 6 onward take it exactly when none of their tests holds.
pub proof fn lemma_sticker_laws(current_normal: usize, p: StickerProbe)
    requires
        p.tests.len() == outline_test_count(outline_for(current_normal)),
    ensures
        sticker_of(outline_for(current_normal), p) == 0 || sticker_of(
            outline_for(current_normal),
            p,
        ) == 1,
        current_normal == 1 || current_normal == 2 ==> (sticker_of(outline_for(current_normal), p)
            == 1 <==> p.tests@[0] && p.tests@[1]),
        current_normal == 4 ==> (sticker_of(outline_for(current_normal), p) == 1 <==> !p.tests@[0]
            && (p.tests@[1] ==> p.tests@[2])),
        current_normal == 5 ==> (sticker_of(outline_for(current_normal), p) == 1 <==> (forall|i: int|
            0 <= i < p.tests@.len() ==> !p.tests@[i]) && (forall|i: int|
            0 <= i < p.track@.len() ==> !p.track@[i])),
        current_normal == 0 || current_normal == 3 || current_normal >= 6 ==> (sticker_of(
            outline_for(current_normal),
            p,
        ) == 1 <==> forall|i: int| 0 <= i < p.tests@.len() ==> !p.tests@[i]),
{
}

} // verus!
