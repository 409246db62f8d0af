use vstd::prelude::*;

verus! {

/// The positions below `n` that occur among `cands`, in ascending order and
/// each once.
pub open spec fn kept_positions(cands: Seq<usize>, n: nat) -> Seq<usize>
    decreases n,
{
    if n == 0 {
        seq![]
    } else {
        kept_positions(cands, (n - 1) as nat) + if cands.contains((n - 1) as usize) {
            seq![(n - 1) as usize]
        } else {
            seq![]
        }
    }
}

/// With no candidate in `[a, b)`, the kept positions below `b` are those
/// below `a`.
proof fn lemma_kept_skip(cands: Seq<usize>, a: nat, b: nat)
    requires
        a <= b <= usize::MAX + 1,
        forall|c: usize| a <= c < b ==> !cands.contains(c),
    ensures
        kept_positions(cands, b) == kept_positions(cands, a),
    decreases b - a,
{
    if b > a {
        lemma_kept_skip(cands, a, (b - 1) as nat);
        assert(!cands.contains((b - 1) as usize));
        assert(kept_positions(cands, b) == kept_positions(cands, (b - 1) as nat));
    }
}

/// Keeps the points of `points` whose positions are among `candidates`:
/// positions out of range are ignored, the others are taken in ascending
/// order, each once (the key points of a side map).
pub fn select_keypoints<T: Copy>(points: &Vec<T>, candidates: &Vec<usize>) -> (r: Vec<T>)
    ensures
        r@ == kept_positions(candidates@, points.len() as nat).map_values(|k: usize| points@[k as int]),
{
    let len = points.len();
    let mut r: Vec<T> = Vec::new();
    let mut floor: usize = 0;
    while floor < len
        invariant
            floor <= len == points.len(),
            r@ == kept_positions(candidates@, floor as nat).map_values(|k: usize| points@[k as int]),
        decreases len - floor,
    {
        let mut best: usize = len;
        let mut j: usize = 0;
        while j < candidates.len()
            invariant
                floor <= best <= len == points.len(),
                j <= candidates.len(),
                best < len ==> candidates@.contains(best),
                forall|i: int| 0 <= i < j ==> !(floor <= #[trigger] candidates@[i] < best),
            decreases candidates.len() - j,
        {
            let c = candidates[j];
            if floor <= c && c < best {
                best = c;
            }
            j = j + 1;
        }
        let ghost old_r = r@;
        assert forall|c: usize| floor <= c < best implies !candidates@.contains(c) by {
            if candidates@.contains(c) {
                let i = choose|i: int| 0 <= i < candidates@.len() && candidates@[i] == c;
            }
        }
        proof {
            lemma_kept_skip(candidates@, floor as nat, best as nat);
        }
        if best == len {
            floor = len;
        } else {
            r.push(points[best]);
            assert(kept_positions(candidates@, (best + 1) as nat) == kept_positions(
                candidates@,
                best as nat,
            ) + seq![best]);
            assert(r@ == kept_positions(candidates@, (best + 1) as nat).map_values(
                |k: usize| points@[k as int],
            ));
            floor = best + 1;
        }
    }
    r
}

} // verus!
