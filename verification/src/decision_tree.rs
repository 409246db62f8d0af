use vstd::prelude::*;

verus! {

/// A child of a decision-tree node: another node, or a finished piece.
#[derive(Copy, Clone)]
pub enum SubGroup {
    Group(usize),
    Piece(usize),
}

/// A node of the decision tree: the splitter to test, and where to go when
/// the point lies on its negative (`lhs`) or positive (`rhs`) side.
#[derive(Copy, Clone)]
pub struct Group {
    pub splitter: usize,
    pub lhs: SubGroup,
    pub rhs: SubGroup,
}

/// Where a point lies relative to a splitter.
#[derive(Copy, Clone, PartialEq, Eq, Structural)]
pub enum Side {
    /// Inside the positive band of the splitter (the walk takes `rhs`).
    Pos,
    /// Inside the negative band of the splitter (the walk takes `lhs`).
    Neg,
    /// In the gap between the two bands: the point belongs to no piece.
    Gap,
}

/// A child is acceptable at node `k` when it is an earlier node or a piece.
pub open spec fn child_ok(c: SubGroup, k: int, n_pieces: nat) -> bool {
    match c {
        SubGroup::Group(j) => j < k,
        SubGroup::Piece(p) => p < n_pieces,
    }
}

/// Every node tests an existing splitter and points to earlier nodes or to
/// existing pieces; the root is the last node.
pub open spec fn tree_wf(groups: Seq<Group>, n_splitters: nat, n_pieces: nat) -> bool {
    &&& groups.len() > 0
    &&& forall|k: int|
        0 <= k < groups.len() ==> {
            &&& (#[trigger] groups[k]).splitter < n_splitters
            &&& child_ok(groups[k].lhs, k, n_pieces)
            &&& child_ok(groups[k].rhs, k, n_pieces)
        }
}

/// The child that a side selects.
pub open spec fn next_of(g: Group, side: Side) -> SubGroup {
    if side == Side::Pos {
        g.rhs
    } else {
        g.lhs
    }
}

/// The walk from node `cur` down to a piece, deciding at each node by the
/// side of its splitter: the piece and the nodes visited, or `None` when a
/// visited splitter leaves the point in its gap.
pub open spec fn walk_from(groups: Seq<Group>, sides: Seq<Side>, cur: int) -> Option<
    (usize, Seq<usize>),
>
    decreases cur,
{
    if !(0 <= cur < groups.len()) || groups[cur].splitter >= sides.len() {
        None
    } else {
        let g = groups[cur];
        let side = sides[g.splitter as int];
        if side == Side::Gap {
            None
        } else {
            match next_of(g, side) {
                SubGroup::Piece(p) => Some((p, seq![cur as usize])),
                SubGroup::Group(j) => if j < cur {
                    match walk_from(groups, sides, j as int) {
                        Some((p, path)) => Some((p, seq![cur as usize] + path)),
                        None => None,
                    }
                } else {
                    None
                },
            }
        }
    }
}

/// Prepends `prefix` to the path of a walk result.
pub open spec fn prepend(prefix: Seq<usize>, w: Option<(usize, Seq<usize>)>) -> Option<
    (usize, Seq<usize>),
> {
    match w {
        Some((p, path)) => Some((p, prefix + path)),
        None => None,
    }
}

/// The condition under which `walk` may run on `groups` with sides for
/// `n_splitters` splitters: a root exists, every node tests an existing
/// splitter, and child nodes come before their parent.
pub open spec fn walkable(groups: Seq<Group>, n_splitters: nat) -> bool {
    &&& groups.len() > 0
    &&& forall|k: int|
        0 <= k < groups.len() ==> {
            &&& (#[trigger] groups[k]).splitter < n_splitters
            &&& groups[k].lhs matches SubGroup::Group(j) ==> j < k
            &&& groups[k].rhs matches SubGroup::Group(j) ==> j < k
        }
}

/// Whether `walk` may run on `groups` with sides for `n_splitters` splitters.
pub fn tree_fits(groups: &Vec<Group>, n_splitters: usize) -> (r: bool)
    ensures
        r == walkable(groups@, n_splitters as nat),
{
    if groups.len() == 0 {
        return false;
    }
    let mut k: usize = 0;
    while k < groups.len()
        invariant
            k <= groups.len(),
            forall|i: int|
                0 <= i < k ==> {
                    &&& (#[trigger] groups@[i]).splitter < n_splitters
                    &&& groups@[i].lhs matches SubGroup::Group(j) ==> j < i
                    &&& groups@[i].rhs matches SubGroup::Group(j) ==> j < i
                },
        decreases groups.len() - k,
    {
        let g = groups[k];
        if g.splitter >= n_splitters {
            return false;
        }
        if let SubGroup::Group(j) = g.lhs {
            if j >= k {
                return false;
            }
        }
        if let SubGroup::Group(j) = g.rhs {
            if j >= k {
                return false;
            }
        }
        k = k + 1;
    }
    true
}

/// Every piece that a node points to is among the first `n_pieces`.
pub open spec fn pieces_in_range(groups: Seq<Group>, n_pieces: nat) -> bool {
    forall|k: int|
        0 <= k < groups.len() ==> {
            &&& (#[trigger] groups[k]).lhs matches SubGroup::Piece(p) ==> p < n_pieces
            &&& groups[k].rhs matches SubGroup::Piece(p) ==> p < n_pieces
        }
}

/// Whether every piece that a node of `groups` points to is among the first
/// `n_pieces`; with `tree_fits`, whether the tree is well formed.
pub fn pieces_fit(groups: &Vec<Group>, n_pieces: usize) -> (r: bool)
    ensures
        r == pieces_in_range(groups@, n_pieces as nat),
{
    let mut k: usize = 0;
    while k < groups.len()
        invariant
            k <= groups.len(),
            forall|i: int|
                0 <= i < k ==> {
                    &&& (#[trigger] groups@[i]).lhs matches SubGroup::Piece(p) ==> p < n_pieces
                    &&& groups@[i].rhs matches SubGroup::Piece(p) ==> p < n_pieces
                },
        decreases groups.len() - k,
    {
        let g = groups[k];
        if let SubGroup::Piece(p) = g.lhs {
            if p >= n_pieces {
                return false;
            }
        }
        if let SubGroup::Piece(p) = g.rhs {
            if p >= n_pieces {
                return false;
            }
        }
        k = k + 1;
    }
    true
}

/// A tree that `tree_fits` and `pieces_fit` accept is well formed.
pub proof fn lemma_fits_wf(groups: Seq<Group>, n_splitters: nat, n_pieces: nat)
    requires
        walkable(groups, n_splitters),
        pieces_in_range(groups, n_pieces),
    ensures
        tree_wf(groups, n_splitters, n_pieces),
{
    assert forall|k: int| 0 <= k < groups.len() implies {
        &&& (#[trigger] groups[k]).splitter < n_splitters
        &&& child_ok(groups[k].lhs, k, n_pieces)
        &&& child_ok(groups[k].rhs, k, n_pieces)
    } by {
        assert(groups[k].splitter < n_splitters);
    }
}

/// Walks the tree from its root (the last node) to a piece, as the
/// cobblestone creators do; `sides[s]` is the side of splitter `s`.
/// Returns the piece and the visited nodes in order, or `None` when the
/// point lies in the gap of a visited splitter.
pub fn walk(groups: &Vec<Group>, sides: &Vec<Side>) -> (r: Option<(usize, Vec<usize>)>)
    requires
        walkable(groups@, sides.len() as nat),
    ensures
        match r {
            Some((p, path)) => walk_from(groups@, sides@, groups.len() - 1) == Some((p, path@)),
            None => walk_from(groups@, sides@, groups.len() - 1) is None,
        },
{
    let mut cur: usize = groups.len() - 1;
    let mut visited: Vec<usize> = Vec::new();
    loop
        invariant
            0 <= cur < groups.len(),
            forall|k: int|
                0 <= k < groups.len() ==> {
                    &&& (#[trigger] groups@[k]).splitter < sides.len()
                    &&& groups@[k].lhs matches SubGroup::Group(j) ==> j < k
                    &&& groups@[k].rhs matches SubGroup::Group(j) ==> j < k
                },
            walk_from(groups@, sides@, groups.len() - 1) == prepend(
                visited@,
                walk_from(groups@, sides@, cur as int),
            ),
        decreases cur,
    {
        let g = groups[cur];
        let side = sides[g.splitter];
        visited.push(cur);
        let next = match side {
            Side::Pos => g.rhs,
            Side::Neg => g.lhs,
            Side::Gap => {
                return None;
            },
        };
        match next {
            SubGroup::Group(j) => {
                assert(visited@ == visited@.drop_last() + seq![cur as usize]);
                assert(prepend(visited@.drop_last(), walk_from(groups@, sides@, cur as int))
                    == prepend(visited@, walk_from(groups@, sides@, j as int)));
                cur = j;
            },
            SubGroup::Piece(p) => {
                return Some((p, visited));
            },
        }
    }
}


/// The side at the splitter of node `k`.
pub open spec fn side_at(groups: Seq<Group>, sides: Seq<Side>, k: usize) -> Side {
    sides[groups[k as int].splitter as int]
}

/// On a well-formed tree, a walk that reaches a piece reaches an existing
/// piece through a path that starts at the start node, goes down along the
/// sides of the visited splitters, never meets a gap and ends at a node whose
/// chosen child is that piece; and a walk that meets no gap always reaches a
/// piece.
pub proof fn lemma_walk_from(groups: Seq<Group>, sides: Seq<Side>, n_pieces: nat, cur: int)
    requires
        tree_wf(groups, sides.len(), n_pieces),
        groups.len() <= usize::MAX,
        0 <= cur < groups.len(),
    ensures
        (forall|s: int| 0 <= s < sides.len() ==> sides[s] != Side::Gap) ==> walk_from(
            groups,
            sides,
            cur,
        ) is Some,
        walk_from(groups, sides, cur) matches Some((p, path)) ==> {
            &&& p < n_pieces
            &&& path.len() >= 1
            &&& path[0] == cur
            &&& forall|i: int|
                0 <= i < path.len() ==> #[trigger] path[i] < groups.len() && side_at(
                    groups,
                    sides,
                    path[i],
                ) != Side::Gap
            &&& forall|i: int|
                0 <= i < path.len() - 1 ==> next_of(
                    groups[#[trigger] path[i] as int],
                    side_at(groups, sides, path[i]),
                ) == SubGroup::Group(path[i + 1])
            &&& next_of(groups[path.last() as int], side_at(groups, sides, path.last()))
                == SubGroup::Piece(p)
        },
    decreases cur,
{
    let g = groups[cur];
    assert(g.splitter < sides.len());
    let side = sides[g.splitter as int];
    if side != Side::Gap {
        match next_of(g, side) {
            SubGroup::Piece(p) => {},
            SubGroup::Group(j) => {
                lemma_walk_from(groups, sides, n_pieces, j as int);
                if let Some((p, path)) = walk_from(groups, sides, j as int) {
                    let full = seq![cur as usize] + path;
                    assert forall|i: int| 0 <= i < full.len() - 1 implies next_of(
                        groups[#[trigger] full[i] as int],
                        side_at(groups, sides, full[i]),
                    ) == SubGroup::Group(full[i + 1]) by {
                        if i > 0 {
                            assert(full[i] == path[i - 1]);
                            assert(full[i + 1] == path[i]);
                        } else {
                            assert(full[0] == cur as usize);
                            assert(full[1] == path[0]);
                        }
                    }
                    assert forall|i: int| 0 <= i < full.len() implies #[trigger] full[i]
                        < groups.len() && side_at(groups, sides, full[i]) != Side::Gap by {
                        if i > 0 {
                            assert(full[i] == path[i - 1]);
                        }
                    }
                    assert(full.last() == path.last());
                    assert(walk_from(groups, sides, cur) == Some((p, full)));
                }
            },
        }
    }
}

/// Whether `apply_indices` may run with `indices` on a vector of `len`
/// elements: there are no more indices than elements, and each is in range.
pub fn indices_fit(indices: &[usize], len: usize) -> (r: bool)
    ensures
        r == (indices@.len() <= len && forall|k: int|
            0 <= k < indices@.len() ==> #[trigger] indices@[k] < len),
{
    if indices.len() > len {
        return false;
    }
    let mut k: usize = 0;
    while k < indices.len()
        invariant
            k <= indices@.len() <= len,
            forall|i: int| 0 <= i < k ==> #[trigger] indices@[i] < len,
        decreases indices@.len() - k,
    {
        if indices[k] >= len {
            return false;
        }
        k = k + 1;
    }
    true
}

/// The first `n` steps of `apply_indices`: step `k` overwrites position `k`
/// with the value then at position `idx[k]`.
pub open spec fn apply_steps<T>(s: Seq<T>, idx: Seq<usize>, n: nat) -> Seq<T>
    decreases n,
{
    if n == 0 || n > idx.len() {
        s
    } else {
        let prev = apply_steps(s, idx, (n - 1) as nat);
        prev.update(n - 1, prev[idx[n - 1] as int])
    }
}

/// What `apply_indices` leaves: all steps, then only the first
/// `idx.len()` positions.
pub open spec fn applied<T>(s: Seq<T>, idx: Seq<usize>) -> Seq<T> {
    apply_steps(s, idx, idx.len()).take(idx.len() as int)
}

proof fn lemma_apply_steps_len<T>(s: Seq<T>, idx: Seq<usize>, n: nat)
    requires
        idx.len() <= s.len(),
    ensures
        apply_steps(s, idx, n).len() == s.len(),
    decreases n,
{
    if n > 0 && n <= idx.len() {
        lemma_apply_steps_len(s, idx, (n - 1) as nat);
    }
}

/// Keeps, in place, the elements of `v` at the positions `indices` (in that
/// order) and drops the rest: for each `k`, `v[k] = v[indices[k]]`, then
/// `v` is cut to `indices.len()` elements.
pub fn apply_indices<T: Copy>(v: &mut Vec<T>, indices: &[usize])
    requires
        indices@.len() <= old(v)@.len(),
        forall|k: int| 0 <= k < indices@.len() ==> indices@[k] < old(v)@.len(),
    ensures
        final(v)@ == applied(old(v)@, indices@),
{
    let ghost s0 = v@;
    let mut k: usize = 0;
    while k < indices.len()
        invariant
            k <= indices@.len() <= s0.len(),
            forall|i: int| 0 <= i < indices@.len() ==> indices@[i] < s0.len(),
            v@ == apply_steps(s0, indices@, k as nat),
        decreases indices@.len() - k,
    {
        proof {
            lemma_apply_steps_len(s0, indices@, k as nat);
        }
        let old_index = indices[k];
        let x = v[old_index];
        v.set(k, x);
        k = k + 1;
    }
    proof {
        lemma_apply_steps_len(s0, indices@, k as nat);
    }
    v.truncate(indices.len());
}

/// With every kept position at or after its destination (as for the
/// strictly increasing bound lists of the pieces), `apply_indices` is a plain
/// selection: the result holds `s[idx[k]]` at position `k`.
pub proof fn lemma_apply_ascending_selects<T>(s: Seq<T>, idx: Seq<usize>)
    requires
        idx.len() <= s.len(),
        forall|k: int| 0 <= k < idx.len() ==> k <= #[trigger] idx[k] < s.len(),
    ensures
        applied(s, idx) == Seq::new(idx.len(), |k: int| s[idx[k] as int]),
{
    lemma_apply_steps_partial(s, idx, idx.len());
}

proof fn lemma_apply_steps_partial<T>(s: Seq<T>, idx: Seq<usize>, n: nat)
    requires
        n <= idx.len() <= s.len(),
        forall|k: int| 0 <= k < idx.len() ==> k <= #[trigger] idx[k] < s.len(),
    ensures
        apply_steps(s, idx, n) == Seq::new(
            s.len(),
            |k: int|
                if k < n {
                    s[idx[k] as int]
                } else {
                    s[k]
                },
        ),
    decreases n,
{
    if n > 0 {
        lemma_apply_steps_partial(s, idx, (n - 1) as nat);
        let prev = apply_steps(s, idx, (n - 1) as nat);
        assert(idx[n - 1] >= n - 1);
        assert(prev[idx[n - 1] as int] == s[idx[n - 1] as int]);
    }
}

} // verus!
