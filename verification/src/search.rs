//! The greedy best-first search over the box grid.
//!
//! The driver repeatedly expands the active node: it marks it completed,
//! stops with the reconstructed path when the target lies in the active
//! node's box, and otherwise generates the filtered orthogonal and diagonal
//! neighbor candidates, merges them into the frontier, re-sorts the frontier
//! ascending by heuristic with a stable sort, and takes its head as the next
//! active node. Priority is the heuristic alone (no accumulated path cost):
//! the search is deliberately greedy, not shortest-path optimal.
//!
//! The whole computation is specified by the recursive functions below
//! (`spec_search`, `spec_candidates`, `spec_sort`, `spec_reconstruct`), and
//! `build_path` is proved to return exactly their value.

use crate::coordinate::Coordinate;
use crate::coordinate::spec_adjacents;
use crate::coordinate::spec_centre_of_box;
use crate::coordinate::spec_diagonals;
use crate::coordinate::spec_heuristic;
use crate::coordinate::spec_in_same_box;
use crate::diagonal::Diagonal;
use crate::fp::F64_ZERO;
use crate::fp::f64_le;
use crate::fp::f64_lt;
use crate::fp::le_bits;
use crate::fp::lt_bits;
use crate::path_node::PathNode;
use vstd::prelude::*;

verus! {

/// The failure outcomes of a search.
#[derive(Clone, Copy, Debug, PartialEq, Eq, Structural)]
pub enum SearchError {
    /// The box size is not a strictly positive number.
    InvalidBoxSize,
    /// The frontier was exhausted (or the step bound reached) before any
    /// expanded box contained the target: no path exists.
    NoPathFound,
    /// A parent coordinate referenced by a back-pointer was missing from the
    /// completed list, or the back-pointer walk failed to reach the origin.
    /// This signals an internal defect, never a consequence of valid input.
    ReconstructionInvariantViolation,
}

/// The search state: the frontier of nodes awaiting expansion, kept in
/// priority order, and the list of completed (expanded) nodes. A coordinate
/// is treated as visited exactly when it is the point of some completed
/// node; the completed list doubles as that lookup set.
pub struct AStarState {
    pub stack: Vec<PathNode>,
    pub completed: Vec<PathNode>,
}

impl AStarState {
    /// A fresh state: empty frontier, nothing completed.
    pub fn new() -> (r: Self)
        ensures
            r.stack@ == Seq::<PathNode>::empty(),
            r.completed@ == Seq::<PathNode>::empty(),
    {
        Self { stack: Vec::new(), completed: Vec::new() }
    }

    /// Append a node to the completed list.
    fn mark_completed(&mut self, completed_node: PathNode)
        ensures
            final (self).completed@ == old(self).completed@.push(completed_node),
            final (self).stack@ == old(self).stack@,
    {
        self.completed.push(completed_node);
    }
}

/// The number of expansion steps after which the driver gives up. The
/// abstract search can run forever on an unbounded free plane, so the
/// verified loop carries an explicit step bound; it is far beyond anything
/// memory would allow, so reaching it is indistinguishable from frontier
/// exhaustion and is reported as `NoPathFound`.
pub const SEARCH_STEP_LIMIT: u64 = 0xFFFF_FFFF_FFFF_FFFF;

/// True iff some completed node has point `c`.
pub open spec fn completed_has_point(completed: Seq<PathNode>, c: Coordinate) -> bool {
    exists|i: int| 0 <= i < completed.len() && completed[i].point == c
}

/// An orthogonal candidate survives filtering iff both its components are
/// strictly positive (the plane is first-quadrant only), it is not terrain,
/// and it has not already been completed.
pub open spec fn spec_candidate_ok(
    c: Coordinate,
    terrain: Seq<Coordinate>,
    completed: Seq<PathNode>,
) -> bool {
    &&& lt_bits(F64_ZERO, c.x)
    &&& lt_bits(F64_ZERO, c.y)
    &&& !terrain.contains(c)
    &&& !completed_has_point(completed, c)
}

/// A diagonal candidate survives filtering iff its point and both gate
/// cells have strictly positive components, none of the three is terrain
/// (a diagonal move is blocked when either orthogonal corner it would cut
/// through is blocked), and its point has not already been completed.
pub open spec fn spec_diagonal_ok(
    d: Diagonal,
    terrain: Seq<Coordinate>,
    completed: Seq<PathNode>,
) -> bool {
    &&& lt_bits(F64_ZERO, d.point.x)
    &&& lt_bits(F64_ZERO, d.point.y)
    &&& lt_bits(F64_ZERO, d.route_sides.0.x)
    &&& lt_bits(F64_ZERO, d.route_sides.0.y)
    &&& lt_bits(F64_ZERO, d.route_sides.1.x)
    &&& lt_bits(F64_ZERO, d.route_sides.1.y)
    &&& !terrain.contains(d.point)
    &&& !terrain.contains(d.route_sides.0)
    &&& !terrain.contains(d.route_sides.1)
    &&& !completed_has_point(completed, d.point)
}

/// The search node for a surviving candidate point: heuristic towards the
/// target, parent the point of the node being expanded.
pub open spec fn spec_make_node(c: Coordinate, target: Coordinate, parent: Coordinate) -> PathNode {
    PathNode { point: c, heuristic: spec_heuristic(c, target), source: Some(parent) }
}

/// Append the node for an orthogonal candidate if it survives filtering.
pub open spec fn spec_push_adjacent(
    s: Seq<PathNode>,
    c: Coordinate,
    parent: Coordinate,
    target: Coordinate,
    terrain: Seq<Coordinate>,
    completed: Seq<PathNode>,
) -> Seq<PathNode> {
    if spec_candidate_ok(c, terrain, completed) {
        s.push(spec_make_node(c, target, parent))
    } else {
        s
    }
}

/// Append the node for a diagonal candidate if it survives filtering.
pub open spec fn spec_push_diagonal(
    s: Seq<PathNode>,
    d: Diagonal,
    parent: Coordinate,
    target: Coordinate,
    terrain: Seq<Coordinate>,
    completed: Seq<PathNode>,
) -> Seq<PathNode> {
    if spec_diagonal_ok(d, terrain, completed) {
        s.push(spec_make_node(d.point, target, parent))
    } else {
        s
    }
}

/// The surviving candidate nodes of one expansion, in generation order: the
/// four orthogonal neighbors (above, below, left, right), then the four
/// diagonals (top-right, top-left, bottom-right, bottom-left).
pub open spec fn spec_candidates(
    parent: Coordinate,
    target: Coordinate,
    box_size: u64,
    terrain: Seq<Coordinate>,
    completed: Seq<PathNode>,
) -> Seq<PathNode> {
    let centre = spec_centre_of_box(parent, box_size);
    let adj = spec_adjacents(centre, box_size);
    let diags = spec_diagonals(centre, box_size);
    let s = Seq::<PathNode>::empty();
    let s = spec_push_adjacent(s, adj[0], parent, target, terrain, completed);
    let s = spec_push_adjacent(s, adj[1], parent, target, terrain, completed);
    let s = spec_push_adjacent(s, adj[2], parent, target, terrain, completed);
    let s = spec_push_adjacent(s, adj[3], parent, target, terrain, completed);
    let s = spec_push_diagonal(s, diags[0], parent, target, terrain, completed);
    let s = spec_push_diagonal(s, diags[1], parent, target, terrain, completed);
    let s = spec_push_diagonal(s, diags[2], parent, target, terrain, completed);
    let s = spec_push_diagonal(s, diags[3], parent, target, terrain, completed);
    s
}

/// Insert a node into a frontier already in priority order, after every
/// node whose heuristic is less than or equal to its own. This is the
/// insertion step of a stable ascending insertion sort: among equal
/// heuristics, earlier nodes stay earlier.
pub open spec fn spec_insert(s: Seq<PathNode>, n: PathNode) -> Seq<PathNode>
    decreases s.len(),
{
    if s.len() == 0 {
        seq![n]
    } else if le_bits(s.last().heuristic, n.heuristic) {
        s.push(n)
    } else {
        spec_insert(s.drop_last(), n).push(s.last())
    }
}

/// Stable ascending insertion sort of the frontier by heuristic: the order
/// a stable sort under the IEEE-754 `<=` on heuristic bit patterns leaves,
/// with ties kept in their original relative order.
pub open spec fn spec_sort(s: Seq<PathNode>) -> Seq<PathNode>
    decreases s.len(),
{
    if s.len() == 0 {
        s
    } else {
        spec_insert(spec_sort(s.drop_last()), s.last())
    }
}

/// The first completed node with point `c`, if any.
pub open spec fn spec_find_first(completed: Seq<PathNode>, c: Coordinate) -> Option<PathNode>
    decreases completed.len(),
{
    if completed.len() == 0 {
        None
    } else if completed[0].point == c {
        Some(completed[0])
    } else {
        spec_find_first(completed.drop_first(), c)
    }
}

/// Map an executable search result to its mathematical view.
pub open spec fn result_view(r: Result<Vec<PathNode>, SearchError>) -> Result<
    Seq<PathNode>,
    SearchError,
> {
    match r {
        Ok(v) => Ok(v@),
        Err(e) => Err(e),
    }
}

/// Walk parent back-pointers from `node` through the completed list,
/// accumulating nodes, and reverse the accumulated sequence on reaching a
/// node with no parent, so the path runs origin first. Each hop resolves a
/// parent coordinate to the first completed node bearing it; a missing
/// parent, or a walk longer than `fuel` hops (only possible from a cycle
/// among back-pointers), is the reconstruction invariant violation.
pub open spec fn spec_reconstruct(
    completed: Seq<PathNode>,
    node: PathNode,
    acc: Seq<PathNode>,
    fuel: nat,
) -> Result<Seq<PathNode>, SearchError>
    decreases fuel,
{
    let acc2 = acc.push(node);
    match node.source {
        None => Ok(acc2.reverse()),
        Some(src) => if fuel == 0 {
            Err(SearchError::ReconstructionInvariantViolation)
        } else {
            match spec_find_first(completed, src) {
                None => Err(SearchError::ReconstructionInvariantViolation),
                Some(parent) => spec_reconstruct(completed, parent, acc2, (fuel - 1) as nat),
            }
        },
    }
}

/// One step of the search, recursively: complete the active node; if the
/// target lies in its box, reconstruct the path; otherwise drop the expanded
/// head of the frontier, append the surviving candidates, re-sort, and
/// recurse on the new head, failing with `NoPathFound` when the frontier is
/// empty or the step bound `fuel` runs out.
pub open spec fn spec_search(
    active: PathNode,
    stack: Seq<PathNode>,
    completed: Seq<PathNode>,
    target: Coordinate,
    box_size: u64,
    terrain: Seq<Coordinate>,
    fuel: nat,
) -> Result<Seq<PathNode>, SearchError>
    decreases fuel,
{
    if fuel == 0 {
        Err(SearchError::NoPathFound)
    } else {
        let completed2 = completed.push(active);
        if spec_in_same_box(active.point, target, box_size) {
            spec_reconstruct(completed2, active, Seq::empty(), completed2.len())
        } else {
            let stack2 = if stack.len() > 0 {
                stack.drop_first()
            } else {
                stack
            };
            let stack3 = spec_sort(
                stack2 + spec_candidates(active.point, target, box_size, terrain, completed2),
            );
            if stack3.len() == 0 {
                Err(SearchError::NoPathFound)
            } else {
                spec_search(stack3[0], stack3, completed2, target, box_size, terrain, (fuel - 1) as nat)
            }
        }
    }
}

/// The origin node of a search: the source coordinate, its distance to the
/// target, no parent.
pub open spec fn initial_node(source: Coordinate, target: Coordinate) -> PathNode {
    PathNode { point: source, heuristic: spec_heuristic(source, target), source: None }
}

/// The full search: rejected outright unless the box size is a strictly
/// positive number, and otherwise the recursive search from the origin node
/// with an empty frontier and empty completed list.
pub open spec fn spec_build_path(
    source: Coordinate,
    target: Coordinate,
    box_size: u64,
    terrain: Seq<Coordinate>,
) -> Result<Seq<PathNode>, SearchError> {
    if !lt_bits(F64_ZERO, box_size) {
        Err(SearchError::InvalidBoxSize)
    } else {
        spec_search(
            initial_node(source, target),
            Seq::empty(),
            Seq::empty(),
            target,
            box_size,
            terrain,
            SEARCH_STEP_LIMIT as nat,
        )
    }
}

/// Linear scan of the terrain list.
fn contains_coord(v: &Vec<Coordinate>, c: Coordinate) -> (r: bool)
    ensures
        r == v@.contains(c),
{
    let mut i: usize = 0;
    while i < v.len()
        invariant
            i <= v@.len(),
            forall|j: int| 0 <= j < i ==> v@[j] != c,
        decreases v@.len() - i,
    {
        if v[i] == c {
            return true;
        }
        i += 1;
    }
    false
}

/// Linear scan of the completed list for a point.
fn has_point(completed: &Vec<PathNode>, c: Coordinate) -> (r: bool)
    ensures
        r == completed_has_point(completed@, c),
{
    let mut i: usize = 0;
    while i < completed.len()
        invariant
            i <= completed@.len(),
            forall|j: int| 0 <= j < i ==> completed@[j].point != c,
        decreases completed@.len() - i,
    {
        if completed[i].point == c {
            return true;
        }
        i += 1;
    }
    false
}

/// Filter test for an orthogonal candidate.
fn candidate_ok(c: Coordinate, terrain: &Vec<Coordinate>, completed: &Vec<PathNode>) -> (r: bool)
    ensures
        r == spec_candidate_ok(c, terrain@, completed@),
{
    f64_lt(F64_ZERO, c.x) && f64_lt(F64_ZERO, c.y) && !contains_coord(terrain, c) && !has_point(
        completed,
        c,
    )
}

/// Filter test for a diagonal candidate.
fn diagonal_ok(d: &Diagonal, terrain: &Vec<Coordinate>, completed: &Vec<PathNode>) -> (r: bool)
    ensures
        r == spec_diagonal_ok(*d, terrain@, completed@),
{
    f64_lt(F64_ZERO, d.point.x) && f64_lt(F64_ZERO, d.point.y) && f64_lt(F64_ZERO, d.route_sides.0.x)
        && f64_lt(F64_ZERO, d.route_sides.0.y) && f64_lt(F64_ZERO, d.route_sides.1.x) && f64_lt(
        F64_ZERO,
        d.route_sides.1.y,
    ) && !contains_coord(terrain, d.point) && !contains_coord(terrain, d.route_sides.0)
        && !contains_coord(terrain, d.route_sides.1) && !has_point(completed, d.point)
}

/// Append the node for one orthogonal candidate if it survives filtering.
fn push_adjacent(
    cands: &mut Vec<PathNode>,
    c: Coordinate,
    parent: Coordinate,
    target: &Coordinate,
    terrain: &Vec<Coordinate>,
    completed: &Vec<PathNode>,
)
    ensures
        final (cands)@ == spec_push_adjacent(old(cands)@, c, parent, *target, terrain@, completed@),
{
    if candidate_ok(c, terrain, completed) {
        let h = c.heuristic(target);
        cands.push(PathNode::new(c, h, parent));
    }
}

/// Append the node for one diagonal candidate if it survives filtering.
fn push_diagonal(
    cands: &mut Vec<PathNode>,
    d: &Diagonal,
    parent: Coordinate,
    target: &Coordinate,
    terrain: &Vec<Coordinate>,
    completed: &Vec<PathNode>,
)
    ensures
        final (cands)@ == spec_push_diagonal(old(cands)@, *d, parent, *target, terrain@, completed@),
{
    if diagonal_ok(d, terrain, completed) {
        let h = d.point.heuristic(target);
        cands.push(PathNode::new(d.point, h, parent));
    }
}

/// Generate and filter the candidate nodes of one expansion.
fn make_candidates(
    parent: Coordinate,
    target: &Coordinate,
    box_size: u64,
    terrain: &Vec<Coordinate>,
    completed: &Vec<PathNode>,
) -> (r: Vec<PathNode>)
    ensures
        r@ == spec_candidates(parent, *target, box_size, terrain@, completed@),
{
    let (adjacents, diagonals) = parent.load_options(box_size);
    let mut cands: Vec<PathNode> = Vec::new();
    push_adjacent(&mut cands, adjacents[0], parent, target, terrain, completed);
    push_adjacent(&mut cands, adjacents[1], parent, target, terrain, completed);
    push_adjacent(&mut cands, adjacents[2], parent, target, terrain, completed);
    push_adjacent(&mut cands, adjacents[3], parent, target, terrain, completed);
    push_diagonal(&mut cands, &diagonals[0], parent, target, terrain, completed);
    push_diagonal(&mut cands, &diagonals[1], parent, target, terrain, completed);
    push_diagonal(&mut cands, &diagonals[2], parent, target, terrain, completed);
    push_diagonal(&mut cands, &diagonals[3], parent, target, terrain, completed);
    cands
}

/// Insert a node into a frontier already in priority order; the insertion
/// step of the stable sort.
fn insert_into(nodes: &mut Vec<PathNode>, n: PathNode)
    ensures
        final (nodes)@ == spec_insert(old(nodes)@, n),
    decreases old(nodes)@.len(),
{
    if nodes.len() == 0 {
        nodes.push(n);
    } else {
        let last = nodes[nodes.len() - 1];
        if f64_le(last.heuristic, n.heuristic) {
            nodes.push(n);
        } else {
            let popped = nodes.pop().unwrap();
            insert_into(nodes, n);
            nodes.push(popped);
        }
    }
}

/// Stable ascending insertion sort of the frontier by heuristic.
fn sort_stack(nodes: &mut Vec<PathNode>)
    ensures
        final (nodes)@ == spec_sort(old(nodes)@),
    decreases old(nodes)@.len(),
{
    if nodes.len() > 0 {
        let last = nodes.pop().unwrap();
        sort_stack(nodes);
        insert_into(nodes, last);
    }
}

/// Find the first completed node with point `c`.
fn find_first(completed: &Vec<PathNode>, c: Coordinate) -> (r: Option<PathNode>)
    ensures
        r == spec_find_first(completed@, c),
    decreases completed@.len(),
{
    let mut i: usize = 0;
    proof {
        assert(completed@.skip(0) =~= completed@);
    }
    while i < completed.len()
        invariant
            i <= completed@.len(),
            spec_find_first(completed@, c) == spec_find_first(completed@.skip(i as int), c),
        decreases completed@.len() - i,
    {
        proof {
            assert(completed@.skip(i as int).len() > 0);
            assert(completed@.skip(i as int)[0] == completed@[i as int]);
        }
        if completed[i].point == c {
            return Some(completed[i]);
        }
        proof {
            assert(completed@.skip(i as int).drop_first() =~= completed@.skip(i as int + 1));
        }
        i += 1;
    }
    proof {
        assert(completed@.skip(i as int) =~= Seq::<PathNode>::empty());
    }
    None
}

/// Reverse the accumulated back-pointer walk into origin-first order.
fn reverse_nodes(v: &Vec<PathNode>) -> (r: Vec<PathNode>)
    ensures
        r@ == v@.reverse(),
{
    let mut r: Vec<PathNode> = Vec::new();
    let mut i: usize = v.len();
    while i > 0
        invariant
            i <= v@.len(),
            r@.len() == v@.len() - i,
            forall|k: int| 0 <= k < r@.len() ==> r@[k] == v@[v@.len() - 1 - k],
        decreases i,
    {
        i -= 1;
        r.push(v[i]);
    }
    proof {
        assert(r@ =~= v@.reverse());
    }
    r
}

/// Walk parent back-pointers from `terminal` through the completed list and
/// return the origin-first path, or the invariant-violation error if a
/// parent is missing or the walk does not reach the origin within
/// `completed.len()` hops.
fn reconstruct(completed: &Vec<PathNode>, terminal: PathNode) -> (r: Result<
    Vec<PathNode>,
    SearchError,
>)
    ensures
        result_view(r) == spec_reconstruct(completed@, terminal, Seq::empty(), completed@.len()),
{
    let mut acc: Vec<PathNode> = Vec::new();
    let mut node = terminal;
    let mut fuel: usize = completed.len();
    loop
        invariant
            spec_reconstruct(completed@, node, acc@, fuel as nat) == spec_reconstruct(
                completed@,
                terminal,
                Seq::empty(),
                completed@.len(),
            ),
        decreases fuel,
    {
        acc.push(node);
        match node.source {
            None => {
                let path = reverse_nodes(&acc);
                return Ok(path);
            },
            Some(src) => {
                if fuel == 0 {
                    return Err(SearchError::ReconstructionInvariantViolation);
                }
                match find_first(completed, src) {
                    None => {
                        return Err(SearchError::ReconstructionInvariantViolation);
                    },
                    Some(parent) => {
                        node = parent;
                        fuel -= 1;
                    },
                }
            },
        }
    }
}

/// Compute a route from `source` to `target` on the plane of boxes of side
/// `box_size`, avoiding the `terrain` coordinates.
///
/// All coordinate components and the box size are double-precision bit
/// patterns. The result is exactly the value of `spec_build_path`: either
/// the ordered list of nodes from the source to the first expanded node
/// whose box contains the target, or the error that names why no such list
/// exists.
pub fn build_path(
    source: Coordinate,
    target: Coordinate,
    box_size: u64,
    terrain: Vec<Coordinate>,
) -> (r: Result<Vec<PathNode>, SearchError>)
    ensures
        result_view(r) == spec_build_path(source, target, box_size, terrain@),
{
    if !f64_lt(F64_ZERO, box_size) {
        return Err(SearchError::InvalidBoxSize);
    }
    let mut state = AStarState::new();
    let h = source.heuristic(&target);
    let mut active = PathNode::initial(source, h);
    let mut fuel: u64 = SEARCH_STEP_LIMIT;
    proof {
        assert(active == initial_node(source, target));
    }
    loop
        invariant
            spec_search(
                active,
                state.stack@,
                state.completed@,
                target,
                box_size,
                terrain@,
                fuel as nat,
            ) == spec_build_path(source, target, box_size, terrain@),
        decreases fuel,
    {
        if fuel == 0 {
            return Err(SearchError::NoPathFound);
        }
        state.mark_completed(active);
        if active.point.in_same_box(&target, box_size) {
            return reconstruct(&state.completed, active);
        }
        let ghost stack_before = state.stack@;
        if state.stack.len() > 0 {
            let _dropped = state.stack.remove(0);
            proof {
                assert(state.stack@ =~= stack_before.drop_first());
            }
        }
        let mut cands = make_candidates(active.point, &target, box_size, &terrain, &state.completed);
        state.stack.append(&mut cands);
        sort_stack(&mut state.stack);
        if state.stack.len() == 0 {
            return Err(SearchError::NoPathFound);
        }
        active = state.stack[0];
        fuel -= 1;
    }
}

} // verus!
