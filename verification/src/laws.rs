//! General properties of the search, stated and proved against the
//! specification that `build_path` is proved to compute.

use crate::coordinate::Coordinate;
use crate::coordinate::spec_above;
use crate::coordinate::spec_adjacents;
use crate::coordinate::spec_below;
use crate::coordinate::spec_centre_of_box;
use crate::coordinate::spec_diagonals;
use crate::coordinate::spec_in_same_box;
use crate::coordinate::spec_left;
use crate::coordinate::spec_right;
use crate::fp::F64_ZERO;
use crate::fp::is_nan_bits;
use crate::fp::le_bits;
use crate::fp::lt_bits;
use crate::path_node::PathNode;
use crate::search::SEARCH_STEP_LIMIT;
use crate::search::SearchError;
use crate::search::completed_has_point;
use crate::search::initial_node;
use crate::search::spec_build_path;
use crate::search::spec_candidates;
use crate::search::spec_find_first;
use crate::search::spec_reconstruct;
use crate::search::spec_insert;
use crate::search::spec_search;
use crate::search::spec_sort;
use vstd::prelude::*;
use vstd::seq_lib::group_to_multiset_ensures;

verus! {

/// Same-box short-circuit: whenever the box size is a strictly positive
/// number and the target already lies in the box centered on the source,
/// the search returns exactly one node, the source itself, with no parent
/// (whatever the terrain is: no candidate is ever generated).
pub proof fn lemma_same_box_short_circuit(
    source: Coordinate,
    target: Coordinate,
    box_size: u64,
    terrain: Seq<Coordinate>,
)
    requires
        lt_bits(F64_ZERO, box_size),
        spec_in_same_box(source, target, box_size),
    ensures
        spec_build_path(source, target, box_size, terrain) == Ok::<Seq<PathNode>, SearchError>(
            seq![initial_node(source, target)],
        ),
{
    let init = initial_node(source, target);
    let completed2 = Seq::<PathNode>::empty().push(init);
    assert(spec_reconstruct(completed2, init, Seq::empty(), completed2.len())
        == Ok::<Seq<PathNode>, SearchError>(Seq::<PathNode>::empty().push(init).reverse()));
    assert(Seq::<PathNode>::empty().push(init).reverse() =~= seq![init]);
    assert(spec_search(
        init,
        Seq::empty(),
        Seq::empty(),
        target,
        box_size,
        terrain,
        SEARCH_STEP_LIMIT as nat,
    ) == Ok::<Seq<PathNode>, SearchError>(seq![init]));
}

/// Determinism: the search result is a mathematical function of the source,
/// target, box size and terrain alone. Together with the contract of
/// `build_path`, whose result always equals this function of its inputs,
/// two calls on identical inputs return identical output sequences.
pub proof fn lemma_deterministic(
    source: Coordinate,
    target: Coordinate,
    box_size: u64,
    terrain: Seq<Coordinate>,
    r1: Result<Seq<PathNode>, SearchError>,
    r2: Result<Seq<PathNode>, SearchError>,
)
    requires
        r1 == spec_build_path(source, target, box_size, terrain),
        r2 == spec_build_path(source, target, box_size, terrain),
    ensures
        r1 == r2,
{
}

/// No-path reporting: when the target is not in the source's box and every
/// orthogonal neighbor of the source's box center is terrain (which also
/// gates off all four diagonals), the frontier is exhausted at once and the
/// search reports `NoPathFound` — an ordinary error value, not a fault.
pub proof fn lemma_enclosed_source_no_path(
    source: Coordinate,
    target: Coordinate,
    box_size: u64,
    terrain: Seq<Coordinate>,
)
    requires
        lt_bits(F64_ZERO, box_size),
        !spec_in_same_box(source, target, box_size),
        terrain.contains(spec_above(spec_centre_of_box(source, box_size), box_size)),
        terrain.contains(spec_below(spec_centre_of_box(source, box_size), box_size)),
        terrain.contains(spec_left(spec_centre_of_box(source, box_size), box_size)),
        terrain.contains(spec_right(spec_centre_of_box(source, box_size), box_size)),
    ensures
        spec_build_path(source, target, box_size, terrain) == Err::<Seq<PathNode>, SearchError>(
            SearchError::NoPathFound,
        ),
{
    let init = initial_node(source, target);
    let completed2 = Seq::<PathNode>::empty().push(init);
    let centre = spec_centre_of_box(source, box_size);
    let adj = spec_adjacents(centre, box_size);
    let diags = spec_diagonals(centre, box_size);
    assert(terrain.contains(adj[0]));
    assert(terrain.contains(adj[1]));
    assert(terrain.contains(adj[2]));
    assert(terrain.contains(adj[3]));
    assert(terrain.contains(diags[0].route_sides.0));
    assert(terrain.contains(diags[1].route_sides.0));
    assert(terrain.contains(diags[2].route_sides.0));
    assert(terrain.contains(diags[3].route_sides.0));
    assert(spec_candidates(source, target, box_size, terrain, completed2)
        =~= Seq::<PathNode>::empty());
    assert(Seq::<PathNode>::empty() + spec_candidates(source, target, box_size, terrain, completed2)
        =~= Seq::<PathNode>::empty());
    assert(spec_sort(Seq::<PathNode>::empty()) == Seq::<PathNode>::empty());
    assert(spec_search(
        init,
        Seq::empty(),
        Seq::empty(),
        target,
        box_size,
        terrain,
        SEARCH_STEP_LIMIT as nat,
    ) == Err::<Seq<PathNode>, SearchError>(SearchError::NoPathFound));
}

/// A back-pointer walk yields a path or the invariant-violation error,
/// never anything else.
proof fn lemma_reconstruct_not_invalid(
    completed: Seq<PathNode>,
    node: PathNode,
    acc: Seq<PathNode>,
    fuel: nat,
)
    ensures
        spec_reconstruct(completed, node, acc, fuel) != Err::<Seq<PathNode>, SearchError>(
            SearchError::InvalidBoxSize,
        ),
        spec_reconstruct(completed, node, acc, fuel) != Err::<Seq<PathNode>, SearchError>(
            SearchError::NoPathFound,
        ),
    decreases fuel,
{
    match node.source {
        None => {},
        Some(src) => {
            if fuel != 0 {
                match spec_find_first(completed, src) {
                    None => {},
                    Some(parent) => {
                        lemma_reconstruct_not_invalid(completed, parent, acc.push(node), (fuel
                            - 1) as nat);
                    },
                }
            }
        },
    }
}

/// The recursion behind the search never produces `InvalidBoxSize`.
proof fn lemma_search_not_invalid(
    active: PathNode,
    stack: Seq<PathNode>,
    completed: Seq<PathNode>,
    target: Coordinate,
    box_size: u64,
    terrain: Seq<Coordinate>,
    fuel: nat,
)
    ensures
        spec_search(active, stack, completed, target, box_size, terrain, fuel) != Err::<
            Seq<PathNode>,
            SearchError,
        >(SearchError::InvalidBoxSize),
    decreases fuel,
{
    if fuel != 0 {
        let completed2 = completed.push(active);
        if spec_in_same_box(active.point, target, box_size) {
            lemma_reconstruct_not_invalid(completed2, active, Seq::empty(), completed2.len());
        } else {
            let stack2 = if stack.len() > 0 {
                stack.drop_first()
            } else {
                stack
            };
            let stack3 = spec_sort(
                stack2 + spec_candidates(active.point, target, box_size, terrain, completed2),
            );
            if stack3.len() != 0 {
                lemma_search_not_invalid(
                    stack3[0],
                    stack3,
                    completed2,
                    target,
                    box_size,
                    terrain,
                    (fuel - 1) as nat,
                );
            }
        }
    }
}

/// The box-size error comes back exactly when it should: the search returns
/// `InvalidBoxSize` if and only if the box size is not a strictly positive
/// number (zero, negative, or NaN).
pub proof fn lemma_invalid_box_size_iff(
    source: Coordinate,
    target: Coordinate,
    box_size: u64,
    terrain: Seq<Coordinate>,
)
    ensures
        spec_build_path(source, target, box_size, terrain) == Err::<Seq<PathNode>, SearchError>(
            SearchError::InvalidBoxSize,
        ) <==> !lt_bits(F64_ZERO, box_size),
{
    if lt_bits(F64_ZERO, box_size) {
        lemma_search_not_invalid(
            initial_node(source, target),
            Seq::empty(),
            Seq::empty(),
            target,
            box_size,
            terrain,
            SEARCH_STEP_LIMIT as nat,
        );
    }
}

/// True iff the frontier is in priority order: ascending by the IEEE-754
/// `<=` on heuristic bit patterns.
pub open spec fn sorted_by_heuristic(s: Seq<PathNode>) -> bool {
    forall|i: int, j: int| 0 <= i < j < s.len() ==> le_bits(s[i].heuristic, s[j].heuristic)
}

/// True iff no node of the sequence carries a NaN heuristic.
pub open spec fn no_nan_heuristics(s: Seq<PathNode>) -> bool {
    forall|i: int| 0 <= i < s.len() ==> !is_nan_bits(s[i].heuristic)
}

/// The IEEE-754 `<=` is total on non-NaN bit patterns.
proof fn lemma_le_bits_total(a: u64, b: u64)
    requires
        !is_nan_bits(a),
        !is_nan_bits(b),
    ensures
        le_bits(a, b) || le_bits(b, a),
{
    if crate::fp::magnitude(a) == crate::fp::magnitude(b) && crate::fp::sign_bit(a)
        == crate::fp::sign_bit(b) {
        assert(a == b) by (bit_vector)
            requires
                a & 0x7FFF_FFFF_FFFF_FFFFu64 == b & 0x7FFF_FFFF_FFFF_FFFFu64,
                (a & 0x8000_0000_0000_0000u64 != 0) == (b & 0x8000_0000_0000_0000u64 != 0),
        ;
    }
}

/// The IEEE-754 `<=` is transitive.
proof fn lemma_le_bits_trans(a: u64, b: u64, c: u64)
    requires
        le_bits(a, b),
        le_bits(b, c),
    ensures
        le_bits(a, c),
{
}

/// Inserting into a frontier in priority order keeps it in priority order,
/// keeps its heuristics NaN-free, and adds exactly the inserted node.
proof fn lemma_insert_sorted(s: Seq<PathNode>, n: PathNode)
    requires
        sorted_by_heuristic(s),
        no_nan_heuristics(s),
        !is_nan_bits(n.heuristic),
    ensures
        sorted_by_heuristic(spec_insert(s, n)),
        no_nan_heuristics(spec_insert(s, n)),
        spec_insert(s, n).to_multiset() == s.to_multiset().insert(n),
    decreases s.len(),
{
    broadcast use group_to_multiset_ensures;

    if s.len() == 0 {
        assert(seq![n] =~= Seq::<PathNode>::empty().push(n));
    } else if le_bits(s.last().heuristic, n.heuristic) {
        let r = s.push(n);
        assert forall|i: int| 0 <= i < s.len() implies le_bits(
            s[i].heuristic,
            n.heuristic,
        ) by {
            if i < s.len() - 1 {
                assert(le_bits(s[i].heuristic, s.last().heuristic));
            }
            lemma_le_bits_trans(s[i].heuristic, s.last().heuristic, n.heuristic);
        }
        assert(sorted_by_heuristic(r));
        assert(no_nan_heuristics(r));
    } else {
        let prefix = s.drop_last();
        assert(sorted_by_heuristic(prefix));
        assert(no_nan_heuristics(prefix));
        lemma_insert_sorted(prefix, n);
        let rest = spec_insert(prefix, n);
        let r = rest.push(s.last());
        lemma_le_bits_total(s.last().heuristic, n.heuristic);
        assert forall|i: int| 0 <= i < rest.len() implies le_bits(
            rest[i].heuristic,
            s.last().heuristic,
        ) by {
            assert(rest.contains(rest[i]));
            assert(rest.to_multiset().count(rest[i]) > 0);
            if rest[i] == n {
            } else {
                assert(prefix.to_multiset().count(rest[i]) > 0);
                assert(prefix.contains(rest[i]));
                let k = choose|k: int| 0 <= k < prefix.len() && prefix[k] == rest[i];
                assert(s[k] == prefix[k]);
                assert(le_bits(s[k].heuristic, s.last().heuristic));
            }
        }
        assert forall|i: int| 0 <= i < rest.len() implies !is_nan_bits(
            rest[i].heuristic,
        ) by {
        }
        assert(sorted_by_heuristic(r));
        assert(no_nan_heuristics(r));
        assert(s =~= prefix.push(s.last()));
        assert(s.to_multiset() == prefix.to_multiset().insert(s.last()));
        assert(r.to_multiset() =~= s.to_multiset().insert(n));
    }
}

/// Frontier order: sorting a NaN-free frontier yields a frontier in
/// priority order that holds exactly the same nodes, with the same
/// multiplicities. Together with the contract of `build_path` (whose
/// frontier is re-sorted by this very function after every expansion), the
/// frontier is always kept ascending by heuristic and no candidate is ever
/// lost or invented by sorting.
pub proof fn lemma_sort_orders_frontier(s: Seq<PathNode>)
    requires
        no_nan_heuristics(s),
    ensures
        sorted_by_heuristic(spec_sort(s)),
        no_nan_heuristics(spec_sort(s)),
        spec_sort(s).to_multiset() == s.to_multiset(),
    decreases s.len(),
{
    broadcast use group_to_multiset_ensures;

    if s.len() == 0 {
    } else {
        let prefix = s.drop_last();
        assert(no_nan_heuristics(prefix));
        lemma_sort_orders_frontier(prefix);
        lemma_insert_sorted(spec_sort(prefix), s.last());
        assert(s =~= prefix.push(s.last()));
        assert(s.to_multiset() == prefix.to_multiset().insert(s.last()));
    }
}

/// True iff each node of the sequence names the next node's point as its
/// parent: the shape of a back-pointer walk, terminal first.
pub open spec fn linked_acc(acc: Seq<PathNode>) -> bool {
    forall|j: int| 0 <= j < acc.len() - 1 ==> acc[j].source == Some(acc[j + 1].point)
}

/// A found node carries the point that was looked up and lies in the
/// completed list.
proof fn lemma_find_first_found(completed: Seq<PathNode>, c: Coordinate, n: PathNode)
    requires
        spec_find_first(completed, c) == Some(n),
    ensures
        completed.contains(n),
        n.point == c,
    decreases completed.len(),
{
    if completed.len() == 0 {
    } else if completed[0].point == c {
        assert(completed[0] == n);
        assert(completed.contains(n));
    } else {
        lemma_find_first_found(completed.drop_first(), c, n);
        let i = choose|i: int|
            0 <= i < completed.drop_first().len() && completed.drop_first()[i] == n;
        assert(completed[i + 1] == n);
        assert(completed.contains(n));
    }
}

/// A successful back-pointer walk yields a path that ends at the first
/// accumulated node, begins at a parentless node of the completed list (or
/// the walk's start itself), and links every node to its predecessor.
proof fn lemma_reconstruct_chain(
    completed: Seq<PathNode>,
    node: PathNode,
    acc: Seq<PathNode>,
    fuel: nat,
    p: Seq<PathNode>,
)
    requires
        spec_reconstruct(completed, node, acc, fuel) == Ok::<Seq<PathNode>, SearchError>(p),
        linked_acc(acc),
        acc.len() > 0 ==> acc[acc.len() - 1].source == Some(node.point),
    ensures
        p.len() >= acc.len() + 1,
        p[p.len() - 1] == (if acc.len() > 0 {
            acc[0]
        } else {
            node
        }),
        p[0].source is None,
        completed.contains(p[0]) || p[0] == node,
        forall|i: int| 1 <= i < p.len() ==> p[i].source == Some(p[i - 1].point),
    decreases fuel,
{
    let acc2 = acc.push(node);
    assert(linked_acc(acc2)) by {
        assert forall|j: int| 0 <= j < acc2.len() - 1 implies acc2[j].source == Some(
            acc2[j + 1].point,
        ) by {
            if j < acc.len() - 1 {
                assert(acc2[j] == acc[j] && acc2[j + 1] == acc[j + 1]);
            } else {
                assert(acc2[j] == acc[acc.len() - 1] && acc2[j + 1] == node);
            }
        }
    }
    match node.source {
        None => {
            assert(p == acc2.reverse());
            assert(p[0] == acc2[acc2.len() - 1]);
            assert(p[p.len() - 1] == acc2[0]);
            assert forall|i: int| 1 <= i < p.len() implies p[i].source == Some(
                p[i - 1].point,
            ) by {
                assert(p[i] == acc2[acc2.len() - 1 - i]);
                assert(p[i - 1] == acc2[acc2.len() - i]);
            }
        },
        Some(src) => {
            assert(fuel != 0);
            match spec_find_first(completed, src) {
                None => {
                    assert(false);
                },
                Some(parent) => {
                    lemma_find_first_found(completed, src, parent);
                    lemma_reconstruct_chain(completed, parent, acc2, (fuel - 1) as nat, p);
                },
            }
        },
    }
}

/// Every successful search unfolds to a successful back-pointer walk, and
/// the walk ends at the origin node the search started from.
proof fn lemma_search_path_shape(
    active: PathNode,
    stack: Seq<PathNode>,
    completed: Seq<PathNode>,
    target: Coordinate,
    box_size: u64,
    terrain: Seq<Coordinate>,
    fuel: nat,
    p: Seq<PathNode>,
    origin: PathNode,
)
    requires
        spec_search(active, stack, completed, target, box_size, terrain, fuel) == Ok::<
            Seq<PathNode>,
            SearchError,
        >(p),
        forall|i: int| 1 <= i < completed.len() ==> completed[i].source is Some,
        completed.len() == 0 ==> active == origin,
        completed.len() > 0 ==> completed[0] == origin,
        completed.len() > 0 ==> active.source is Some,
        origin.source is None,
        forall|i: int| 0 <= i < stack.len() ==> (#[trigger] stack[i].source) is Some,
    ensures
        p.len() >= 1,
        p[0] == origin,
        p[0].source is None,
        forall|i: int| 1 <= i < p.len() ==> p[i].source == Some(p[i - 1].point),
        spec_in_same_box(p[p.len() - 1].point, target, box_size),
    decreases fuel,
{
    broadcast use group_to_multiset_ensures;

    let completed2 = completed.push(active);
    if spec_in_same_box(active.point, target, box_size) {
        lemma_reconstruct_chain(completed2, active, Seq::empty(), completed2.len(), p);
        if p[0] == active {
            assert(p[0] == origin);
        } else {
            assert(completed2.contains(p[0]));
            let i = choose|i: int| 0 <= i < completed2.len() && completed2[i] == p[0];
            if i == 0 {
            } else if i < completed.len() {
                assert(completed2[i] == completed[i]);
                assert(false);
            } else {
                assert(completed2[i] == active);
                assert(false);
            }
        }
    } else {
        let stack2 = if stack.len() > 0 {
            stack.drop_first()
        } else {
            stack
        };
        let cands = spec_candidates(active.point, target, box_size, terrain, completed2);
        let merged = stack2 + cands;
        let stack3 = spec_sort(merged);
        lemma_sort_multiset(merged);
        lemma_candidates_sources(active.point, target, box_size, terrain, completed2);
        assert forall|i: int|
            0 <= i < stack3.len() implies (#[trigger] stack3[i].source) is Some by {
            assert(stack3.contains(stack3[i]));
            assert(stack3.to_multiset().count(stack3[i]) > 0);
            assert(merged.to_multiset().count(stack3[i]) > 0);
            assert(merged.contains(stack3[i]));
            let m = choose|m: int| 0 <= m < merged.len() && merged[m] == stack3[i];
            if m < stack2.len() {
                if stack.len() > 0 {
                    assert(stack2[m] == stack[m + 1]);
                }
            } else {
                assert(merged[m] == cands[m - stack2.len()]);
            }
        }
        lemma_search_path_shape(
            stack3[0],
            stack3,
            completed2,
            target,
            box_size,
            terrain,
            (fuel - 1) as nat,
            p,
            origin,
        );
    }
}

/// Inserting adds exactly the inserted node, whatever the heuristics are.
proof fn lemma_insert_multiset(s: Seq<PathNode>, n: PathNode)
    ensures
        spec_insert(s, n).to_multiset() == s.to_multiset().insert(n),
    decreases s.len(),
{
    broadcast use group_to_multiset_ensures;

    if s.len() == 0 {
        assert(seq![n] =~= Seq::<PathNode>::empty().push(n));
    } else if le_bits(s.last().heuristic, n.heuristic) {
    } else {
        lemma_insert_multiset(s.drop_last(), n);
        assert(s =~= s.drop_last().push(s.last()));
        assert(s.to_multiset() == s.drop_last().to_multiset().insert(s.last()));
        assert(spec_insert(s, n).to_multiset() =~= s.to_multiset().insert(n));
    }
}

/// Sorting neither loses nor invents nodes, whatever the heuristics are.
proof fn lemma_sort_multiset(s: Seq<PathNode>)
    ensures
        spec_sort(s).to_multiset() == s.to_multiset(),
    decreases s.len(),
{
    broadcast use group_to_multiset_ensures;

    if s.len() == 0 {
    } else {
        lemma_sort_multiset(s.drop_last());
        lemma_insert_multiset(spec_sort(s.drop_last()), s.last());
        assert(s =~= s.drop_last().push(s.last()));
        assert(s.to_multiset() == s.drop_last().to_multiset().insert(s.last()));
    }
}

/// Looking up a point that occurs at index `j` finds its first occurrence,
/// at an index no later than `j`.
proof fn lemma_find_first_exists(completed: Seq<PathNode>, p: Coordinate, j: int)
    requires
        0 <= j < completed.len(),
        completed[j].point == p,
    ensures
        exists|m: int|
            0 <= m <= j && completed[m].point == p && spec_find_first(completed, p) == Some(
                completed[m],
            ),
    decreases completed.len(),
{
    if completed[0].point == p {
        assert(0 <= 0 <= j && completed[0].point == p && spec_find_first(completed, p) == Some(
            completed[0],
        ));
    } else {
        let rest = completed.drop_first();
        assert(rest[j - 1] == completed[j]);
        lemma_find_first_exists(rest, p, j - 1);
        let m = choose|m: int|
            0 <= m <= j - 1 && rest[m].point == p && spec_find_first(rest, p) == Some(rest[m]);
        assert(completed[m + 1] == rest[m]);
        assert(0 <= m + 1 <= j && completed[m + 1].point == p && spec_find_first(completed, p)
            == Some(completed[m + 1]));
    }
}

/// True iff every completed node's parent coordinate, where it has one, is
/// the point of some strictly earlier completed node.
pub open spec fn parents_precede(completed: Seq<PathNode>) -> bool {
    forall|i: int|
        0 <= i < completed.len() ==> ((#[trigger] completed[i].source) matches Some(p)
            ==> exists|j: int| 0 <= j < i && completed[j].point == p)
}

/// A back-pointer walk from a node of a well-formed completed list always
/// succeeds: starting from an occurrence at index `k` with at least `k`
/// hops of fuel, the walk steps to strictly earlier first occurrences and
/// reaches the parentless head of the list.
proof fn lemma_walk_ok(
    completed: Seq<PathNode>,
    node: PathNode,
    acc: Seq<PathNode>,
    fuel: nat,
    k: int,
)
    requires
        parents_precede(completed),
        forall|i: int| 1 <= i < completed.len() ==> completed[i].source is Some,
        completed.len() > 0 && completed[0].source is None,
        0 <= k < completed.len(),
        completed[k] == node,
        fuel >= k,
    ensures
        spec_reconstruct(completed, node, acc, fuel) is Ok,
    decreases k,
{
    match node.source {
        None => {},
        Some(p) => {
            assert(k != 0);
            assert(exists|j: int| 0 <= j < k && completed[j].point == p);
            let j = choose|j: int| 0 <= j < k && completed[j].point == p;
            lemma_find_first_exists(completed, p, j);
            let m = choose|m: int|
                0 <= m <= j && completed[m].point == p && spec_find_first(completed, p) == Some(
                    completed[m],
                );
            lemma_walk_ok(completed, completed[m], acc.push(node), (fuel - 1) as nat, m);
        },
    }
}

/// Every node a candidate list produces names the expanded point as its
/// parent.
proof fn lemma_candidates_sources(
    parent: Coordinate,
    target: Coordinate,
    box_size: u64,
    terrain: Seq<Coordinate>,
    completed: Seq<PathNode>,
)
    ensures
        forall|i: int|
            0 <= i < spec_candidates(parent, target, box_size, terrain, completed).len()
                ==> spec_candidates(parent, target, box_size, terrain, completed)[i].source
                == Some(parent),
{
}

/// The search never reports its internal-defect error: on no input does
/// `spec_search` (and with it `build_path`) produce
/// `ReconstructionInvariantViolation`. Every completed node's parent is
/// always the point of an earlier completed node, so every back-pointer
/// walk terminates at the origin.
proof fn lemma_search_no_riv(
    active: PathNode,
    stack: Seq<PathNode>,
    completed: Seq<PathNode>,
    target: Coordinate,
    box_size: u64,
    terrain: Seq<Coordinate>,
    fuel: nat,
)
    requires
        parents_precede(completed),
        forall|i: int| 1 <= i < completed.len() ==> completed[i].source is Some,
        completed.len() > 0 ==> completed[0].source is None,
        completed.len() == 0 ==> active.source is None,
        completed.len() > 0 ==> (active.source matches Some(p) && completed_has_point(
            completed,
            p,
        )),
        forall|i: int|
            0 <= i < stack.len() ==> ((#[trigger] stack[i].source) matches Some(p)
                && completed_has_point(completed, p)),
    ensures
        spec_search(active, stack, completed, target, box_size, terrain, fuel) != Err::<
            Seq<PathNode>,
            SearchError,
        >(SearchError::ReconstructionInvariantViolation),
    decreases fuel,
{
    broadcast use group_to_multiset_ensures;

    if fuel == 0 {
    } else {
        let completed2 = completed.push(active);
        assert(parents_precede(completed2)) by {
            assert forall|i: int|
                0 <= i < completed2.len() implies ((#[trigger] completed2[i].source) matches Some(
                p) ==> exists|j: int| 0 <= j < i && completed2[j].point == p) by {
                if i < completed.len() {
                    assert(completed2[i] == completed[i]);
                    if completed[i].source is Some {
                        let p = completed[i].source.unwrap();
                        let j = choose|j: int| 0 <= j < i && completed[j].point == p;
                        assert(completed2[j] == completed[j]);
                    }
                } else {
                    if active.source is Some {
                        let p = active.source.unwrap();
                        let j = choose|j: int|
                            0 <= j < completed.len() && completed[j].point == p;
                        assert(completed2[j] == completed[j]);
                    }
                }
            }
        }
        if spec_in_same_box(active.point, target, box_size) {
            assert(completed2[completed2.len() - 1] == active);
            lemma_walk_ok(
                completed2,
                active,
                Seq::empty(),
                completed2.len(),
                completed2.len() - 1,
            );
        } else {
            let stack2 = if stack.len() > 0 {
                stack.drop_first()
            } else {
                stack
            };
            let cands = spec_candidates(active.point, target, box_size, terrain, completed2);
            let merged = stack2 + cands;
            let stack3 = spec_sort(merged);
            if stack3.len() == 0 {
            } else {
                lemma_sort_multiset(merged);
                lemma_candidates_sources(active.point, target, box_size, terrain, completed2);
                assert(completed2[completed2.len() - 1] == active);
                assert forall|i: int|
                    0 <= i < stack3.len() implies ((#[trigger] stack3[i].source) matches Some(p)
                    && completed_has_point(completed2, p)) by {
                    assert(stack3.contains(stack3[i]));
                    assert(stack3.to_multiset().count(stack3[i]) > 0);
                    assert(merged.to_multiset().count(stack3[i]) > 0);
                    assert(merged.contains(stack3[i]));
                    let m = choose|m: int| 0 <= m < merged.len() && merged[m] == stack3[i];
                    if m < stack2.len() {
                        if stack.len() > 0 {
                            assert(stack2[m] == stack[m + 1]);
                        }
                        let p = stack3[i].source.unwrap();
                        let j = choose|j: int|
                            0 <= j < completed.len() && completed[j].point == p;
                        assert(completed2[j] == completed[j]);
                    } else {
                        assert(merged[m] == cands[m - stack2.len()]);
                        assert(stack3[i].source == Some(active.point));
                    }
                }
                lemma_search_no_riv(
                    stack3[0],
                    stack3,
                    completed2,
                    target,
                    box_size,
                    terrain,
                    (fuel - 1) as nat,
                );
            }
        }
    }
}

/// The internal-defect error is unreachable: for every input whatsoever,
/// the search returns a path, `InvalidBoxSize` or `NoPathFound`, and never
/// `ReconstructionInvariantViolation`. The error variant exists to make a
/// broken walk loud rather than silent, and this law shows the walk is
/// never broken.
pub proof fn lemma_never_reconstruction_violation(
    source: Coordinate,
    target: Coordinate,
    box_size: u64,
    terrain: Seq<Coordinate>,
)
    ensures
        spec_build_path(source, target, box_size, terrain) != Err::<Seq<PathNode>, SearchError>(
            SearchError::ReconstructionInvariantViolation,
        ),
{
    if lt_bits(F64_ZERO, box_size) {
        lemma_search_no_riv(
            initial_node(source, target),
            Seq::empty(),
            Seq::empty(),
            target,
            box_size,
            terrain,
            SEARCH_STEP_LIMIT as nat,
        );
    }
}

/// Path shape: any path the search returns begins with the origin node —
/// the source coordinate itself, parentless, with its distance to the
/// target as heuristic; every later node's parent coordinate is exactly the
/// point of the node before it; and the box centered on the final node's
/// point contains the target. The path is thus a connected walk of box
/// moves from the source to within one box of the target.
pub proof fn lemma_path_shape(
    source: Coordinate,
    target: Coordinate,
    box_size: u64,
    terrain: Seq<Coordinate>,
    p: Seq<PathNode>,
)
    requires
        spec_build_path(source, target, box_size, terrain) == Ok::<Seq<PathNode>, SearchError>(p),
    ensures
        p.len() >= 1,
        p[0] == initial_node(source, target),
        p[0].point == source,
        p[0].source is None,
        forall|i: int| 1 <= i < p.len() ==> p[i].source == Some(p[i - 1].point),
        spec_in_same_box(p[p.len() - 1].point, target, box_size),
{
    lemma_search_path_shape(
        initial_node(source, target),
        Seq::empty(),
        Seq::empty(),
        target,
        box_size,
        terrain,
        SEARCH_STEP_LIMIT as nat,
        p,
        initial_node(source, target),
    );
}

} // verus!
