//! A node of the search tree.

use crate::coordinate::Coordinate;
use vstd::prelude::*;

verus! {

/// A visited or frontier point of the search: its coordinate, its heuristic
/// (the bit pattern of the straight-line distance from `point` to the
/// target, the sole priority key), and the coordinate of the parent node it
/// was reached from, or `None` for the origin node. The parent coordinates
/// form an implicit tree that path reconstruction walks backwards.
#[derive(Clone, Copy, Debug, PartialEq)]
pub struct PathNode {
    pub point: Coordinate,
    pub heuristic: u64,
    pub source: Option<Coordinate>,
}

impl PathNode {
    /// The origin node: no parent.
    pub fn initial(point: Coordinate, heuristic: u64) -> (r: Self)
        ensures
            r == (PathNode { point, heuristic, source: None }),
    {
        Self { point, heuristic, source: None }
    }

    /// A node reached from the parent coordinate `source`.
    pub fn new(point: Coordinate, heuristic: u64, source: Coordinate) -> (r: Self)
        ensures
            r == (PathNode { point, heuristic, source: Some(source) }),
    {
        Self { point, heuristic, source: Some(source) }
    }
}

} // verus!
