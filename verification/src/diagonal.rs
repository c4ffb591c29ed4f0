//! A diagonal move candidate.

use crate::coordinate::Coordinate;
use vstd::prelude::*;

verus! {

/// A candidate diagonal neighbor: the target `point`, and `route_sides`, the
/// two orthogonal neighbor centers that the diagonal move passes between.
/// A diagonal move is only permitted when both of those gate cells are
/// passable, which prevents cutting through a wall corner.
#[derive(Clone, Copy, Debug, PartialEq)]
pub struct Diagonal {
    pub point: Coordinate,
    pub route_sides: (Coordinate, Coordinate),
}

} // verus!
