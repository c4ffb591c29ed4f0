//! Coordinates on the plane, and the geometry of the box grid.

use crate::diagonal::Diagonal;
use crate::fp::F64_TWO;
use crate::fp::F64_ZERO;
use crate::fp::add_bits;
use crate::fp::div_bits;
use crate::fp::f64_abs;
use crate::fp::f64_add;
use crate::fp::f64_div;
use crate::fp::f64_le;
use crate::fp::f64_mul;
use crate::fp::f64_rem;
use crate::fp::f64_sqrt;
use crate::fp::f64_sub;
use crate::fp::le_bits;
use crate::fp::magnitude;
use crate::fp::mul_bits;
use crate::fp::rem_bits;
use crate::fp::sqrt_bits;
use crate::fp::sub_bits;
use crate::helpers::integer_decode;
use crate::helpers::lemma_integer_decode_injective;
use crate::helpers::spec_integer_decode;
use vstd::prelude::*;

verus! {

/// A point on the plane: a pair of double-precision bit patterns.
///
/// Equality and hashing are bit-level: two coordinates are equal exactly
/// when both components have identical bit patterns, which agrees with the
/// (mantissa, exponent, sign) decomposition of `as_int_tuple` (see
/// `lemma_decomposition_equality`). This makes the type usable as an exact
/// set or map key: coordinates produced by identical arithmetic always
/// compare and hash identically.
#[derive(Clone, Copy, Debug, PartialEq, Eq, Hash, Structural)]
pub struct Coordinate {
    pub x: u64,
    pub y: u64,
}

/// The straight-line (Euclidean) distance between two coordinates, as the
/// composition of IEEE-754 operations the executable code performs: the
/// square root of the sum of the squares of the absolute component
/// differences.
pub open spec fn spec_heuristic(a: Coordinate, b: Coordinate) -> u64 {
    let dx = magnitude(sub_bits(a.x, b.x));
    let dy = magnitude(sub_bits(a.y, b.y));
    sqrt_bits(add_bits(mul_bits(dx, dx), mul_bits(dy, dy)))
}

/// True iff `target` lies within the box of side `box_size` centered on
/// `point`, bounds inclusive on both axes. This is a "close enough to stop"
/// test centered on the current point, not membership in a grid-aligned box.
pub open spec fn spec_in_same_box(point: Coordinate, target: Coordinate, box_size: u64) -> bool {
    let half = div_bits(box_size, F64_TWO);
    &&& le_bits(sub_bits(point.x, half), target.x)
    &&& le_bits(target.x, add_bits(point.x, half))
    &&& le_bits(sub_bits(point.y, half), target.y)
    &&& le_bits(target.y, add_bits(point.y, half))
}

/// The center of the grid-aligned box of side `box_size` containing `point`:
/// each component is reduced modulo the box size and offset by half a box.
pub open spec fn spec_centre_of_box(point: Coordinate, box_size: u64) -> Coordinate {
    let half = div_bits(box_size, F64_TWO);
    Coordinate {
        x: add_bits(sub_bits(point.x, rem_bits(point.x, box_size)), half),
        y: add_bits(sub_bits(point.y, rem_bits(point.y, box_size)), half),
    }
}

/// The orthogonal neighbor center above `centre` (one box towards smaller y).
pub open spec fn spec_above(centre: Coordinate, box_size: u64) -> Coordinate {
    Coordinate { x: centre.x, y: sub_bits(centre.y, box_size) }
}

/// The orthogonal neighbor center below `centre` (one box towards larger y).
pub open spec fn spec_below(centre: Coordinate, box_size: u64) -> Coordinate {
    Coordinate { x: centre.x, y: add_bits(centre.y, box_size) }
}

/// The orthogonal neighbor center left of `centre`.
pub open spec fn spec_left(centre: Coordinate, box_size: u64) -> Coordinate {
    Coordinate { x: sub_bits(centre.x, box_size), y: centre.y }
}

/// The orthogonal neighbor center right of `centre`.
pub open spec fn spec_right(centre: Coordinate, box_size: u64) -> Coordinate {
    Coordinate { x: add_bits(centre.x, box_size), y: centre.y }
}

/// The four diagonal neighbor centers of `centre`, each paired with the two
/// orthogonal gate cells between the current box and the diagonal box, in
/// the order top-right, top-left, bottom-right, bottom-left.
pub open spec fn spec_diagonals(centre: Coordinate, box_size: u64) -> Seq<Diagonal> {
    let above = spec_above(centre, box_size);
    let below = spec_below(centre, box_size);
    let left = spec_left(centre, box_size);
    let right = spec_right(centre, box_size);
    seq![
        Diagonal { point: Coordinate { x: right.x, y: above.y }, route_sides: (above, right) },
        Diagonal { point: Coordinate { x: left.x, y: above.y }, route_sides: (above, left) },
        Diagonal { point: Coordinate { x: right.x, y: below.y }, route_sides: (below, right) },
        Diagonal { point: Coordinate { x: left.x, y: below.y }, route_sides: (below, left) },
    ]
}

/// The four orthogonal neighbor centers of `centre`, in the order above,
/// below, left, right.
pub open spec fn spec_adjacents(centre: Coordinate, box_size: u64) -> Seq<Coordinate> {
    seq![
        spec_above(centre, box_size),
        spec_below(centre, box_size),
        spec_left(centre, box_size),
        spec_right(centre, box_size),
    ]
}

impl Coordinate {
    /// Build a coordinate from the bit patterns of its two components.
    pub fn new(x: u64, y: u64) -> (r: Self)
        ensures
            r == (Coordinate { x, y }),
    {
        Self { x, y }
    }

    /// The straight-line distance from this coordinate to `target`.
    pub fn heuristic(&self, target: &Coordinate) -> (r: u64)
        ensures
            r == spec_heuristic(*self, *target),
    {
        let dx = f64_abs(f64_sub(self.x, target.x));
        let dy = f64_abs(f64_sub(self.y, target.y));
        f64_sqrt(f64_add(f64_mul(dx, dx), f64_mul(dy, dy)))
    }

    /// True iff `target` lies within the box of side `box_size` centered on
    /// this coordinate, bounds inclusive.
    pub fn in_same_box(&self, target: &Coordinate, box_size: u64) -> (r: bool)
        ensures
            r == spec_in_same_box(*self, *target, box_size),
    {
        let half = f64_div(box_size, F64_TWO);
        let x_low = f64_sub(self.x, half);
        let x_high = f64_add(self.x, half);
        let y_low = f64_sub(self.y, half);
        let y_high = f64_add(self.y, half);
        f64_le(x_low, target.x) && f64_le(target.x, x_high) && f64_le(y_low, target.y) && f64_le(
            target.y,
            y_high,
        )
    }

    /// Snap this coordinate to the center of the grid-aligned box of side
    /// `box_size` that contains it.
    pub fn centre_of_box(&self, box_size: u64) -> (r: Coordinate)
        ensures
            r == spec_centre_of_box(*self, box_size),
    {
        let half = f64_div(box_size, F64_TWO);
        let x_mod = f64_rem(self.x, box_size);
        let y_mod = f64_rem(self.y, box_size);
        Coordinate { x: f64_add(f64_sub(self.x, x_mod), half), y: f64_add(f64_sub(self.y, y_mod), half) }
    }

    /// The four orthogonal neighbor centers (above, below, left, right) and
    /// the four diagonal neighbors with their gate cells (top-right,
    /// top-left, bottom-right, bottom-left) of the box containing this
    /// coordinate.
    pub fn load_options(&self, box_size: u64) -> (r: (Vec<Coordinate>, Vec<Diagonal>))
        ensures
            r.0@ == spec_adjacents(spec_centre_of_box(*self, box_size), box_size),
            r.1@ == spec_diagonals(spec_centre_of_box(*self, box_size), box_size),
    {
        let centre = self.centre_of_box(box_size);
        let above = Coordinate { x: centre.x, y: f64_sub(centre.y, box_size) };
        let below = Coordinate { x: centre.x, y: f64_add(centre.y, box_size) };
        let left = Coordinate { x: f64_sub(centre.x, box_size), y: centre.y };
        let right = Coordinate { x: f64_add(centre.x, box_size), y: centre.y };

        let top_right = Diagonal {
            point: Coordinate { x: right.x, y: above.y },
            route_sides: (above, right),
        };
        let top_left = Diagonal {
            point: Coordinate { x: left.x, y: above.y },
            route_sides: (above, left),
        };
        let bottom_right = Diagonal {
            point: Coordinate { x: right.x, y: below.y },
            route_sides: (below, right),
        };
        let bottom_left = Diagonal {
            point: Coordinate { x: left.x, y: below.y },
            route_sides: (below, left),
        };

        let mut adjacents: Vec<Coordinate> = Vec::new();
        adjacents.push(above);
        adjacents.push(below);
        adjacents.push(left);
        adjacents.push(right);
        let mut diagonals: Vec<Diagonal> = Vec::new();
        diagonals.push(top_right);
        diagonals.push(top_left);
        diagonals.push(bottom_right);
        diagonals.push(bottom_left);
        proof {
            assert(adjacents@ =~= spec_adjacents(spec_centre_of_box(*self, box_size), box_size));
            assert(diagonals@ =~= spec_diagonals(spec_centre_of_box(*self, box_size), box_size));
        }
        (adjacents, diagonals)
    }

    /// The (mantissa, exponent, sign) decomposition of both components.
    pub fn as_int_tuple(&self) -> (r: ((u64, i16, i8), (u64, i16, i8)))
        ensures
            r == (spec_integer_decode(self.x), spec_integer_decode(self.y)),
    {
        (integer_decode(self.x), integer_decode(self.y))
    }
}

/// Two coordinates have equal decompositions exactly when they are equal:
/// the decomposition-based equality and hashing of coordinates agree with
/// bit-pattern equality of the components.
pub proof fn lemma_decomposition_equality(a: Coordinate, b: Coordinate)
    ensures
        (spec_integer_decode(a.x), spec_integer_decode(a.y)) == (
            spec_integer_decode(b.x),
            spec_integer_decode(b.y),
        ) <==> a == b,
{
    lemma_integer_decode_injective(a.x, b.x);
    lemma_integer_decode_injective(a.y, b.y);
}

} // verus!
