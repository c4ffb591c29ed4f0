//! Greedy best-first route planning on a plane partitioned into uniform
//! square boxes.
//!
//! Coordinates are pairs of IEEE-754 double-precision bit patterns, held as
//! `u64` values so that equality, hashing and all contracts are exact and
//! bit-level. The arithmetic on those bit patterns (addition, subtraction,
//! multiplication, division, remainder and square root) is performed in
//! software by outside crates that implement IEEE-754 semantics; comparisons
//! and the mantissa/exponent/sign decomposition are implemented and verified
//! here as plain integer code.

pub mod coordinate;
pub mod diagonal;
pub mod fp;
pub mod helpers;
pub mod laws;
pub mod path_node;
pub mod search;

pub use coordinate::Coordinate;
pub use diagonal::Diagonal;
pub use helpers::integer_decode;
pub use path_node::PathNode;
pub use search::AStarState;
pub use search::SearchError;
pub use search::build_path;
