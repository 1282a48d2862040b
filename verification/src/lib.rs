//! A rule-driven particle simulation: named groups of atoms attract or repel
//! one another according to a weighted rule table, inside a bounded canvas.
//!
//! The numeric policy of the engine, chosen once and used everywhere: all
//! coordinates, velocities and weights are integer quantities kept inside the
//! closed range `[-LIM, LIM]`; a pairwise distance is the Euclidean norm
//! rounded down; a quotient truncates toward zero; and every addition that
//! could leave the range clamps back into it. The engine is therefore total
//! and deterministic everywhere except where it draws from the random source.

use vstd::prelude::*;

pub mod atom;
pub mod atom_set;
pub mod system;
pub mod utils;
pub mod vector;

verus! {

/// Largest magnitude a coordinate, velocity component, force component or
/// weight may take in the model.
pub const LIM: i64 = 0x4_0000_0000_0000;

/// Clamp an unbounded integer into the model range `[-LIM, LIM]`.
pub open spec fn clamp_lim(x: int) -> int {
    if x > LIM as int {
        LIM as int
    } else if x < -(LIM as int) {
        -(LIM as int)
    } else {
        x
    }
}

/// Clamp a sum of two in-range values back into the model range.
pub fn clamp_add(a: i64, b: i64) -> (r: i64)
    requires
        -LIM <= a <= LIM,
        -2 * LIM <= b <= 2 * LIM,
    ensures
        r == clamp_lim(a + b),
{
    let s: i64 = a + b;
    if s > LIM {
        LIM
    } else if s < -LIM {
        -LIM
    } else {
        s
    }
}

} // verus!
