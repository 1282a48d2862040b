//! The 2D point / displacement primitive of the engine.

use vstd::prelude::*;

use crate::clamp_add;
use crate::clamp_lim;
use crate::utils::{
    clamp_wide, half, is_floor_sqrt, isqrt, random_range, sqrt_floor, tdiv,
};
use crate::LIM;

verus! {

/// A 2D point or displacement with integer components.
#[derive(Clone, Copy, PartialEq, Eq, Structural, Debug)]
pub struct Vector {
    pub x: i64,
    pub y: i64,
}

impl Vector {
    /// Both components lie inside the model range `[-LIM, LIM]`.
    pub open spec fn wf(self) -> bool {
        &&& -LIM <= self.x <= LIM
        &&& -LIM <= self.y <= LIM
    }

    /// The squared Euclidean distance between two points.
    pub open spec fn dist2(self, other: Vector) -> int {
        (self.x - other.x) * (self.x - other.x) + (self.y - other.y) * (self.y - other.y)
    }

    /// The distance between two points: the Euclidean norm of their
    /// difference, rounded down to an integer.
    pub open spec fn dist(self, other: Vector) -> int {
        sqrt_floor(self.dist2(other))
    }

    /// A point drawn uniformly (per axis, independently) from the given
    /// inclusive ranges.
    pub fn random(min_x: i64, max_x: i64, min_y: i64, max_y: i64) -> (v: Vector)
        requires
            min_x <= max_x,
            min_y <= max_y,
        ensures
            min_x <= v.x <= max_x,
            min_y <= v.y <= max_y,
    {
        Vector { x: random_range(min_x, max_x), y: random_range(min_y, max_y) }
    }

    /// The Euclidean norm, rounded down to an integer.
    pub fn length(&self) -> (l: i64)
        requires
            -2 * (LIM as int) <= self.x <= 2 * (LIM as int),
            -2 * (LIM as int) <= self.y <= 2 * (LIM as int),
        ensures
            l == sqrt_floor(self.x * self.x + self.y * self.y),
            is_floor_sqrt(self.x * self.x + self.y * self.y, l as int),
            0 <= l <= 4 * (LIM as int),
    {
        proof {
            assert(0 <= self.x * self.x <= 0x40_0000_0000_0000_0000_0000_0000 && 0 <= self.y
                * self.y <= 0x40_0000_0000_0000_0000_0000_0000) by (nonlinear_arith)
                requires
                    -2 * (LIM as int) <= self.x <= 2 * (LIM as int),
                    -2 * (LIM as int) <= self.y <= 2 * (LIM as int),
                    LIM == 0x4_0000_0000_0000,
            ;
        }
        let n: i128 = (self.x as i128) * (self.x as i128) + (self.y as i128) * (self.y as i128);
        isqrt(n as u128) as i64
    }

    /// The distance to `other` (rounded down), together with the raw
    /// difference vector `self - other`.
    pub fn distance(&self, other: &Vector) -> (res: (i64, Vector))
        requires
            self.wf(),
            other.wf(),
        ensures
            res.0 == self.dist(*other),
            is_floor_sqrt(self.dist2(*other), res.0 as int),
            0 <= res.0 <= 4 * (LIM as int),
            res.1.x == self.x - other.x,
            res.1.y == self.y - other.y,
    {
        let d = Vector { x: self.x - other.x, y: self.y - other.y };
        let l = d.length();
        (l, d)
    }

    /// In-place addition, clamped into the model range.
    pub fn plus(&mut self, other: &Vector)
        requires
            old(self).wf(),
            other.wf(),
        ensures
            final(self).x == clamp_lim(old(self).x + other.x),
            final(self).y == clamp_lim(old(self).y + other.y),
            final(self).wf(),
    {
        self.x = clamp_add(self.x, other.x);
        self.y = clamp_add(self.y, other.y);
    }

    /// In-place scaled addition `self += other * amp`, clamped into the model
    /// range.
    pub fn plus_amp(&mut self, other: &Vector, amp: i64)
        requires
            old(self).wf(),
            -2 * (LIM as int) <= other.x <= 2 * (LIM as int),
            -2 * (LIM as int) <= other.y <= 2 * (LIM as int),
            -LIM <= amp <= LIM,
        ensures
            final(self).x == clamp_lim(old(self).x + other.x * amp),
            final(self).y == clamp_lim(old(self).y + other.y * amp),
            final(self).wf(),
    {
        proof {
            assert(-0x100_0000_0000_0000_0000_0000_0000 <= other.x * amp
                <= 0x100_0000_0000_0000_0000_0000_0000 && -0x100_0000_0000_0000_0000_0000_0000
                <= other.y * amp <= 0x100_0000_0000_0000_0000_0000_0000) by (nonlinear_arith)
                requires
                    -2 * (LIM as int) <= other.x <= 2 * (LIM as int),
                    -2 * (LIM as int) <= other.y <= 2 * (LIM as int),
                    -LIM <= amp <= LIM,
                    LIM == 0x4_0000_0000_0000,
            ;
        }
        let px: i128 = (self.x as i128) + (other.x as i128) * (amp as i128);
        let py: i128 = (self.y as i128) + (other.y as i128) * (amp as i128);
        self.x = clamp_wide(px);
        self.y = clamp_wide(py);
    }

    /// Replace the receiver with the damped average `(self + other) / 2`,
    /// truncating toward zero.
    pub fn combine_avg(&mut self, other: Vector)
        requires
            old(self).wf(),
            other.wf(),
        ensures
            final(self).x == tdiv(old(self).x + other.x, 2),
            final(self).y == tdiv(old(self).y + other.y, 2),
            final(self).wf(),
    {
        self.x = half(self.x + other.x);
        self.y = half(self.y + other.y);
    }
}

} // verus!
