//! One particle: position and velocity, with spawning, boundary reflection
//! and the per-tick force integration, plus the rule type that drives it.

use vstd::prelude::*;

use crate::clamp_lim;
use crate::utils::{
    lemma_floor_sqrt_at_least, scaled_quotient, str_to_num, tdiv, weight_of_text,
};
use crate::vector::Vector;
use crate::LIM;

verus! {

/// How an atom is drawn by the renderer; the engine never inspects it.
#[derive(Clone, Copy, PartialEq, Eq, Structural, Debug)]
pub enum AtomShape {
    Dot,
    Square,
    Triangle,
}

/// One particle of the simulation.
#[derive(Clone, Copy, PartialEq, Eq, Structural, Debug)]
pub struct Atom {
    /// Position.
    pub p: Vector,
    /// Velocity.
    pub v: Vector,
}

/// The horizontal force one nearby atom at `q` exerts on an atom at `p`:
/// the raw difference `p - q` scaled by `w / dist`, truncating toward zero.
/// Coincident pairs (distance zero) and pairs at or beyond `radius`
/// contribute nothing.
pub open spec fn contribution_x(p: Vector, q: Vector, w: int, radius: int) -> int {
    let d = p.dist(q);
    if 0 < d && d < radius {
        tdiv((p.x - q.x) * w, d)
    } else {
        0
    }
}

/// The vertical counterpart of `contribution_x`.
pub open spec fn contribution_y(p: Vector, q: Vector, w: int, radius: int) -> int {
    let d = p.dist(q);
    if 0 < d && d < radius {
        tdiv((p.y - q.y) * w, d)
    } else {
        0
    }
}

/// The force accumulated over the first `n` field atoms, each addition
/// clamped into the model range.
pub open spec fn force_upto(p: Vector, others: Seq<Atom>, w: int, radius: int, n: int) -> (int,
    int)
    decreases n,
{
    if n <= 0 {
        (0, 0)
    } else {
        let f = force_upto(p, others, w, radius, n - 1);
        (
            clamp_lim(f.0 + contribution_x(p, others[n - 1].p, w, radius)),
            clamp_lim(f.1 + contribution_y(p, others[n - 1].p, w, radius)),
        )
    }
}

/// The total force the field `others` exerts on an atom at `p`.
pub open spec fn force_of(p: Vector, others: Seq<Atom>, w: int, radius: int) -> (int, int) {
    force_upto(p, others, w, radius, others.len() as int)
}

/// The accumulated force always lies inside the model range.
pub proof fn lemma_force_in_range(p: Vector, others: Seq<Atom>, w: int, radius: int, n: int)
    ensures
        -LIM <= force_upto(p, others, w, radius, n).0 <= LIM,
        -LIM <= force_upto(p, others, w, radius, n).1 <= LIM,
    decreases n,
{
    if n > 0 {
        lemma_force_in_range(p, others, w, radius, n - 1);
    }
}

/// One integration step of a single atom against the field `others`:
/// velocity becomes the damped average `(v + force) / 2`, then the position
/// advances by the new velocity.
pub open spec fn compute_spec(a: Atom, others: Seq<Atom>, w: int, radius: int) -> Atom {
    let f = force_of(a.p, others, w, radius);
    let vx = tdiv(a.v.x + f.0, 2);
    let vy = tdiv(a.v.y + f.1, 2);
    Atom {
        p: Vector {
            x: clamp_lim(a.p.x + vx) as i64,
            y: clamp_lim(a.p.y + vy) as i64,
        },
        v: Vector { x: vx as i64, y: vy as i64 },
    }
}

/// The horizontal velocity after boundary reflection: negated exactly when
/// the atom sits at or past a wall while still moving further out.
pub open spec fn reflect_vx(a: Atom, min_x: int, max_x: int) -> int {
    if (a.p.x <= min_x && a.v.x <= 0) || (a.p.x >= max_x && a.v.x >= 0) {
        -a.v.x
    } else {
        a.v.x as int
    }
}

/// The vertical counterpart of `reflect_vx`.
pub open spec fn reflect_vy(a: Atom, min_y: int, max_y: int) -> int {
    if (a.p.y <= min_y && a.v.y <= 0) || (a.p.y >= max_y && a.v.y >= 0) {
        -a.v.y
    } else {
        a.v.y as int
    }
}

/// Boundary reflection of one atom: each axis is treated independently, and
/// the position is left untouched.
pub open spec fn reflect_spec(a: Atom, min_x: int, max_x: int, min_y: int, max_y: int) -> Atom {
    Atom {
        p: a.p,
        v: Vector {
            x: reflect_vx(a, min_x, max_x) as i64,
            y: reflect_vy(a, min_y, max_y) as i64,
        },
    }
}

/// The state of a freshly spawned atom: zero velocity and a position inside
/// the padded box (pinned to `padding` on an axis whose box is empty).
pub open spec fn spawned_in(a: Atom, width: int, height: int, padding: int) -> bool {
    &&& a.v.x == 0 && a.v.y == 0
    &&& if padding <= width - padding {
        padding <= a.p.x <= width - padding
    } else {
        a.p.x == padding
    }
    &&& if padding <= height - padding {
        padding <= a.p.y <= height - padding
    } else {
        a.p.y == padding
    }
}

impl Atom {
    /// Position and velocity lie inside the model range.
    pub open spec fn wf(self) -> bool {
        self.p.wf() && self.v.wf()
    }

    /// Spawn an atom at a random position inside the padded box, at rest.
    pub fn born(width: i64, height: i64, padding: i64) -> (a: Atom)
        requires
            0 <= padding <= LIM,
            0 <= width <= LIM,
            0 <= height <= LIM,
        ensures
            spawned_in(a, width as int, height as int, padding as int),
            a.wf(),
    {
        let hi_x: i64 = if width - padding < padding {
            padding
        } else {
            width - padding
        };
        let hi_y: i64 = if height - padding < padding {
            padding
        } else {
            height - padding
        };
        Atom { p: Vector::random(padding, hi_x, padding, hi_y), v: Vector { x: 0, y: 0 } }
    }

    /// Reset this atom to a freshly spawned state (the whole-simulation
    /// shuffle; not part of the physics tick).
    pub fn reborn(&mut self, width: i64, height: i64, padding: i64)
        requires
            0 <= padding <= LIM,
            0 <= width <= LIM,
            0 <= height <= LIM,
        ensures
            spawned_in(*final(self), width as int, height as int, padding as int),
            final(self).wf(),
    {
        *self = Atom::born(width, height, padding);
    }

    /// Reverse a velocity component when the atom is at or past that wall and
    /// still heading outward; velocity pointing back inside is left alone, so
    /// an atom never sticks to a wall.
    pub fn correct_pos(&mut self, min_x: i64, max_x: i64, min_y: i64, max_y: i64)
        requires
            old(self).wf(),
        ensures
            *final(self) == reflect_spec(
                *old(self),
                min_x as int,
                max_x as int,
                min_y as int,
                max_y as int,
            ),
            final(self).wf(),
    {
        if (self.p.x <= min_x && self.v.x <= 0) || (self.p.x >= max_x && self.v.x >= 0) {
            self.v.x = -self.v.x;
        }
        if (self.p.y <= min_y && self.v.y <= 0) || (self.p.y >= max_y && self.v.y >= 0) {
            self.v.y = -self.v.y;
        }
    }

    /// Integrate the force the field `others` exerts on this atom, then move
    /// it: `v = (v + force) / 2`, `p = p + v`.
    pub fn compute(&mut self, others: &Vec<Atom>, w: i64, radius: i64)
        requires
            old(self).wf(),
            forall|i: int| 0 <= i < others@.len() ==> (#[trigger] others@[i]).wf(),
            -LIM <= w <= LIM,
        ensures
            *final(self) == compute_spec(*old(self), others@, w as int, radius as int),
            final(self).wf(),
    {
        let ghost a0 = *self;
        let mut force = Vector { x: 0, y: 0 };
        let mut i: usize = 0;
        while i < others.len()
            invariant
                0 <= i <= others@.len(),
                *self == a0,
                a0.wf(),
                -LIM <= w <= LIM,
                forall|k: int| 0 <= k < others@.len() ==> (#[trigger] others@[k]).wf(),
                force.x as int == force_upto(a0.p, others@, w as int, radius as int, i as int).0,
                force.y as int == force_upto(a0.p, others@, w as int, radius as int, i as int).1,
                force.wf(),
            decreases others@.len() - i,
        {
            let oa = others[i];
            let (d, diff) = self.p.distance(&oa.p);
            proof {
                lemma_force_in_range(a0.p, others@, w as int, radius as int, i as int);
            }
            if d > 0 && d < radius {
                proof {
                    let dx = if diff.x >= 0 { diff.x as int } else { -(diff.x as int) };
                    let dy = if diff.y >= 0 { diff.y as int } else { -(diff.y as int) };
                    assert(dx * dx <= a0.p.dist2(oa.p) && dy * dy <= a0.p.dist2(oa.p))
                        by (nonlinear_arith)
                        requires
                            dx == if diff.x >= 0 { diff.x as int } else { -(diff.x as int) },
                            dy == if diff.y >= 0 { diff.y as int } else { -(diff.y as int) },
                            diff.x == a0.p.x - oa.p.x,
                            diff.y == a0.p.y - oa.p.y,
                            a0.p.dist2(oa.p) == (a0.p.x - oa.p.x) * (a0.p.x - oa.p.x) + (a0.p.y
                                - oa.p.y) * (a0.p.y - oa.p.y),
                    ;
                    lemma_floor_sqrt_at_least(a0.p.dist2(oa.p), dx);
                    lemma_floor_sqrt_at_least(a0.p.dist2(oa.p), dy);
                }
                let cx = scaled_quotient(diff.x, w, d);
                let cy = scaled_quotient(diff.y, w, d);
                force.x = crate::clamp_add(force.x, cx);
                force.y = crate::clamp_add(force.y, cy);
            }
            i = i + 1;
        }
        self.v.combine_avg(force);
        self.p.plus(&self.v);
        proof {
            lemma_force_in_range(a0.p, others@, w as int, radius as int, others@.len() as int);
        }
    }
}

/// A directed, weighted interaction: the `src` group's atoms are driven by
/// the `target` group's atoms.
#[derive(Debug)]
pub struct AtomRule {
    pub src: String,
    pub target: String,
    pub w: i64,
}

/// The rule a host-supplied triple `[source, target, weight-text]` denotes.
pub open spec fn rule_of_triple(entry: Seq<String>) -> AtomRule
    recommends
        entry.len() >= 3,
{
    AtomRule { src: entry[0], target: entry[1], w: weight_of_text(entry[2]@) as i64 }
}

impl AtomRule {
    /// The weight lies inside the model range.
    pub open spec fn wf(self) -> bool {
        -LIM <= self.w <= LIM
    }

    /// Convert one host-supplied triple into a rule; malformed weight text
    /// yields a weight of zero rather than an error.
    pub fn vec_into(input: Vec<String>) -> (r: AtomRule)
        requires
            input@.len() >= 3,
        ensures
            r == rule_of_triple(input@),
            r.wf(),
    {
        AtomRule {
            src: input[0].clone(),
            target: input[1].clone(),
            w: str_to_num(input[2].as_str()),
        }
    }
}

/// An atom that coincides with `p`, or sits at or beyond the cutoff radius,
/// never affects the force: inserting such an atom anywhere in the field
/// leaves the accumulated force unchanged.
pub proof fn lemma_excluded_atom_no_force(
    p: Vector,
    others: Seq<Atom>,
    k: int,
    a: Atom,
    w: int,
    radius: int,
)
    requires
        0 <= k <= others.len(),
        p.dist(a.p) == 0 || p.dist(a.p) >= radius,
    ensures
        force_of(p, others.insert(k, a), w, radius) == force_of(p, others, w, radius),
{
    let s2 = others.insert(k, a);
    lemma_force_prefix_eq(p, others, s2, w, radius, k);
    lemma_force_in_range(p, s2, w, radius, k);
    assert(s2[k] == a);
    assert(contribution_x(p, a.p, w, radius) == 0);
    assert(contribution_y(p, a.p, w, radius) == 0);
    assert(force_upto(p, s2, w, radius, k + 1) == force_upto(p, others, w, radius, k));
    lemma_force_suffix_shift(p, others, s2, w, radius, k, others.len() as int);
}

/// Two fields that agree on their first `n` atoms accumulate the same force
/// over them.
proof fn lemma_force_prefix_eq(
    p: Vector,
    s1: Seq<Atom>,
    s2: Seq<Atom>,
    w: int,
    radius: int,
    n: int,
)
    requires
        0 <= n <= s1.len(),
        n <= s2.len(),
        forall|j: int| 0 <= j < n ==> s1[j] == s2[j],
    ensures
        force_upto(p, s1, w, radius, n) == force_upto(p, s2, w, radius, n),
    decreases n,
{
    if n > 0 {
        lemma_force_prefix_eq(p, s1, s2, w, radius, n - 1);
    }
}

/// After the inserted atom, the longer field is the shorter one shifted by
/// one, so equal partial forces stay equal from there on.
proof fn lemma_force_suffix_shift(
    p: Vector,
    s1: Seq<Atom>,
    s2: Seq<Atom>,
    w: int,
    radius: int,
    k: int,
    n: int,
)
    requires
        0 <= k <= n <= s1.len(),
        s2.len() == s1.len() + 1,
        forall|j: int| k <= j < s1.len() ==> s2[j + 1] == s1[j],
        force_upto(p, s2, w, radius, k + 1) == force_upto(p, s1, w, radius, k),
    ensures
        force_upto(p, s2, w, radius, n + 1) == force_upto(p, s1, w, radius, n),
    decreases n - k,
{
    if n > k {
        lemma_force_suffix_shift(p, s1, s2, w, radius, k, n - 1);
        assert(s2[n] == s1[n - 1]);
    }
}

} // verus!
