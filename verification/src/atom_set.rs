//! A named group of atoms sharing one visual/behavioural configuration, with
//! the bulk operations the simulation runs over it.

use vstd::prelude::*;

use crate::atom::{compute_spec, reflect_spec, spawned_in, Atom, AtomShape};
use crate::LIM;

verus! {

/// The configuration of one group of atoms.
#[derive(Clone, Copy, PartialEq, Eq, Debug)]
pub struct AtomConf {
    /// How many atoms the group should hold; zero or negative means an empty
    /// group.
    pub total: i32,
    /// Size of each atom when drawn (model units).
    pub point_size: i64,
    /// Blur radius around each drawn atom, if any.
    pub blur_radius: Option<i64>,
    /// How far this group's atoms feel other atoms; the default reach is 80.
    pub compute_radius: Option<i64>,
    /// How each atom is drawn.
    pub shape: Option<AtomShape>,
}

/// The number of atoms a configuration asks for.
pub open spec fn target_total(c: AtomConf) -> int {
    if c.total <= 0 {
        0
    } else {
        c.total as int
    }
}

/// The interaction radius a configuration asks for (80 when unset).
pub open spec fn radius_of(c: AtomConf) -> int {
    match c.compute_radius {
        Some(r) => r as int,
        None => 80,
    }
}

/// The mathematical state of one group: its name, configuration and atoms.
pub struct GroupView {
    pub name: Seq<char>,
    pub config: AtomConf,
    pub atoms: Seq<Atom>,
}

/// A named group of atoms.
#[derive(Debug)]
pub struct AtomSet {
    /// The group's name; the renderer also uses it as the colour.
    pub color: String,
    pub config: AtomConf,
    pub atoms: Vec<Atom>,
}

impl View for AtomSet {
    type V = GroupView;

    open spec fn view(&self) -> GroupView {
        GroupView { name: self.color@, config: self.config, atoms: self.atoms@ }
    }
}

/// One rule application at the group level: every atom of `g` is integrated
/// independently against the snapshot `others`, using `g`'s own radius.
pub open spec fn apply_rule_view(g: GroupView, others: Seq<Atom>, w: int) -> GroupView {
    GroupView {
        name: g.name,
        config: g.config,
        atoms: g.atoms.map_values(|a: Atom| compute_spec(a, others, w, radius_of(g.config))),
    }
}

/// Boundary reflection at the group level.
pub open spec fn reflect_view(
    g: GroupView,
    min_x: int,
    max_x: int,
    min_y: int,
    max_y: int,
) -> GroupView {
    GroupView {
        name: g.name,
        config: g.config,
        atoms: g.atoms.map_values(|a: Atom| reflect_spec(a, min_x, max_x, min_y, max_y)),
    }
}

impl AtomSet {
    /// Every atom of the group lies inside the model range.
    pub open spec fn wf(self) -> bool {
        forall|i: int| 0 <= i < self.atoms@.len() ==> (#[trigger] self.atoms@[i]).wf()
    }

    /// An owned copy of this group's atoms, taken as the snapshot a rule
    /// application reads.
    pub fn clone_atoms(&self) -> (out: Vec<Atom>)
        ensures
            out@ == self.atoms@,
    {
        let mut out: Vec<Atom> = Vec::new();
        let mut i: usize = 0;
        while i < self.atoms.len()
            invariant
                0 <= i <= self.atoms@.len(),
                out@ == self.atoms@.take(i as int),
            decreases self.atoms@.len() - i,
        {
            out.push(self.atoms[i]);
            proof {
                assert(self.atoms@.take(i + 1 as int) =~= self.atoms@.take(i as int).push(
                    self.atoms@[i as int],
                ));
            }
            i = i + 1;
        }
        proof {
            assert(self.atoms@.take(self.atoms@.len() as int) =~= self.atoms@);
        }
        out
    }

    /// An owned copy of this whole group, taken as the snapshot a rule
    /// application reads.
    pub fn snapshot(&self) -> (out: AtomSet)
        ensures
            out@ == self@,
    {
        AtomSet { color: self.color.clone(), config: self.config, atoms: self.clone_atoms() }
    }

    /// Drive every atom of this group by the atoms of `other` (a snapshot),
    /// using this group's interaction radius.
    pub fn apply_rule(&mut self, other: &AtomSet, w: i64)
        requires
            old(self).wf(),
            other.wf(),
            -LIM <= w <= LIM,
        ensures
            final(self)@ == apply_rule_view(old(self)@, other@.atoms, w as int),
            final(self).wf(),
    {
        let radius = match self.config.compute_radius {
            Some(r) => r,
            None => 80,
        };
        let mut i: usize = 0;
        while i < self.atoms.len()
            invariant
                0 <= i <= self.atoms@.len(),
                self.atoms@.len() == old(self).atoms@.len(),
                self.color == old(self).color,
                self.config == old(self).config,
                radius == radius_of(old(self).config),
                -LIM <= w <= LIM,
                old(self).wf(),
                other.wf(),
                forall|j: int|
                    0 <= j < i ==> #[trigger] self.atoms@[j] == compute_spec(
                        old(self).atoms@[j],
                        other.atoms@,
                        w as int,
                        radius as int,
                    ),
                forall|j: int|
                    i <= j < self.atoms@.len() ==> #[trigger] self.atoms@[j] == old(
                        self,
                    ).atoms@[j],
            decreases self.atoms@.len() - i,
        {
            self.atoms[i].compute(&other.atoms, w, radius);
            i = i + 1;
        }
        proof {
            assert(self@.atoms =~= old(self)@.atoms.map_values(
                |a: Atom| compute_spec(a, other@.atoms, w as int, radius_of(old(self)@.config)),
            ));
        }
    }

    /// Reflect every atom of the group at the given bounds.
    pub fn correct_pos(&mut self, min_x: i64, max_x: i64, min_y: i64, max_y: i64)
        requires
            old(self).wf(),
        ensures
            final(self)@ == reflect_view(
                old(self)@,
                min_x as int,
                max_x as int,
                min_y as int,
                max_y as int,
            ),
            final(self).wf(),
    {
        let mut i: usize = 0;
        while i < self.atoms.len()
            invariant
                0 <= i <= self.atoms@.len(),
                self.atoms@.len() == old(self).atoms@.len(),
                self.color == old(self).color,
                self.config == old(self).config,
                old(self).wf(),
                forall|j: int|
                    0 <= j < i ==> #[trigger] self.atoms@[j] == reflect_spec(
                        old(self).atoms@[j],
                        min_x as int,
                        max_x as int,
                        min_y as int,
                        max_y as int,
                    ),
                forall|j: int|
                    i <= j < self.atoms@.len() ==> #[trigger] self.atoms@[j] == old(
                        self,
                    ).atoms@[j],
            decreases self.atoms@.len() - i,
        {
            self.atoms[i].correct_pos(min_x, max_x, min_y, max_y);
            i = i + 1;
        }
        proof {
            assert(self@.atoms =~= old(self)@.atoms.map_values(
                |a: Atom| reflect_spec(a, min_x as int, max_x as int, min_y as int, max_y as int),
            ));
        }
    }

    /// Scatter every atom of the group to a fresh random position, at rest.
    pub fn reborn(&mut self, width: i64, height: i64, padding: i64)
        requires
            old(self).wf(),
            0 <= padding <= LIM,
            0 <= width <= LIM,
            0 <= height <= LIM,
        ensures
            final(self)@.name == old(self)@.name,
            final(self)@.config == old(self)@.config,
            final(self)@.atoms.len() == old(self)@.atoms.len(),
            forall|i: int|
                0 <= i < final(self)@.atoms.len() ==> spawned_in(
                    #[trigger] final(self)@.atoms[i],
                    width as int,
                    height as int,
                    padding as int,
                ),
            final(self).wf(),
    {
        let mut i: usize = 0;
        while i < self.atoms.len()
            invariant
                0 <= i <= self.atoms@.len(),
                self.atoms@.len() == old(self).atoms@.len(),
                self.color == old(self).color,
                self.config == old(self).config,
                0 <= padding <= LIM,
                0 <= width <= LIM,
                0 <= height <= LIM,
                old(self).wf(),
                forall|j: int|
                    0 <= j < i ==> spawned_in(
                        #[trigger] self.atoms@[j],
                        width as int,
                        height as int,
                        padding as int,
                    ) && self.atoms@[j].wf(),
                forall|j: int|
                    i <= j < self.atoms@.len() ==> #[trigger] self.atoms@[j] == old(
                        self,
                    ).atoms@[j],
            decreases self.atoms@.len() - i,
        {
            self.atoms[i].reborn(width, height, padding);
            i = i + 1;
        }
    }

    /// Bring the group to its new configuration: shrinking keeps exactly the
    /// first atoms, growing appends freshly spawned ones, and the existing
    /// atoms are never disturbed; the configuration is replaced afterwards.
    pub fn reconcile(&mut self, new_conf: AtomConf, width: i64, height: i64, padding: i64)
        requires
            old(self).wf(),
            0 <= padding <= LIM,
            0 <= width <= LIM,
            0 <= height <= LIM,
        ensures
            final(self)@.name == old(self)@.name,
            final(self)@.config == new_conf,
            final(self)@.atoms.len() == target_total(new_conf),
            forall|i: int|
                0 <= i < target_total(new_conf) && i < old(self)@.atoms.len()
                    ==> #[trigger] final(self)@.atoms[i] == old(self)@.atoms[i],
            forall|i: int|
                old(self)@.atoms.len() <= i < target_total(new_conf) ==> spawned_in(
                    #[trigger] final(self)@.atoms[i],
                    width as int,
                    height as int,
                    padding as int,
                ),
            final(self).wf(),
    {
        let target: usize = if new_conf.total <= 0 {
            0
        } else {
            new_conf.total as usize
        };
        if target < self.atoms.len() {
            self.atoms.truncate(target);
        } else {
            while self.atoms.len() < target
                invariant
                    old(self)@.atoms.len() <= self.atoms@.len() <= target,
                    self.color == old(self).color,
                    self.config == old(self).config,
                    0 <= padding <= LIM,
                    0 <= width <= LIM,
                    0 <= height <= LIM,
                    old(self).wf(),
                    forall|j: int|
                        0 <= j < old(self)@.atoms.len() ==> #[trigger] self.atoms@[j] == old(
                            self,
                        ).atoms@[j],
                    forall|j: int|
                        old(self)@.atoms.len() <= j < self.atoms@.len() ==> spawned_in(
                            #[trigger] self.atoms@[j],
                            width as int,
                            height as int,
                            padding as int,
                        ) && self.atoms@[j].wf(),
                decreases target - self.atoms@.len(),
            {
                self.atoms.push(Atom::born(width, height, padding));
            }
        }
        self.config = new_conf;
    }
}

} // verus!
