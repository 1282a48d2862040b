//! The orchestrator: owns all groups, the rule table and the run state; runs
//! the physics tick, the boundary-correction pass and the frame counter, and
//! carries the live-reconfiguration operations.

use vstd::prelude::*;

use crate::atom::{rule_of_triple, spawned_in, AtomRule};
use crate::atom_set::{
    apply_rule_view, reflect_view, target_total, AtomConf, AtomSet, GroupView,
};
use crate::clamp_lim;
use crate::utils::clamp_wide;
use crate::LIM;

verus! {

/// The group states that a sequence of sets carries.
pub open spec fn views(sets: Seq<AtomSet>) -> Seq<GroupView> {
    sets.map_values(|s: AtomSet| s@)
}

/// The index of the first group called `name`, from position `i` on; `-1`
/// when there is none.
pub open spec fn find_from(groups: Seq<GroupView>, name: Seq<char>, i: int) -> int
    decreases groups.len() - i,
{
    if i < 0 || i >= groups.len() {
        -1
    } else if groups[i].name == name {
        i
    } else {
        find_from(groups, name, i + 1)
    }
}

/// The index of the first group called `name`; `-1` when there is none.
pub open spec fn find_group(groups: Seq<GroupView>, name: Seq<char>) -> int {
    find_from(groups, name, 0)
}

/// A non-negative search result is a real position holding the name.
pub proof fn lemma_find_found(groups: Seq<GroupView>, name: Seq<char>, i: int)
    requires
        0 <= i <= groups.len(),
    ensures
        find_from(groups, name, i) == -1 || (i <= find_from(groups, name, i) < groups.len()
            && groups[find_from(groups, name, i)].name == name),
    decreases groups.len() - i,
{
    if i < groups.len() && !(groups[i].name == name) {
        lemma_find_found(groups, name, i + 1);
    }
}

/// The effective weight of a rule: its weight scaled by the global entropy,
/// clamped into the model range.
pub open spec fn eff_weight(w: int, entropy: int) -> int {
    clamp_lim(w * entropy)
}

/// The groups after the first `n` rules have been applied, in declared
/// order. Each rule reads the groups as the rules before it left them — not
/// a pre-tick snapshot — and a rule whose source or target is missing is
/// skipped.
pub open spec fn tick_upto(
    groups: Seq<GroupView>,
    rules: Seq<AtomRule>,
    entropy: int,
    n: int,
) -> Seq<GroupView>
    decreases n,
{
    if n <= 0 {
        groups
    } else {
        let g = tick_upto(groups, rules, entropy, n - 1);
        let rule = rules[n - 1];
        let si = find_group(g, rule.src@);
        let ti = find_group(g, rule.target@);
        if si >= 0 && ti >= 0 {
            g.update(si, apply_rule_view(g[si], g[ti].atoms, eff_weight(rule.w as int, entropy)))
        } else {
            g
        }
    }
}

/// The groups after one full physics tick.
pub open spec fn tick_spec(groups: Seq<GroupView>, rules: Seq<AtomRule>, entropy: int) -> Seq<
    GroupView,
> {
    tick_upto(groups, rules, entropy, rules.len() as int)
}

/// The rules a host payload of string triples denotes; entries shorter than
/// a triple are dropped.
pub open spec fn rules_of(raw: Seq<Vec<String>>) -> Seq<AtomRule>
    decreases raw.len(),
{
    if raw.len() == 0 {
        Seq::empty()
    } else {
        let rest = rules_of(raw.drop_last());
        if raw.last()@.len() >= 3 {
            rest.push(rule_of_triple(raw.last()@))
        } else {
            rest
        }
    }
}

/// How one group of a new configuration relates to the old groups: the old
/// group of the same name brought to the new configuration, or a freshly
/// spawned group when the name is new.
pub open spec fn reconfigured_group(
    old_groups: Seq<GroupView>,
    name: Seq<char>,
    c: AtomConf,
    g: GroupView,
    width: int,
    height: int,
    padding: int,
) -> bool {
    let oi = find_group(old_groups, name);
    &&& g.name == name
    &&& g.config == c
    &&& g.atoms.len() == target_total(c)
    &&& if oi >= 0 {
        &&& forall|i: int|
            0 <= i < target_total(c) && i < old_groups[oi].atoms.len() ==> #[trigger] g.atoms[i]
                == old_groups[oi].atoms[i]
        &&& forall|i: int|
            old_groups[oi].atoms.len() <= i < target_total(c) ==> spawned_in(
                #[trigger] g.atoms[i],
                width,
                height,
                padding,
            )
    } else {
        forall|i: int|
            0 <= i < target_total(c) ==> spawned_in(#[trigger] g.atoms[i], width, height, padding)
    }
}

/// The simulation: all state and the operations over it.
#[derive(Debug)]
pub struct System {
    /// True once the canvas bounds have been supplied.
    pub engine_loaded: bool,
    /// How many physics steps the host should run per second.
    pub compute_tick: u32,
    /// Padding kept between the canvas edge and the atoms.
    pub canvas_padding: i64,
    /// How many frames have been rendered so far.
    pub frame_count: i64,
    /// True while the simulation runs; false means paused.
    pub rendering: bool,
    /// Global multiplier applied to every rule weight.
    pub entropy: i64,
    /// The ordered rule table.
    pub rules: Vec<AtomRule>,
    /// The groups, in the order of the last configuration payload; their
    /// names are unique.
    pub atoms: Vec<AtomSet>,
    /// Canvas width.
    pub canvas_width: i64,
    /// Canvas height.
    pub canvas_height: i64,
}

impl System {
    /// The group states of the simulation.
    pub open spec fn groups(self) -> Seq<GroupView> {
        views(self.atoms@)
    }

    /// Every dimension, weight and atom lies inside the model range, the
    /// frame counter is non-negative, and group names are unique.
    pub open spec fn wf(self) -> bool {
        &&& 0 <= self.canvas_padding <= LIM
        &&& 0 <= self.canvas_width <= LIM
        &&& 0 <= self.canvas_height <= LIM
        &&& -LIM <= self.entropy <= LIM
        &&& 0 <= self.frame_count
        &&& forall|i: int| 0 <= i < self.rules@.len() ==> (#[trigger] self.rules@[i]).wf()
        &&& forall|i: int| 0 <= i < self.atoms@.len() ==> (#[trigger] self.atoms@[i]).wf()
        &&& forall|i: int, j: int|
            0 <= i < j < self.atoms@.len() ==> self.atoms@[i].color@ != self.atoms@[j].color@
    }

    /// A fresh, stopped, unconfigured simulation.
    pub fn new() -> (s: System)
        ensures
            s.engine_loaded == false,
            s.compute_tick == 64,
            s.canvas_padding == 10,
            s.frame_count == 0,
            s.rendering == false,
            s.entropy == 1,
            s.rules@.len() == 0,
            s.atoms@.len() == 0,
            s.canvas_width == 0,
            s.canvas_height == 0,
            s.wf(),
    {
        System {
            engine_loaded: false,
            compute_tick: 64,
            canvas_padding: 10,
            frame_count: 0,
            rendering: false,
            entropy: 1,
            rules: Vec::new(),
            atoms: Vec::new(),
            canvas_width: 0,
            canvas_height: 0,
        }
    }

    /// Establish the simulation bounds. A second call is ignored; a negative
    /// or oversized dimension is clamped into `[0, LIM]`.
    pub fn init_engine(&mut self, width: i64, height: i64)
        requires
            old(self).wf(),
        ensures
            old(self).engine_loaded ==> *final(self) == *old(self),
            !old(self).engine_loaded ==> {
                &&& final(self).engine_loaded == true
                &&& final(self).canvas_width as int == clamp_dim(width as int)
                &&& final(self).canvas_height as int == clamp_dim(height as int)
                &&& final(self).compute_tick == old(self).compute_tick
                &&& final(self).canvas_padding == old(self).canvas_padding
                &&& final(self).frame_count == old(self).frame_count
                &&& final(self).rendering == old(self).rendering
                &&& final(self).entropy == old(self).entropy
                &&& final(self).rules == old(self).rules
                &&& final(self).atoms == old(self).atoms
            },
            final(self).wf(),
    {
        if !self.engine_loaded {
            self.canvas_width = clamp_dim_exec(width);
            self.canvas_height = clamp_dim_exec(height);
            self.engine_loaded = true;
        }
    }

    /// Start the simulation: ticks and renders take effect again.
    pub fn start_render(&mut self)
        requires
            old(self).wf(),
        ensures
            final(self).rendering == true,
            same_but_run_state(*old(self), *final(self)),
            final(self).wf(),
    {
        self.rendering = true;
    }

    /// Pause the simulation: ticks and renders become no-ops.
    pub fn stop_render(&mut self)
        requires
            old(self).wf(),
        ensures
            final(self).rendering == false,
            same_but_run_state(*old(self), *final(self)),
            final(self).wf(),
    {
        self.rendering = false;
    }

    /// Set how many physics steps the host should run per second.
    pub fn set_tick(&mut self, tick: u32)
        requires
            old(self).wf(),
        ensures
            final(self).compute_tick == tick,
            final(self).engine_loaded == old(self).engine_loaded,
            final(self).canvas_padding == old(self).canvas_padding,
            final(self).frame_count == old(self).frame_count,
            final(self).rendering == old(self).rendering,
            final(self).entropy == old(self).entropy,
            final(self).rules == old(self).rules,
            final(self).atoms == old(self).atoms,
            final(self).canvas_width == old(self).canvas_width,
            final(self).canvas_height == old(self).canvas_height,
            final(self).wf(),
    {
        self.compute_tick = tick;
    }

    /// Set the global weight multiplier, clamped into the model range.
    pub fn change_entropy(&mut self, entropy: i64)
        requires
            old(self).wf(),
        ensures
            final(self).entropy as int == clamp_lim(entropy as int),
            final(self).engine_loaded == old(self).engine_loaded,
            final(self).compute_tick == old(self).compute_tick,
            final(self).canvas_padding == old(self).canvas_padding,
            final(self).frame_count == old(self).frame_count,
            final(self).rendering == old(self).rendering,
            final(self).rules == old(self).rules,
            final(self).atoms == old(self).atoms,
            final(self).canvas_width == old(self).canvas_width,
            final(self).canvas_height == old(self).canvas_height,
            final(self).wf(),
    {
        self.entropy = clamp_wide(entropy as i128);
    }

    /// The number of frames rendered so far.
    pub fn get_crr_frame_idx(&self) -> (r: i64)
        ensures
            r == self.frame_count,
    {
        self.frame_count
    }

    /// Replace the whole rule table by the rules the host payload denotes;
    /// a malformed weight text yields weight zero, and an entry shorter than
    /// a triple is dropped, so one bad rule never spoils the batch.
    pub fn load_js_rules(&mut self, raw: Vec<Vec<String>>)
        requires
            old(self).wf(),
        ensures
            final(self).rules@ == rules_of(raw@),
            final(self).engine_loaded == old(self).engine_loaded,
            final(self).compute_tick == old(self).compute_tick,
            final(self).canvas_padding == old(self).canvas_padding,
            final(self).frame_count == old(self).frame_count,
            final(self).rendering == old(self).rendering,
            final(self).entropy == old(self).entropy,
            final(self).atoms == old(self).atoms,
            final(self).canvas_width == old(self).canvas_width,
            final(self).canvas_height == old(self).canvas_height,
            final(self).wf(),
    {
        let mut new_rules: Vec<AtomRule> = Vec::new();
        let mut k: usize = 0;
        while k < raw.len()
            invariant
                0 <= k <= raw@.len(),
                new_rules@ == rules_of(raw@.take(k as int)),
                forall|i: int| 0 <= i < new_rules@.len() ==> (#[trigger] new_rules@[i]).wf(),
            decreases raw@.len() - k,
        {
            proof {
                assert(raw@.take(k + 1 as int).drop_last() =~= raw@.take(k as int));
                assert(raw@.take(k + 1 as int).last() == raw@[k as int]);
            }
            let entry = &raw[k];
            if entry.len() >= 3 {
                let triple = clone_strings(entry);
                new_rules.push(crate::atom::AtomRule::vec_into(triple));
            }
            k = k + 1;
        }
        proof {
            assert(raw@.take(raw@.len() as int) =~= raw@);
        }
        self.rules = new_rules;
    }

    /// Apply the full-replacement reconfiguration: every named group is
    /// created or reconciled, in payload order, and every group whose name
    /// the payload omits is removed together with all its atoms. Before the
    /// bounds are known the call is a no-op.
    pub fn load_js_conf(&mut self, conf: Vec<(String, AtomConf)>)
        requires
            old(self).wf(),
            forall|i: int, j: int|
                0 <= i < j < conf@.len() ==> conf@[i].0@ != conf@[j].0@,
        ensures
            !old(self).engine_loaded ==> *final(self) == *old(self),
            old(self).engine_loaded ==> {
                &&& final(self).groups().len() == conf@.len()
                &&& forall|k: int|
                    0 <= k < conf@.len() ==> reconfigured_group(
                        old(self).groups(),
                        conf@[k].0@,
                        conf@[k].1,
                        #[trigger] final(self).groups()[k],
                        old(self).canvas_width as int,
                        old(self).canvas_height as int,
                        old(self).canvas_padding as int,
                    )
            },
            final(self).engine_loaded == old(self).engine_loaded,
            final(self).compute_tick == old(self).compute_tick,
            final(self).canvas_padding == old(self).canvas_padding,
            final(self).frame_count == old(self).frame_count,
            final(self).rendering == old(self).rendering,
            final(self).entropy == old(self).entropy,
            final(self).rules == old(self).rules,
            final(self).canvas_width == old(self).canvas_width,
            final(self).canvas_height == old(self).canvas_height,
            final(self).wf(),
    {
        if !self.engine_loaded {
            return ;
        }
        let mut new_sets: Vec<AtomSet> = Vec::new();
        let mut k: usize = 0;
        while k < conf.len()
            invariant
                0 <= k <= conf@.len(),
                self == old(self),
                old(self).wf(),
                forall|i: int, j: int|
                    0 <= i < j < conf@.len() ==> conf@[i].0@ != conf@[j].0@,
                new_sets@.len() == k,
                forall|j: int|
                    0 <= j < k ==> reconfigured_group(
                        old(self).groups(),
                        conf@[j].0@,
                        conf@[j].1,
                        #[trigger] views(new_sets@)[j],
                        old(self).canvas_width as int,
                        old(self).canvas_height as int,
                        old(self).canvas_padding as int,
                    ),
                forall|j: int| 0 <= j < k ==> (#[trigger] new_sets@[j]).wf(),
                forall|j: int| 0 <= j < k ==> (#[trigger] new_sets@[j]).color@ == conf@[j].0@,
            decreases conf@.len() - k,
        {
            let name = &conf[k].0;
            let c = conf[k].1;
            let found = find_set(&self.atoms, name);
            proof {
                lemma_find_found(self.groups(), name@, 0);
            }
            let mut g: AtomSet = match found {
                Some(i) => self.atoms[i].snapshot(),
                None => AtomSet { color: name.clone(), config: c, atoms: Vec::new() },
            };
            g.reconcile(c, self.canvas_width, self.canvas_height, self.canvas_padding);
            let ghost ns0 = new_sets@;
            new_sets.push(g);
            proof {
                assert(new_sets@[k as int] == g);
                assert(views(new_sets@)[k as int] == g@);
                assert(forall|j: int| 0 <= j < k ==> new_sets@[j] == ns0[j]);
                assert(forall|j: int|
                    0 <= j < k ==> #[trigger] views(new_sets@)[j] == views(ns0)[j]);
                let oi = find_group(old(self).groups(), conf@[k as int].0@);
                if found is Some {
                    let i = found->0 as int;
                    assert(old(self).groups()[i] == old(self).atoms@[i]@);
                    assert(oi == i && old(self).groups()[i].name == name@);
                }
                assert(reconfigured_group(
                    old(self).groups(),
                    conf@[k as int].0@,
                    conf@[k as int].1,
                    views(new_sets@)[k as int],
                    old(self).canvas_width as int,
                    old(self).canvas_height as int,
                    old(self).canvas_padding as int,
                ));
            }
            k = k + 1;
        }
        self.atoms = new_sets;
    }

    /// Scatter every atom of every group to a fresh random position. Before
    /// the bounds are known the call is a no-op.
    pub fn refresh(&mut self)
        requires
            old(self).wf(),
        ensures
            !old(self).engine_loaded ==> *final(self) == *old(self),
            final(self).groups().len() == old(self).groups().len(),
            forall|k: int|
                0 <= k < old(self).groups().len() ==> {
                    &&& (#[trigger] final(self).groups()[k]).name == old(self).groups()[k].name
                    &&& final(self).groups()[k].config == old(self).groups()[k].config
                    &&& final(self).groups()[k].atoms.len() == old(self).groups()[k].atoms.len()
                },
            old(self).engine_loaded ==> forall|k: int, i: int|
                0 <= k < old(self).groups().len() && 0 <= i < old(self).groups()[k].atoms.len()
                    ==> spawned_in(
                    #[trigger] final(self).groups()[k].atoms[i],
                    old(self).canvas_width as int,
                    old(self).canvas_height as int,
                    old(self).canvas_padding as int,
                ),
            final(self).engine_loaded == old(self).engine_loaded,
            final(self).compute_tick == old(self).compute_tick,
            final(self).canvas_padding == old(self).canvas_padding,
            final(self).frame_count == old(self).frame_count,
            final(self).rendering == old(self).rendering,
            final(self).entropy == old(self).entropy,
            final(self).rules == old(self).rules,
            final(self).canvas_width == old(self).canvas_width,
            final(self).canvas_height == old(self).canvas_height,
            final(self).wf(),
    {
        if !self.engine_loaded {
            return ;
        }
        let mut k: usize = 0;
        while k < self.atoms.len()
            invariant
                0 <= k <= self.atoms@.len(),
                self.atoms@.len() == old(self).atoms@.len(),
                old(self).wf(),
                self.engine_loaded == old(self).engine_loaded,
                self.compute_tick == old(self).compute_tick,
                self.canvas_padding == old(self).canvas_padding,
                self.frame_count == old(self).frame_count,
                self.rendering == old(self).rendering,
                self.entropy == old(self).entropy,
                self.rules == old(self).rules,
                self.canvas_width == old(self).canvas_width,
                self.canvas_height == old(self).canvas_height,
                forall|j: int|
                    k <= j < self.atoms@.len() ==> #[trigger] self.atoms@[j] == old(
                        self,
                    ).atoms@[j],
                forall|j: int|
                    0 <= j < k ==> {
                        &&& (#[trigger] self.atoms@[j]).color@ == old(self).atoms@[j].color@
                        &&& self.atoms@[j].config == old(self).atoms@[j].config
                        &&& self.atoms@[j].atoms@.len() == old(self).atoms@[j].atoms@.len()
                        &&& self.atoms@[j].wf()
                        &&& forall|i: int|
                            0 <= i < self.atoms@[j].atoms@.len() ==> spawned_in(
                                #[trigger] self.atoms@[j].atoms@[i],
                                old(self).canvas_width as int,
                                old(self).canvas_height as int,
                                old(self).canvas_padding as int,
                            )
                    },
            decreases self.atoms@.len() - k,
        {
            let width = self.canvas_width;
            let height = self.canvas_height;
            let padding = self.canvas_padding;
            self.atoms[k].reborn(width, height, padding);
            k = k + 1;
        }
    }

    /// Run one physics tick: while the simulation runs, apply every rule in
    /// declared order, each against the groups as the rules before it left
    /// them; a rule naming a missing group is skipped. While stopped, do
    /// nothing.
    pub fn compute_next_tick(&mut self)
        requires
            old(self).wf(),
        ensures
            !(old(self).rendering && old(self).engine_loaded) ==> *final(self) == *old(self),
            old(self).rendering && old(self).engine_loaded ==> final(self).groups() == tick_spec(
                old(self).groups(),
                old(self).rules@,
                old(self).entropy as int,
            ),
            final(self).engine_loaded == old(self).engine_loaded,
            final(self).compute_tick == old(self).compute_tick,
            final(self).canvas_padding == old(self).canvas_padding,
            final(self).frame_count == old(self).frame_count,
            final(self).rendering == old(self).rendering,
            final(self).entropy == old(self).entropy,
            final(self).rules == old(self).rules,
            final(self).canvas_width == old(self).canvas_width,
            final(self).canvas_height == old(self).canvas_height,
            final(self).wf(),
    {
        if self.rendering && self.engine_loaded {
            let n = self.rules.len();
            let mut k: usize = 0;
            while k < n
                invariant
                    0 <= k <= n,
                    n == self.rules@.len(),
                    old(self).wf(),
                    self.engine_loaded == old(self).engine_loaded,
                    self.compute_tick == old(self).compute_tick,
                    self.canvas_padding == old(self).canvas_padding,
                    self.frame_count == old(self).frame_count,
                    self.rendering == old(self).rendering,
                    self.entropy == old(self).entropy,
                    self.rules == old(self).rules,
                    self.canvas_width == old(self).canvas_width,
                    self.canvas_height == old(self).canvas_height,
                    self.wf(),
                    self.groups() == tick_upto(
                        old(self).groups(),
                        old(self).rules@,
                        old(self).entropy as int,
                        k as int,
                    ),
                decreases n - k,
            {
                let ghost g_pre = self.groups();
                let si_found = find_set(&self.atoms, &self.rules[k].src);
                let ti_found = find_set(&self.atoms, &self.rules[k].target);
                if let (Some(si), Some(ti)) = (si_found, ti_found) {
                    let snap = self.atoms[ti].snapshot();
                    let w = eff_weight_exec(self.rules[k].w, self.entropy);
                    self.atoms[si].apply_rule(&snap, w);
                    proof {
                        let eff = eff_weight(
                            old(self).rules@[k as int].w as int,
                            old(self).entropy as int,
                        );
                        assert(self.groups() =~= g_pre.update(
                            si as int,
                            apply_rule_view(g_pre[si as int], g_pre[ti as int].atoms, eff),
                        ));
                    }
                }
                k = k + 1;
            }
        }
    }

    /// Reflect every atom of every group at the padded canvas bounds. While
    /// stopped, do nothing.
    pub fn correct_point_position(&mut self)
        requires
            old(self).wf(),
        ensures
            !(old(self).rendering && old(self).engine_loaded) ==> *final(self) == *old(self),
            old(self).rendering && old(self).engine_loaded ==> final(self).groups()
                == old(self).groups().map_values(
                |g: GroupView|
                    reflect_view(
                        g,
                        old(self).canvas_padding as int,
                        old(self).canvas_width - old(self).canvas_padding,
                        old(self).canvas_padding as int,
                        old(self).canvas_height - old(self).canvas_padding,
                    ),
            ),
            final(self).engine_loaded == old(self).engine_loaded,
            final(self).compute_tick == old(self).compute_tick,
            final(self).canvas_padding == old(self).canvas_padding,
            final(self).frame_count == old(self).frame_count,
            final(self).rendering == old(self).rendering,
            final(self).entropy == old(self).entropy,
            final(self).rules == old(self).rules,
            final(self).canvas_width == old(self).canvas_width,
            final(self).canvas_height == old(self).canvas_height,
            final(self).wf(),
    {
        if self.rendering && self.engine_loaded {
            let min_x = self.canvas_padding;
            let max_x = self.canvas_width - self.canvas_padding;
            let min_y = self.canvas_padding;
            let max_y = self.canvas_height - self.canvas_padding;
            let mut k: usize = 0;
            while k < self.atoms.len()
                invariant
                    0 <= k <= self.atoms@.len(),
                    self.atoms@.len() == old(self).atoms@.len(),
                    old(self).wf(),
                    min_x == old(self).canvas_padding,
                    max_x == old(self).canvas_width - old(self).canvas_padding,
                    min_y == old(self).canvas_padding,
                    max_y == old(self).canvas_height - old(self).canvas_padding,
                    self.engine_loaded == old(self).engine_loaded,
                    self.compute_tick == old(self).compute_tick,
                    self.canvas_padding == old(self).canvas_padding,
                    self.frame_count == old(self).frame_count,
                    self.rendering == old(self).rendering,
                    self.entropy == old(self).entropy,
                    self.rules == old(self).rules,
                    self.canvas_width == old(self).canvas_width,
                    self.canvas_height == old(self).canvas_height,
                    forall|j: int|
                        k <= j < self.atoms@.len() ==> #[trigger] self.atoms@[j] == old(
                            self,
                        ).atoms@[j],
                    forall|j: int|
                        0 <= j < k ==> #[trigger] self.atoms@[j]@ == reflect_view(
                            old(self).atoms@[j]@,
                            min_x as int,
                            max_x as int,
                            min_y as int,
                            max_y as int,
                        ),
                    forall|j: int| 0 <= j < k ==> (#[trigger] self.atoms@[j]).wf(),
                decreases self.atoms@.len() - k,
            {
                self.atoms[k].correct_pos(min_x, max_x, min_y, max_y);
                k = k + 1;
            }
            proof {
                assert(self.groups() =~= old(self).groups().map_values(
                    |g: GroupView|
                        reflect_view(
                            g,
                            old(self).canvas_padding as int,
                            old(self).canvas_width - old(self).canvas_padding,
                            old(self).canvas_padding as int,
                            old(self).canvas_height - old(self).canvas_padding,
                        ),
                ));
                assert forall|j: int|
                    0 <= j < self.atoms@.len() implies (#[trigger] self.atoms@[j]).color@ == old(
                    self,
                ).atoms@[j].color@ by {
                    assert(self.atoms@[j]@ == reflect_view(
                        old(self).atoms@[j]@,
                        min_x as int,
                        max_x as int,
                        min_y as int,
                        max_y as int,
                    ));
                }
            }
        }
    }

    /// Count one rendered frame while the simulation runs; the caller then
    /// hands the group set to the renderer exactly when `drew` is true.
    /// While stopped, nothing changes and nothing is drawn.
    pub fn render(&mut self) -> (drew: bool)
        requires
            old(self).wf(),
        ensures
            drew == (old(self).rendering && old(self).engine_loaded),
            !drew ==> *final(self) == *old(self),
            drew ==> {
                &&& final(self).frame_count == if old(self).frame_count < i64::MAX {
                    old(self).frame_count + 1
                } else {
                    old(self).frame_count as int
                }
                &&& final(self).frame_count >= old(self).frame_count
                &&& final(self).engine_loaded == old(self).engine_loaded
                &&& final(self).compute_tick == old(self).compute_tick
                &&& final(self).canvas_padding == old(self).canvas_padding
                &&& final(self).rendering == old(self).rendering
                &&& final(self).entropy == old(self).entropy
                &&& final(self).rules == old(self).rules
                &&& final(self).atoms == old(self).atoms
                &&& final(self).canvas_width == old(self).canvas_width
                &&& final(self).canvas_height == old(self).canvas_height
            },
            final(self).wf(),
    {
        if self.rendering && self.engine_loaded {
            if self.frame_count < i64::MAX {
                self.frame_count = self.frame_count + 1;
            }
            true
        } else {
            false
        }
    }
}

/// Both states agree on everything but whether the simulation runs.
pub open spec fn same_but_run_state(a: System, b: System) -> bool {
    &&& b.engine_loaded == a.engine_loaded
    &&& b.compute_tick == a.compute_tick
    &&& b.canvas_padding == a.canvas_padding
    &&& b.frame_count == a.frame_count
    &&& b.entropy == a.entropy
    &&& b.rules == a.rules
    &&& b.atoms == a.atoms
    &&& b.canvas_width == a.canvas_width
    &&& b.canvas_height == a.canvas_height
}

/// A dimension clamped into `[0, LIM]`.
pub open spec fn clamp_dim(x: int) -> int {
    if x < 0 {
        0
    } else if x > LIM {
        LIM as int
    } else {
        x
    }
}

fn clamp_dim_exec(x: i64) -> (r: i64)
    ensures
        r as int == clamp_dim(x as int),
{
    if x < 0 {
        0
    } else if x > LIM {
        LIM
    } else {
        x
    }
}

/// The effective weight of a rule under the current entropy.
fn eff_weight_exec(w: i64, entropy: i64) -> (r: i64)
    requires
        -LIM <= w <= LIM,
        -LIM <= entropy <= LIM,
    ensures
        r as int == eff_weight(w as int, entropy as int),
        -LIM <= r <= LIM,
{
    proof {
        assert(-0x10_0000_0000_0000_0000_0000_0000 <= w * entropy
            <= 0x10_0000_0000_0000_0000_0000_0000) by (nonlinear_arith)
            requires
                -LIM <= w <= LIM,
                -LIM <= entropy <= LIM,
                LIM == 0x4_0000_0000_0000,
        ;
    }
    clamp_wide((w as i128) * (entropy as i128))
}

/// An owned copy of a vector of strings.
fn clone_strings(v: &Vec<String>) -> (out: Vec<String>)
    ensures
        out@ == v@,
{
    let mut out: Vec<String> = Vec::new();
    let mut i: usize = 0;
    while i < v.len()
        invariant
            0 <= i <= v@.len(),
            out@ == v@.take(i as int),
        decreases v@.len() - i,
    {
        out.push(v[i].clone());
        proof {
            assert(v@.take(i + 1 as int) =~= v@.take(i as int).push(v@[i as int]));
        }
        i = i + 1;
    }
    proof {
        assert(v@.take(v@.len() as int) =~= v@);
    }
    out
}

/// The index of the first set called `name`, when there is one.
fn find_set(sets: &Vec<AtomSet>, name: &String) -> (r: Option<usize>)
    ensures
        match r {
            Some(i) => 0 <= i < sets@.len() && find_group(views(sets@), name@) == i,
            None => find_group(views(sets@), name@) == -1,
        },
{
    let mut i: usize = 0;
    while i < sets.len()
        invariant
            0 <= i <= sets@.len(),
            find_group(views(sets@), name@) == find_from(views(sets@), name@, i as int),
        decreases sets@.len() - i,
    {
        if sets[i].color.eq(name) {
            return Some(i);
        }
        i = i + 1;
    }
    None
}

} // verus!
