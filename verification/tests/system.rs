//! Tests of group reconciliation and of the simulation orchestrator.

use atom_sim::atom::{Atom, AtomShape};
use atom_sim::atom_set::{AtomConf, AtomSet};
use atom_sim::system::System;
use atom_sim::vector::Vector;

fn conf(total: i32) -> AtomConf {
    AtomConf {
        total,
        point_size: 2,
        blur_radius: None,
        compute_radius: None,
        shape: Some(AtomShape::Square),
    }
}

fn atom_at(x: i64, y: i64) -> Atom {
    Atom { p: Vector { x, y }, v: Vector { x: 0, y: 0 } }
}

fn group(name: &str, atoms: Vec<Atom>) -> AtomSet {
    let total = atoms.len() as i32;
    AtomSet { color: name.to_string(), config: conf(total), atoms }
}

fn running_system() -> System {
    let mut sys = System::new();
    sys.init_engine(1000, 1000);
    sys.start_render();
    sys
}

#[test]
fn reconcile_grow_appends_fresh_atoms_only() {
    let a0 = atom_at(20, 20);
    let a1 = atom_at(30, 40);
    let mut s = group("red", vec![a0, a1]);
    s.reconcile(conf(5), 100, 100, 10);
    assert_eq!(s.atoms.len(), 5);
    assert_eq!(s.atoms[0], a0);
    assert_eq!(s.atoms[1], a1);
    for i in 2..5 {
        assert!(10 <= s.atoms[i].p.x && s.atoms[i].p.x <= 90);
        assert!(10 <= s.atoms[i].p.y && s.atoms[i].p.y <= 90);
        assert_eq!(s.atoms[i].v, Vector { x: 0, y: 0 });
    }
    assert_eq!(s.config.total, 5);
}

#[test]
fn reconcile_shrink_keeps_exact_prefix() {
    let a0 = atom_at(20, 20);
    let a1 = atom_at(30, 40);
    let a2 = atom_at(50, 60);
    let mut s = group("red", vec![a0, a1, a2]);
    s.reconcile(conf(1), 100, 100, 10);
    assert_eq!(s.atoms.len(), 1);
    assert_eq!(s.atoms[0], a0);
}

#[test]
fn reconcile_negative_total_empties_the_group() {
    let mut s = group("red", vec![atom_at(20, 20)]);
    s.reconcile(conf(-3), 100, 100, 10);
    assert_eq!(s.atoms.len(), 0);
    assert_eq!(s.config.total, -3);
}

#[test]
fn reconcile_replaces_visual_config() {
    let mut s = group("red", vec![atom_at(20, 20)]);
    let mut c = conf(1);
    c.point_size = 9;
    c.shape = Some(AtomShape::Dot);
    s.reconcile(c, 100, 100, 10);
    assert_eq!(s.config.point_size, 9);
    assert_eq!(s.config.shape, Some(AtomShape::Dot));
}

#[test]
fn apply_rule_uses_source_radius() {
    // The source group's radius is 20, so a target atom at distance 30 is out
    // of reach even though the target's own radius would cover it.
    let mut src = group("a", vec![atom_at(0, 0)]);
    src.config.compute_radius = Some(20);
    let mut tgt = group("b", vec![atom_at(30, 0)]);
    tgt.config.compute_radius = Some(100);
    src.apply_rule(&tgt, 10);
    assert_eq!(src.atoms[0].p, Vector { x: 0, y: 0 });
    // And with the roles reversed the pull is felt.
    tgt.apply_rule(&src, 10);
    assert_ne!(tgt.atoms[0].p, Vector { x: 30, y: 0 });
}

#[test]
fn new_system_defaults() {
    let sys = System::new();
    assert_eq!(sys.engine_loaded, false);
    assert_eq!(sys.compute_tick, 64);
    assert_eq!(sys.canvas_padding, 10);
    assert_eq!(sys.frame_count, 0);
    assert_eq!(sys.rendering, false);
    assert_eq!(sys.entropy, 1);
    assert_eq!(sys.rules.len(), 0);
    assert_eq!(sys.atoms.len(), 0);
}

#[test]
fn init_engine_is_idempotent() {
    let mut sys = System::new();
    sys.init_engine(800, 600);
    assert_eq!(sys.canvas_width, 800);
    assert_eq!(sys.canvas_height, 600);
    sys.init_engine(200, 200);
    assert_eq!(sys.canvas_width, 800);
    assert_eq!(sys.canvas_height, 600);
}

#[test]
fn init_engine_clamps_bad_dimensions() {
    let mut sys = System::new();
    sys.init_engine(-5, i64::MAX);
    assert_eq!(sys.canvas_width, 0);
    assert_eq!(sys.canvas_height, atom_sim::LIM);
}

#[test]
fn rules_load_and_bad_entries_recover() {
    let mut sys = System::new();
    sys.load_js_rules(vec![
        vec!["red".to_string(), "blue".to_string(), "7".to_string()],
        vec!["blue".to_string(), "red".to_string(), "soon".to_string()],
        vec!["lonely".to_string()],
    ]);
    // The short entry is dropped; the malformed weight becomes zero without
    // spoiling the rest of the batch.
    assert_eq!(sys.rules.len(), 2);
    assert_eq!(sys.rules[0].src, "red");
    assert_eq!(sys.rules[0].w, 7);
    assert_eq!(sys.rules[1].src, "blue");
    assert_eq!(sys.rules[1].w, 0);
}

#[test]
fn reconfigure_creates_groups_inside_bounds() {
    let mut sys = running_system();
    sys.load_js_conf(vec![("red".to_string(), conf(2)), ("blue".to_string(), conf(3))]);
    assert_eq!(sys.atoms.len(), 2);
    assert_eq!(sys.atoms[0].color, "red");
    assert_eq!(sys.atoms[0].atoms.len(), 2);
    assert_eq!(sys.atoms[1].color, "blue");
    assert_eq!(sys.atoms[1].atoms.len(), 3);
    for set in &sys.atoms {
        for a in &set.atoms {
            assert!(10 <= a.p.x && a.p.x <= 990);
            assert!(10 <= a.p.y && a.p.y <= 990);
        }
    }
}

#[test]
fn reconfigure_before_init_is_a_no_op() {
    let mut sys = System::new();
    sys.load_js_conf(vec![("red".to_string(), conf(2))]);
    assert_eq!(sys.atoms.len(), 0);
}

#[test]
fn reconfigure_omitting_a_name_deletes_the_group() {
    let mut sys = running_system();
    sys.load_js_conf(vec![("red".to_string(), conf(2)), ("blue".to_string(), conf(3))]);
    let blue_before = sys.atoms[1].atoms.clone();
    sys.load_js_conf(vec![("blue".to_string(), conf(3))]);
    assert_eq!(sys.atoms.len(), 1);
    assert_eq!(sys.atoms[0].color, "blue");
    // The surviving group's atoms are untouched.
    assert_eq!(sys.atoms[0].atoms, blue_before);
}

#[test]
fn reconfigure_with_empty_payload_removes_every_group() {
    let mut sys = running_system();
    sys.load_js_conf(vec![("red".to_string(), conf(2))]);
    sys.load_js_conf(vec![]);
    assert_eq!(sys.atoms.len(), 0);
}

#[test]
fn rules_naming_a_deleted_group_are_skipped() {
    let mut sys = running_system();
    sys.load_js_conf(vec![("red".to_string(), conf(1)), ("blue".to_string(), conf(1))]);
    sys.load_js_rules(vec![
        vec!["red".to_string(), "blue".to_string(), "10".to_string()],
        vec!["ghost".to_string(), "blue".to_string(), "10".to_string()],
    ]);
    sys.load_js_conf(vec![("blue".to_string(), conf(1))]);
    let before = sys.atoms[0].atoms.clone();
    // Both rules now dangle (source "red" was deleted, "ghost" never
    // existed): the tick runs and changes nothing.
    sys.compute_next_tick();
    assert_eq!(sys.atoms.len(), 1);
    assert_eq!(sys.atoms[0].atoms, before);
}

#[test]
fn tick_applies_force_law_through_rules() {
    let mut sys = running_system();
    sys.atoms = vec![group("a", vec![atom_at(0, 0)]), group("b", vec![atom_at(10, 0)])];
    sys.load_js_rules(vec![vec!["a".to_string(), "b".to_string(), "10".to_string()]]);
    sys.compute_next_tick();
    assert_eq!(sys.atoms[0].atoms[0].p, Vector { x: -5, y: 0 });
    assert_eq!(sys.atoms[0].atoms[0].v, Vector { x: -5, y: 0 });
    // The target group is untouched by a one-way rule.
    assert_eq!(sys.atoms[1].atoms[0].p, Vector { x: 10, y: 0 });
}

#[test]
fn entropy_scales_every_rule_weight() {
    let mut sys = running_system();
    sys.atoms = vec![group("a", vec![atom_at(0, 0)]), group("b", vec![atom_at(10, 0)])];
    sys.load_js_rules(vec![vec!["a".to_string(), "b".to_string(), "5".to_string()]]);
    sys.change_entropy(2);
    sys.compute_next_tick();
    // Effective weight 10: same outcome as the plain force-law scenario.
    assert_eq!(sys.atoms[0].atoms[0].p, Vector { x: -5, y: 0 });
}

#[test]
fn second_rule_reads_state_the_first_already_changed() {
    // Rules [a <- b, b <- a], applied in that order. The first rule throws
    // the "a" atom from (0,0) to (-50,0). The second rule must read that
    // updated position: the distance 100 is beyond the radius 80, so "b"
    // does not move. Against a pre-tick snapshot "b" would have been pulled
    // hard (distance 50), so the two behaviours differ visibly.
    let mut sys = running_system();
    sys.atoms = vec![group("a", vec![atom_at(0, 0)]), group("b", vec![atom_at(50, 0)])];
    sys.load_js_rules(vec![
        vec!["a".to_string(), "b".to_string(), "100".to_string()],
        vec!["b".to_string(), "a".to_string(), "100".to_string()],
    ]);
    sys.compute_next_tick();
    assert_eq!(sys.atoms[0].atoms[0].p, Vector { x: -50, y: 0 });
    assert_eq!(sys.atoms[0].atoms[0].v, Vector { x: -50, y: 0 });
    assert_eq!(sys.atoms[1].atoms[0].p, Vector { x: 50, y: 0 });
    assert_eq!(sys.atoms[1].atoms[0].v, Vector { x: 0, y: 0 });
}

#[test]
fn self_rule_reads_the_pre_rule_snapshot() {
    // A group interacting with itself: each atom is integrated against the
    // snapshot taken before the rule ran, so the two atoms see each other at
    // the pre-rule positions and move symmetrically.
    let mut sys = running_system();
    sys.atoms = vec![group("a", vec![atom_at(0, 0), atom_at(10, 0)])];
    sys.load_js_rules(vec![vec!["a".to_string(), "a".to_string(), "10".to_string()]]);
    sys.compute_next_tick();
    assert_eq!(sys.atoms[0].atoms[0].p, Vector { x: -5, y: 0 });
    assert_eq!(sys.atoms[0].atoms[1].p, Vector { x: 15, y: 0 });
}

#[test]
fn stopped_simulation_ignores_ticks_and_renders() {
    let mut sys = System::new();
    sys.init_engine(1000, 1000);
    sys.load_js_conf(vec![("red".to_string(), conf(2))]);
    sys.load_js_rules(vec![vec!["red".to_string(), "red".to_string(), "10".to_string()]]);
    let before = sys.atoms[0].atoms.clone();
    for _ in 0..5 {
        sys.compute_next_tick();
        sys.correct_point_position();
        let drew = sys.render();
        assert!(!drew);
    }
    assert_eq!(sys.get_crr_frame_idx(), 0);
    assert_eq!(sys.atoms[0].atoms, before);
}

#[test]
fn each_render_while_running_counts_one_frame() {
    let mut sys = running_system();
    assert_eq!(sys.get_crr_frame_idx(), 0);
    for expected in 1..=3 {
        let drew = sys.render();
        assert!(drew);
        assert_eq!(sys.get_crr_frame_idx(), expected);
    }
    sys.stop_render();
    sys.render();
    assert_eq!(sys.get_crr_frame_idx(), 3);
}

#[test]
fn boundary_pass_reflects_every_group() {
    let mut sys = running_system();
    let mut escaping = atom_at(10, 500);
    escaping.v = Vector { x: -3, y: 0 };
    sys.atoms = vec![group("a", vec![escaping])];
    sys.correct_point_position();
    // Bounds are [padding, dim - padding] = [10, 990]: at the left wall and
    // still heading out, so the velocity flips.
    assert_eq!(sys.atoms[0].atoms[0].v, Vector { x: 3, y: 0 });
}

#[test]
fn refresh_respawns_everything_inside_bounds() {
    let mut sys = running_system();
    sys.atoms = vec![group("a", vec![atom_at(-500, 2000), atom_at(5000, -1)])];
    sys.atoms[0].atoms[0].v = Vector { x: 9, y: 9 };
    sys.refresh();
    assert_eq!(sys.atoms[0].atoms.len(), 2);
    for a in &sys.atoms[0].atoms {
        assert!(10 <= a.p.x && a.p.x <= 990);
        assert!(10 <= a.p.y && a.p.y <= 990);
        assert_eq!(a.v, Vector { x: 0, y: 0 });
    }
}

#[test]
fn set_tick_changes_only_the_rate() {
    let mut sys = running_system();
    sys.set_tick(120);
    assert_eq!(sys.compute_tick, 120);
    assert_eq!(sys.rendering, true);
}
