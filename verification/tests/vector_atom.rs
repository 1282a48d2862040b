//! Tests of the numeric primitives and single-atom operations.

use atom_sim::atom::{Atom, AtomRule};
use atom_sim::utils::str_to_num;
use atom_sim::vector::Vector;
use atom_sim::LIM;

fn atom_at(x: i64, y: i64) -> Atom {
    Atom { p: Vector { x, y }, v: Vector { x: 0, y: 0 } }
}

#[test]
fn length_is_floor_of_norm() {
    let v = Vector { x: 3, y: 4 };
    assert_eq!(v.length(), 5);
    let w = Vector { x: 1, y: 1 };
    assert_eq!(w.length(), 1);
    let z = Vector { x: 0, y: 0 };
    assert_eq!(z.length(), 0);
}

#[test]
fn distance_returns_difference_vector() {
    let a = Vector { x: 0, y: 0 };
    let b = Vector { x: 10, y: 0 };
    let (d, diff) = a.distance(&b);
    assert_eq!(d, 10);
    assert_eq!(diff.x, -10);
    assert_eq!(diff.y, 0);
}

#[test]
fn combine_avg_truncates_toward_zero() {
    let mut v = Vector { x: -3, y: 3 };
    v.combine_avg(Vector { x: 0, y: 0 });
    assert_eq!(v.x, -1);
    assert_eq!(v.y, 1);
}

#[test]
fn plus_and_plus_amp() {
    let mut v = Vector { x: 5, y: -5 };
    v.plus(&Vector { x: 2, y: 3 });
    assert_eq!(v.x, 7);
    assert_eq!(v.y, -2);
    v.plus_amp(&Vector { x: 1, y: -1 }, 10);
    assert_eq!(v.x, 17);
    assert_eq!(v.y, -12);
}

#[test]
fn plus_clamps_into_model_range() {
    let mut v = Vector { x: LIM, y: -LIM };
    v.plus(&Vector { x: LIM, y: -LIM });
    assert_eq!(v.x, LIM);
    assert_eq!(v.y, -LIM);
}

#[test]
fn force_law_exact_values() {
    // One field atom at (10, 0), weight 10, radius 80: distance 10,
    // force = (A - B) * (10 / 10) = (-10, 0), velocity = ((0,0) + force) / 2,
    // position = previous + velocity.
    let mut a = atom_at(0, 0);
    let others = vec![atom_at(10, 0)];
    a.compute(&others, 10, 80);
    assert_eq!(a.v.x, -5);
    assert_eq!(a.v.y, 0);
    assert_eq!(a.p.x, -5);
    assert_eq!(a.p.y, 0);
}

#[test]
fn coincident_and_distant_atoms_exert_nothing() {
    let mut plain = atom_at(0, 0);
    let mut crowded = atom_at(0, 0);
    let near = vec![atom_at(10, 0)];
    // The same field plus one atom exactly coincident with the subject and
    // one beyond the radius: the outcome must be identical.
    let with_excluded = vec![atom_at(10, 0), atom_at(0, 0), atom_at(200, 0)];
    plain.compute(&near, 10, 80);
    crowded.compute(&with_excluded, 10, 80);
    assert_eq!(plain, crowded);
}

#[test]
fn atom_exactly_at_radius_exerts_nothing() {
    let mut a = atom_at(0, 0);
    // Distance exactly equal to the radius: no contribution at the cutoff.
    a.compute(&vec![atom_at(80, 0)], 10, 80);
    assert_eq!(a.v.x, 0);
    assert_eq!(a.p.x, 0);
}

#[test]
fn only_coincident_field_leaves_atom_still() {
    let mut a = atom_at(7, 9);
    a.compute(&vec![atom_at(7, 9)], 50, 80);
    assert_eq!(a.p, Vector { x: 7, y: 9 });
    assert_eq!(a.v, Vector { x: 0, y: 0 });
}

#[test]
fn reflect_left_wall_outward_velocity_flips() {
    let mut a = Atom { p: Vector { x: 5, y: 50 }, v: Vector { x: -1, y: 0 } };
    a.correct_pos(5, 95, 5, 95);
    assert_eq!(a.v.x, 1);
    assert_eq!(a.p.x, 5);
}

#[test]
fn reflect_left_wall_inward_velocity_kept() {
    let mut a = Atom { p: Vector { x: 5, y: 50 }, v: Vector { x: 1, y: 0 } };
    a.correct_pos(5, 95, 5, 95);
    assert_eq!(a.v.x, 1);
}

#[test]
fn reflect_right_wall_outward_velocity_flips() {
    let mut a = Atom { p: Vector { x: 95, y: 50 }, v: Vector { x: 1, y: 0 } };
    a.correct_pos(5, 95, 5, 95);
    assert_eq!(a.v.x, -1);
}

#[test]
fn reflect_right_wall_inward_velocity_kept() {
    let mut a = Atom { p: Vector { x: 95, y: 50 }, v: Vector { x: -1, y: 0 } };
    a.correct_pos(5, 95, 5, 95);
    assert_eq!(a.v.x, -1);
}

#[test]
fn reflect_top_wall_outward_velocity_flips() {
    let mut a = Atom { p: Vector { x: 50, y: 5 }, v: Vector { x: 0, y: -3 } };
    a.correct_pos(5, 95, 5, 95);
    assert_eq!(a.v.y, 3);
}

#[test]
fn reflect_top_wall_inward_velocity_kept() {
    let mut a = Atom { p: Vector { x: 50, y: 5 }, v: Vector { x: 0, y: 3 } };
    a.correct_pos(5, 95, 5, 95);
    assert_eq!(a.v.y, 3);
}

#[test]
fn reflect_bottom_wall_outward_velocity_flips() {
    let mut a = Atom { p: Vector { x: 50, y: 95 }, v: Vector { x: 0, y: 3 } };
    a.correct_pos(5, 95, 5, 95);
    assert_eq!(a.v.y, -3);
}

#[test]
fn reflect_bottom_wall_inward_velocity_kept() {
    let mut a = Atom { p: Vector { x: 50, y: 95 }, v: Vector { x: 0, y: -3 } };
    a.correct_pos(5, 95, 5, 95);
    assert_eq!(a.v.y, -3);
}

#[test]
fn reflect_past_wall_still_flips() {
    let mut a = Atom { p: Vector { x: -20, y: 50 }, v: Vector { x: -4, y: 0 } };
    a.correct_pos(5, 95, 5, 95);
    assert_eq!(a.v.x, 4);
}

#[test]
fn reflect_both_axes_independently() {
    let mut a = Atom { p: Vector { x: 5, y: 95 }, v: Vector { x: -2, y: 7 } };
    a.correct_pos(5, 95, 5, 95);
    assert_eq!(a.v.x, 2);
    assert_eq!(a.v.y, -7);
}

#[test]
fn born_spawns_inside_padded_box_at_rest() {
    for _ in 0..32 {
        let a = Atom::born(100, 60, 10);
        assert!(10 <= a.p.x && a.p.x <= 90);
        assert!(10 <= a.p.y && a.p.y <= 50);
        assert_eq!(a.v.x, 0);
        assert_eq!(a.v.y, 0);
    }
}

#[test]
fn born_with_empty_box_sits_at_padding() {
    let a = Atom::born(5, 100, 10);
    assert_eq!(a.p.x, 10);
    assert!(10 <= a.p.y && a.p.y <= 90);
}

#[test]
fn reborn_resets_position_and_velocity() {
    let mut a = Atom { p: Vector { x: 500, y: 500 }, v: Vector { x: 9, y: -9 } };
    a.reborn(100, 100, 10);
    assert!(10 <= a.p.x && a.p.x <= 90);
    assert!(10 <= a.p.y && a.p.y <= 90);
    assert_eq!(a.v.x, 0);
    assert_eq!(a.v.y, 0);
}

#[test]
fn str_to_num_parses_decimal() {
    assert_eq!(str_to_num("42"), 42);
    assert_eq!(str_to_num("-7"), -7);
    assert_eq!(str_to_num("+5"), 5);
    assert_eq!(str_to_num("0"), 0);
}

#[test]
fn str_to_num_defaults_to_zero_on_malformed_text() {
    assert_eq!(str_to_num(""), 0);
    assert_eq!(str_to_num("abc"), 0);
    assert_eq!(str_to_num("1.5"), 0);
    assert_eq!(str_to_num("-"), 0);
    assert_eq!(str_to_num("+"), 0);
    assert_eq!(str_to_num("12x"), 0);
    assert_eq!(str_to_num(" 3"), 0);
}

#[test]
fn str_to_num_accepts_leading_zeros() {
    assert_eq!(str_to_num("007"), 7);
    assert_eq!(str_to_num("-0"), 0);
}

#[test]
fn str_to_num_clamps_huge_values() {
    assert_eq!(str_to_num("99999999999999999999"), LIM);
    assert_eq!(str_to_num("-99999999999999999999"), -LIM);
}

#[test]
fn vec_into_builds_a_rule() {
    let r = AtomRule::vec_into(vec!["red".to_string(), "blue".to_string(), "12".to_string()]);
    assert_eq!(r.src, "red");
    assert_eq!(r.target, "blue");
    assert_eq!(r.w, 12);
}

#[test]
fn vec_into_defaults_bad_weight_to_zero() {
    let r = AtomRule::vec_into(vec!["a".to_string(), "b".to_string(), "fast".to_string()]);
    assert_eq!(r.w, 0);
}
