use force_field::body_set::{BodyHandle, BodySet};
use force_field::vec3::Vec3;
use force_field::world_force::{Attractor, Implosion, WorldForce};

fn origin() -> Vec3 {
    Vec3::new(0, 0, 0)
}

#[test]
fn implosion_concrete_scenario() {
    // Center (0,0,0), k = 0.2, body at (5,0,0): expected force (-1, 0, 0).
    let mut bodies = BodySet::new();
    let h = bodies.insert(Vec3::new(5_000_000, 0, 0));
    let mut g = Implosion::new(vec![h], origin(), 200_000);
    let keep = g.apply(&mut bodies);
    assert!(keep);
    let f = bodies.force_of(h);
    assert_eq!(f.x, -1_000_000_000_000);
    assert_eq!(f.y, 0);
    assert_eq!(f.z, 0);
}

#[test]
fn attractor_concrete_scenario() {
    // Center (0,0,0), strength 1.0, body at (1,0,0): mag = 1.001 units,
    // expected force close to (-0.998, 0, 0).
    let mut bodies = BodySet::new();
    let h = bodies.insert(Vec3::new(1_000_000, 0, 0));
    // A zero angle vector keeps the center fixed at the origin.
    let mut g = Attractor::new(vec![h], origin(), 1_000_000, origin());
    let keep = g.apply(&mut bodies);
    assert!(keep);
    let f = bodies.force_of(h);
    assert_eq!(f.x, -998_002_996_004);
    assert_eq!(f.y, 0);
    assert_eq!(f.z, 0);
    // Within 1e-3 of the real-valued -0.998 of the rule.
    assert!((f.x as f64 / 1e12 + 0.998).abs() < 1e-3);
}

#[test]
fn skips_destroyed_body() {
    // One valid and one destroyed reference: the force lands only on the
    // valid body and the step finishes without an error.
    let mut bodies = BodySet::new();
    let alive = bodies.insert(Vec3::new(5_000_000, 0, 0));
    let dead = bodies.insert(Vec3::new(7_000_000, 0, 0));
    bodies.remove(dead);
    let mut g = Implosion::new(vec![alive, dead], origin(), 200_000);
    let keep = g.apply(&mut bodies);
    assert!(keep);
    let f = bodies.force_of(alive);
    assert_eq!((f.x, f.y, f.z), (-1_000_000_000_000, 0, 0));
    assert!(!bodies.valid(dead));
}

#[test]
fn out_of_range_reference_is_skipped() {
    let mut bodies = BodySet::new();
    let alive = bodies.insert(Vec3::new(5_000_000, 0, 0));
    let mut g = Implosion::new(vec![BodyHandle(17), alive], origin(), 200_000);
    assert!(g.apply(&mut bodies));
    let f = bodies.force_of(alive);
    assert_eq!(f.x, -1_000_000_000_000);
}

#[test]
fn duplicate_reference_receives_force_twice() {
    let mut bodies = BodySet::new();
    let h = bodies.insert(Vec3::new(5_000_000, 0, 0));
    let mut g = Implosion::new(vec![h], origin(), 200_000);
    g.add_body_part(h);
    assert!(g.apply(&mut bodies));
    let f = bodies.force_of(h);
    assert_eq!(f.x, -2_000_000_000_000);
}

#[test]
fn implosion_is_linear_in_displacement() {
    // force(2 * p) == 2 * force(p) with the center at the origin.
    let mut bodies = BodySet::new();
    let p = bodies.insert(Vec3::new(3_000_000, -2_000_000, 700_000));
    let p2 = bodies.insert(Vec3::new(6_000_000, -4_000_000, 1_400_000));
    let mut g = Implosion::new(vec![p, p2], origin(), 300_000);
    assert!(g.apply(&mut bodies));
    let f = bodies.force_of(p);
    let f2 = bodies.force_of(p2);
    assert_eq!((f2.x, f2.y, f2.z), (2 * f.x, 2 * f.y, 2 * f.z));
}

#[test]
fn attractor_force_points_toward_center() {
    let mut bodies = BodySet::new();
    let h = bodies.insert(Vec3::new(2_000_000, -1_000_000, 500_000));
    let center = Vec3::new(1_000_000, 1_000_000, 1_000_000);
    let mut g = Attractor::new(vec![h], center, 3_000_000, origin());
    assert!(g.apply(&mut bodies));
    let f = bodies.force_of(h);
    assert_eq!(f.x, -570_930_536_175);
    assert_eq!(f.y, 1_141_861_072_351);
    assert_eq!(f.z, 285_465_268_087);
    // Signs oppose the displacement from the center on each coordinate.
    assert!(f.x < 0 && f.y > 0 && f.z > 0);
}

#[test]
fn disabled_field_pushes_no_force() {
    // The generator stays registered and advances its timer while the
    // amplitude is zero, pushing no force at all.
    let mut bodies = BodySet::new();
    let h = bodies.insert(Vec3::new(4_000_000, 2_000_000, -3_000_000));
    let mut g = WorldForce::new(vec![h]);
    for _ in 0..5 {
        assert!(g.apply(&mut bodies));
    }
    let f = bodies.force_of(h);
    assert_eq!((f.x, f.y, f.z), (0, 0, 0));
}

#[test]
fn oscillating_field_concrete_values() {
    let mut bodies = BodySet::new();
    let at_origin = bodies.insert(origin());
    let mut g = WorldForce::with_field(vec![at_origin], 1_000_000, 10_000);
    assert!(g.apply(&mut bodies));
    let f = bodies.force_of(at_origin);
    // All three pairwise radii are the 0.1 floor, so the coordinates agree.
    assert_eq!((f.x, f.y, f.z), (587_155_000_000, 587_155_000_000, 587_155_000_000));
}

#[test]
fn oscillating_field_bounded_by_amplitude() {
    let amplitude: i128 = 500_000;
    let bound = amplitude * 1_000_000;
    let mut bodies = BodySet::new();
    let mut handles = Vec::new();
    for i in 0..20i64 {
        handles.push(bodies.insert(Vec3::new(i * 500_000, i * i * 1_000, -i * 250_000)));
    }
    let mut g = WorldForce::with_field(handles.clone(), amplitude as u64, 40_000);
    for _ in 0..50 {
        assert!(g.apply(&mut bodies));
    }
    for h in handles {
        let f = bodies.force_of(h);
        // 50 steps of at most `amplitude` per coordinate each.
        assert!(f.x.abs() <= 50 * bound);
        assert!(f.y.abs() <= 50 * bound);
        assert!(f.z.abs() <= 50 * bound);
    }
}

#[test]
fn oscillating_field_returns_after_one_period() {
    // With an increment of a tenth of a turn, ten steps close one period:
    // the force of step 11 equals the force of step 1.
    let pos = Vec3::new(1_000_000, 2_000_000, 3_000_000);
    let mut first = BodySet::new();
    let h1 = first.insert(pos);
    let mut g1 = WorldForce::with_field(vec![h1], 700_000, 100_000);
    assert!(g1.apply(&mut first));
    let f1 = first.force_of(h1);

    let mut second = BodySet::new();
    let h2 = second.insert(pos);
    let mut g2 = WorldForce::with_field(vec![h2], 700_000, 100_000);
    for _ in 0..10 {
        assert!(g2.apply(&mut second));
    }
    second.clear_forces();
    assert!(g2.apply(&mut second));
    let f11 = second.force_of(h2);
    assert_eq!((f1.x, f1.y, f1.z), (f11.x, f11.y, f11.z));
}

#[test]
fn oscillating_field_exact_components() {
    let mut bodies = BodySet::new();
    let h = bodies.insert(Vec3::new(1_000_000, 2_000_000, 3_000_000));
    let mut g = WorldForce::with_field(vec![h], 500_000, 40_000);
    // First step runs at phase zero; step again after clearing to see
    // the advanced phase.
    assert!(g.apply(&mut bodies));
    bodies.clear_forces();
    assert!(g.apply(&mut bodies));
    let f = bodies.force_of(h);
    assert_eq!(f.x, 350_570_500_000);
    assert_eq!(f.y, 472_966_500_000);
    assert_eq!(f.z, -499_802_000_000);
}

#[test]
fn generators_accumulate_in_registration_order() {
    // Several generators over the same body set, as the sandbox
    // registers them: their forces add up.
    let mut bodies = BodySet::new();
    let h = bodies.insert(Vec3::new(5_000_000, 0, 0));
    let mut field = WorldForce::new(vec![h]);
    let mut implode = Implosion::new(vec![h], origin(), 200_000);
    let mut planet = Implosion::new(vec![h], Vec3::new(20_000_000, 20_000_000, 20_000_000), 100_000);
    let mut puller = Attractor::new(vec![h], origin(), 1_000_000, origin());
    assert!(field.apply(&mut bodies));
    assert!(implode.apply(&mut bodies));
    assert!(planet.apply(&mut bodies));
    assert!(puller.apply(&mut bodies));
    let f = bodies.force_of(h);
    // field: zero amplitude contributes nothing. implode: -1.0 on x.
    // planet: -0.1 times the displacement from (20,20,20). attractor at
    // the origin over a body 5 units out: -0.19992 on x.
    let planet_x = -(100_000i128 * -15_000_000);
    let planet_yz = -(100_000i128 * -20_000_000);
    let attractor_x = -199_920_023_993i128;
    assert_eq!(f.x, -1_000_000_000_000 + planet_x + attractor_x);
    assert_eq!(f.x, 300_079_976_007);
    assert_eq!(f.y, planet_yz);
    assert_eq!(f.z, planet_yz);
}

#[test]
fn clear_forces_resets_accumulators_only() {
    let mut bodies = BodySet::new();
    let h = bodies.insert(Vec3::new(5_000_000, 0, 0));
    let mut g = Implosion::new(vec![h], origin(), 200_000);
    assert!(g.apply(&mut bodies));
    bodies.clear_forces();
    let f = bodies.force_of(h);
    assert_eq!((f.x, f.y, f.z), (0, 0, 0));
    let p = bodies.position(h);
    assert_eq!((p.x, p.y, p.z), (5_000_000, 0, 0));
}

#[test]
fn attractor_center_orbits_each_step() {
    // A quarter turn about z per step, center starting at (5,0,0), the
    // body at the origin: the pull sweeps through the axes as the
    // center orbits, rotating before the force is applied.
    let mut bodies = BodySet::new();
    let h = bodies.insert(origin());
    let angles = Vec3::new(0, 0, 250_000);
    let center = Vec3::new(5_000_000, 0, 0);
    let mut g = Attractor::new(vec![h], center, 1_000_000, angles);
    let pull = 199_920_023_993i128;

    assert!(g.apply(&mut bodies));
    let f = bodies.force_of(h);
    // The center moved to (0,5,0) first, so the force points up the y axis.
    assert_eq!((f.x, f.y, f.z), (0, pull, 0));

    bodies.clear_forces();
    assert!(g.apply(&mut bodies));
    let f = bodies.force_of(h);
    // Next step the center sits at (-5,0,0).
    assert_eq!((f.x, f.y, f.z), (-pull, 0, 0));

    bodies.clear_forces();
    assert!(g.apply(&mut bodies));
    let f = bodies.force_of(h);
    assert_eq!((f.x, f.y, f.z), (0, -pull, 0));
}
