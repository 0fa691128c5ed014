use force_field::body_set::{BodyHandle, BodySet};
use force_field::input::Input;
use force_field::math::{isqrt, sin_fixed};
use force_field::rotation::{rotate_vec, rotation_from_angles, Mat3};
use force_field::vec3::{Force, Vec3};

#[test]
fn isqrt_concrete_values() {
    assert_eq!(isqrt(0), 0);
    assert_eq!(isqrt(1), 1);
    assert_eq!(isqrt(2), 1);
    assert_eq!(isqrt(3), 1);
    assert_eq!(isqrt(4), 2);
    assert_eq!(isqrt(999_999), 999);
    assert_eq!(isqrt(1_000_000), 1_000);
    assert_eq!(isqrt(1_000_000_000_000), 1_000_000);
    assert_eq!(isqrt(u64::MAX as u128), 4_294_967_295);
}

#[test]
fn isqrt_is_the_rounded_down_root() {
    for n in 0u128..5_000 {
        let r = isqrt(n);
        assert!(r * r <= n);
        assert!(n < (r + 1) * (r + 1));
    }
}

#[test]
fn sine_anchor_points() {
    // The approximation is exact at the ends and the extremes of each
    // half-wave: a full scaled unit at the quarter turns.
    assert_eq!(sin_fixed(0), 0);
    assert_eq!(sin_fixed(250_000), 1_000_000);
    assert_eq!(sin_fixed(500_000), 0);
    assert_eq!(sin_fixed(750_000), -1_000_000);
    assert_eq!(sin_fixed(125_000), 705_882);
}

#[test]
fn sine_close_to_the_real_sine() {
    for i in 0..200u64 {
        let x = i * 5_000;
        let s = sin_fixed(x) as f64 / 1e6;
        let real = (x as f64 / 1e6 * std::f64::consts::TAU).sin();
        assert!((s - real).abs() < 2e-3, "phase {x}: {s} vs {real}");
    }
}

#[test]
fn sine_is_periodic_and_bounded() {
    for i in 0..100u64 {
        let x = i * 37_123;
        assert_eq!(sin_fixed(x), sin_fixed(x + 1_000_000));
        let s = sin_fixed(x);
        assert!((-1_000_000..=1_000_000).contains(&s));
    }
}

fn mat_rows(m: &Mat3) -> [[i64; 3]; 3] {
    [[m.m00, m.m01, m.m02], [m.m10, m.m11, m.m12], [m.m20, m.m21, m.m22]]
}

#[test]
fn quarter_turn_about_z_is_exact() {
    // A quarter turn about the z axis: the sine and cosine are exact
    // there, so the whole matrix is.
    let m = rotation_from_angles(&Vec3::new(0, 0, 250_000));
    assert_eq!(
        mat_rows(&m),
        [[0, -1_000_000, 0], [1_000_000, 0, 0], [0, 0, 1_000_000]]
    );
}

#[test]
fn zero_angles_give_the_identity() {
    let m = rotation_from_angles(&Vec3::new(0, 0, 0));
    assert_eq!(
        mat_rows(&m),
        [[1_000_000, 0, 0], [0, 1_000_000, 0], [0, 0, 1_000_000]]
    );
}

#[test]
fn four_quarter_turns_close_the_orbit() {
    let m = rotation_from_angles(&Vec3::new(0, 0, 250_000));
    let start = Vec3::new(5_000_000, 0, 0);
    let mut v = start;
    let mut seen = Vec::new();
    for _ in 0..4 {
        v = rotate_vec(&m, &v);
        seen.push((v.x, v.y, v.z));
    }
    assert_eq!(seen[0], (0, 5_000_000, 0));
    assert_eq!(seen[1], (-5_000_000, 0, 0));
    assert_eq!(seen[2], (0, -5_000_000, 0));
    assert_eq!(seen[3], (5_000_000, 0, 0));
}

#[test]
fn iterated_rotation_tracks_the_real_orbit() {
    // A twentieth of a turn about z, applied twenty times, comes back to
    // the start within a small fixed-point tolerance.
    let m = rotation_from_angles(&Vec3::new(0, 0, 50_000));
    assert_eq!(
        mat_rows(&m),
        [[950_495, -310_344, 0], [310_344, 950_495, 0], [0, 0, 1_000_000]]
    );
    let start = Vec3::new(5_000_000, 0, 0);
    let mut v = start;
    for _ in 0..20 {
        v = rotate_vec(&m, &v);
    }
    // The construction is deterministic, so the drift of the
    // approximation after a full revolution is an exact value.
    assert_eq!((v.x, v.y, v.z), (4_985_651, 143_202, 0));
    // And it stays within a few percent of the true closed orbit.
    assert!((v.x - start.x).abs() < 200_000);
    assert!((v.y - start.y).abs() < 200_000);
}

#[test]
fn body_set_insert_remove_and_lookup() {
    let mut bodies = BodySet::new();
    assert_eq!(bodies.len(), 0);
    let a = bodies.insert(Vec3::new(1, 2, 3));
    let b = bodies.insert(Vec3::new(4, 5, 6));
    assert_eq!(bodies.len(), 2);
    assert!(bodies.valid(a) && bodies.valid(b));
    let p = bodies.position(b);
    assert_eq!((p.x, p.y, p.z), (4, 5, 6));
    bodies.remove(a);
    assert!(!bodies.valid(a));
    assert!(bodies.valid(b));
    assert_eq!(bodies.len(), 2);
    assert!(!bodies.valid(BodyHandle(9)));
}

#[test]
fn body_set_accumulates_forces() {
    let mut bodies = BodySet::new();
    let a = bodies.insert(Vec3::new(0, 0, 0));
    bodies.apply_force(a, &Force { x: 10, y: -20, z: 30 });
    bodies.apply_force(a, &Force { x: 1, y: 2, z: 3 });
    let f = bodies.force_of(a);
    assert_eq!((f.x, f.y, f.z), (11, -18, 33));
    let zero = Force::zero();
    assert_eq!((zero.x, zero.y, zero.z), (0, 0, 0));
}

#[test]
fn input_starts_idle() {
    let inp = Input::new();
    assert!(!inp.forward);
    assert!(!inp.backward);
    assert!(!inp.left);
    assert!(!inp.right);
    assert!(!inp.up);
    assert!(!inp.down);
    assert!(!inp.rotate);
}
