use vstd::prelude::*;
use vstd::arithmetic::div_mod::{
    lemma_div_is_ordered, lemma_div_is_ordered_by_denominator, lemma_div_pos_is_pos,
};
use vstd::arithmetic::mul::{lemma_mul_inequality, lemma_mul_upper_bound};
use crate::math::{
    isqrt, lemma_mul_abs_bound, lemma_sin_turns_bounds, lemma_sin_turns_periodic,
    lemma_sqrt_floor, sin_fixed, sin_turns, sqrt_floor, GAIN_LIMIT, MAG_FLOOR, POS_LIMIT,
    RADIUS_FLOOR, SCALE,
};
use crate::vec3::{
    force_in_limit, force_val, triple_bounded, triple_scale, vec3_in_bounds, Force, Vec3,
};

verus! {

// ------------------------------------------------------------------
// Implosion: a linear (Hookean) spring pulling every body toward a
// fixed center, with force proportional to the displacement.
// ------------------------------------------------------------------

/// Force of the implosion rule on a body whose center of mass is `pos`:
/// the displacement from `center`, scaled by `-k` (`k` in sub-units),
/// in force sub-units.
pub open spec fn implosion_rule(pos: Vec3, center: Vec3, k: u64) -> (int, int, int) {
    (
        -((k as int) * (pos.x - center.x)),
        -((k as int) * (pos.y - center.y)),
        -((k as int) * (pos.z - center.z)),
    )
}

/// The implosion rule stays within the shared force bound.
pub proof fn lemma_implosion_in_limit(pos: Vec3, center: Vec3, k: u64)
    requires
        vec3_in_bounds(pos),
        vec3_in_bounds(center),
        k <= GAIN_LIMIT,
    ensures
        force_in_limit(implosion_rule(pos, center, k)),
{
    lemma_mul_abs_bound(k as int, GAIN_LIMIT as int, pos.x - center.x, 2 * POS_LIMIT as int);
    lemma_mul_abs_bound(k as int, GAIN_LIMIT as int, pos.y - center.y, 2 * POS_LIMIT as int);
    lemma_mul_abs_bound(k as int, GAIN_LIMIT as int, pos.z - center.z, 2 * POS_LIMIT as int);
}

/// The implosion force at `pos` toward `center` with spring gain `k`.
pub fn implosion_force(pos: &Vec3, center: &Vec3, k: u64) -> (f: Force)
    requires
        vec3_in_bounds(*pos),
        vec3_in_bounds(*center),
        k <= GAIN_LIMIT,
    ensures
        force_val(f) == implosion_rule(*pos, *center, k),
        force_in_limit(force_val(f)),
{
    proof {
        lemma_implosion_in_limit(*pos, *center, k);
    }
    let dx: i64 = pos.x - center.x;
    let dy: i64 = pos.y - center.y;
    let dz: i64 = pos.z - center.z;
    Force {
        x: -((k as i128) * (dx as i128)),
        y: -((k as i128) * (dy as i128)),
        z: -((k as i128) * (dz as i128)),
    }
}

/// With the center at the origin, the implosion force is exactly linear
/// in the displacement: doubling the position doubles the force.
pub proof fn lemma_implosion_linear(p: Vec3, p2: Vec3, center: Vec3, k: u64)
    requires
        center.x == 0 && center.y == 0 && center.z == 0,
        p2.x == 2 * p.x && p2.y == 2 * p.y && p2.z == 2 * p.z,
    ensures
        implosion_rule(p2, center, k) == triple_scale(2, implosion_rule(p, center, k)),
{
    assert((k as int) * (2 * p.x) == 2 * ((k as int) * p.x)) by (nonlinear_arith);
    assert((k as int) * (2 * p.y) == 2 * ((k as int) * p.y)) by (nonlinear_arith);
    assert((k as int) * (2 * p.z) == 2 * ((k as int) * p.z)) by (nonlinear_arith);
}

// ------------------------------------------------------------------
// Attractor: a true inverse-square pull toward a center, with an
// additive epsilon floor on the distance against the singularity.
// ------------------------------------------------------------------

/// Floored distance from `center` to `pos`: the `MAG_FLOOR` epsilon plus
/// the integer square root of the squared displacement.
pub open spec fn attractor_mag(pos: Vec3, center: Vec3) -> int {
    let dx = pos.x - center.x;
    let dy = pos.y - center.y;
    let dz = pos.z - center.z;
    MAG_FLOOR + sqrt_floor(dx * dx + dy * dy + dz * dz)
}

/// One coordinate of the inverse-square force: the displacement
/// coordinate `d` scaled by `-strength / mag²`, carried out on
/// magnitudes (so rounding is toward zero) in force sub-units.
pub open spec fn attractor_component(d: int, strength: u64, mag: int) -> int {
    if d >= 0 {
        -((strength as int) * d * 1_000_000_000_000 / (mag * mag))
    } else {
        (strength as int) * (-d) * 1_000_000_000_000 / (mag * mag)
    }
}

/// Force of the inverse-square attractor on a body at `pos`.
pub open spec fn attractor_rule(pos: Vec3, center: Vec3, strength: u64) -> (int, int, int) {
    let m = attractor_mag(pos, center);
    (
        attractor_component(pos.x - center.x, strength, m),
        attractor_component(pos.y - center.y, strength, m),
        attractor_component(pos.z - center.z, strength, m),
    )
}

/// The floored distance is at least the epsilon floor and at most the
/// floor plus the sum of the displacement magnitudes.
pub proof fn lemma_attractor_mag_bounds(pos: Vec3, center: Vec3)
    requires
        vec3_in_bounds(pos),
        vec3_in_bounds(center),
    ensures
        MAG_FLOOR <= attractor_mag(pos, center) <= MAG_FLOOR + 4_000_000_000_000,
{
    let dx = pos.x - center.x;
    let dy = pos.y - center.y;
    let dz = pos.z - center.z;
    let sum = dx * dx + dy * dy + dz * dz;
    assert(0 <= dx * dx <= 4_000_000_000_000_000_000_000_000) by (nonlinear_arith)
        requires
            -2_000_000_000_000 <= dx <= 2_000_000_000_000,
    ;
    assert(0 <= dy * dy <= 4_000_000_000_000_000_000_000_000) by (nonlinear_arith)
        requires
            -2_000_000_000_000 <= dy <= 2_000_000_000_000,
    ;
    assert(0 <= dz * dz <= 4_000_000_000_000_000_000_000_000) by (nonlinear_arith)
        requires
            -2_000_000_000_000 <= dz <= 2_000_000_000_000,
    ;
    lemma_sqrt_floor(sum);
    let r = sqrt_floor(sum);
    assert(r <= 4_000_000_000_000) by (nonlinear_arith)
        requires
            r * r <= 12_000_000_000_000_000_000_000_000,
            r >= 0,
    ;
}

/// The attractor rule stays within the shared force bound.
pub proof fn lemma_attractor_in_limit(pos: Vec3, center: Vec3, strength: u64)
    requires
        vec3_in_bounds(pos),
        vec3_in_bounds(center),
        strength <= GAIN_LIMIT,
    ensures
        force_in_limit(attractor_rule(pos, center, strength)),
{
    lemma_attractor_mag_bounds(pos, center);
    let m = attractor_mag(pos, center);
    assert(m * m >= 1_000_000) by (nonlinear_arith)
        requires
            m >= 1_000,
    ;
    lemma_attractor_component_bound(pos.x - center.x, strength, m);
    lemma_attractor_component_bound(pos.y - center.y, strength, m);
    lemma_attractor_component_bound(pos.z - center.z, strength, m);
}

/// One attractor coordinate is within the shared force bound, and its
/// sign is opposite to the displacement coordinate's.
pub proof fn lemma_attractor_component_bound(d: int, strength: u64, mag: int)
    requires
        -(2 * POS_LIMIT as int) <= d <= 2 * POS_LIMIT as int,
        strength <= GAIN_LIMIT,
        mag >= MAG_FLOOR,
    ensures
        -2_000_000_000_000_000_000_000_000_000_000 <= attractor_component(d, strength, mag)
            <= 2_000_000_000_000_000_000_000_000_000_000,
        d >= 0 ==> attractor_component(d, strength, mag) <= 0,
        d <= 0 ==> attractor_component(d, strength, mag) >= 0,
{
    assert(mag * mag >= 1_000_000) by (nonlinear_arith)
        requires
            mag >= 1_000,
    ;
    if d >= 0 {
        lemma_attractor_quotient_bound(d, strength, mag);
    } else {
        lemma_attractor_quotient_bound(-d, strength, mag);
    }
}

/// The magnitude of one attractor coordinate, before its sign is put
/// back, lies within the shared force bound.
proof fn lemma_attractor_quotient_bound(a: int, strength: u64, mag: int)
    requires
        0 <= a <= 2 * POS_LIMIT as int,
        strength <= GAIN_LIMIT,
        mag >= MAG_FLOOR,
        mag * mag >= 1_000_000,
    ensures
        0 <= (strength as int) * a * 1_000_000_000_000 / (mag * mag)
            <= 2_000_000_000_000_000_000_000_000_000_000,
{
    lemma_mul_upper_bound(strength as int, GAIN_LIMIT as int, a, 2 * POS_LIMIT as int);
    assert((strength as int) * a >= 0) by (nonlinear_arith)
        requires
            strength >= 0,
            a >= 0,
    ;
    lemma_mul_inequality(
        (strength as int) * a,
        2_000_000_000_000_000_000_000_000,
        1_000_000_000_000,
    );
    assert((strength as int) * a * 1_000_000_000_000 >= 0) by (nonlinear_arith)
        requires
            (strength as int) * a >= 0,
    ;
    lemma_div_pos_is_pos((strength as int) * a * 1_000_000_000_000, mag * mag);
    lemma_div_is_ordered_by_denominator(
        (strength as int) * a * 1_000_000_000_000,
        1_000_000,
        mag * mag,
    );
    lemma_div_is_ordered(
        (strength as int) * a * 1_000_000_000_000,
        2_000_000_000_000_000_000_000_000_000_000_000_000,
        1_000_000,
    );
}

/// The inverse-square force points from the body toward the center on
/// every coordinate, its distance never falls under the epsilon floor,
/// and its coordinates follow the displacement scaled by
/// `-strength / mag²` exactly.
pub proof fn lemma_attractor_toward_center(pos: Vec3, center: Vec3, strength: u64)
    requires
        vec3_in_bounds(pos),
        vec3_in_bounds(center),
        strength <= GAIN_LIMIT,
    ensures
        attractor_mag(pos, center) >= MAG_FLOOR,
        pos.x - center.x >= 0 ==> attractor_rule(pos, center, strength).0 <= 0,
        pos.x - center.x <= 0 ==> attractor_rule(pos, center, strength).0 >= 0,
        pos.y - center.y >= 0 ==> attractor_rule(pos, center, strength).1 <= 0,
        pos.y - center.y <= 0 ==> attractor_rule(pos, center, strength).1 >= 0,
        pos.z - center.z >= 0 ==> attractor_rule(pos, center, strength).2 <= 0,
        pos.z - center.z <= 0 ==> attractor_rule(pos, center, strength).2 >= 0,
{
    lemma_attractor_mag_bounds(pos, center);
    let m = attractor_mag(pos, center);
    lemma_attractor_component_bound(pos.x - center.x, strength, m);
    lemma_attractor_component_bound(pos.y - center.y, strength, m);
    lemma_attractor_component_bound(pos.z - center.z, strength, m);
}

/// One coordinate of the attractor force is the displacement magnitude
/// scaled by `strength / mag²` exactly, up to the one-unit rounding of
/// the integer division; the sign (toward the center) is put back by
/// `attractor_component` itself.
pub proof fn lemma_attractor_component_scaling(d: int, strength: u64, mag: int)
    requires
        0 <= d <= 2 * POS_LIMIT as int,
        strength <= GAIN_LIMIT,
        mag >= MAG_FLOOR,
    ensures
        mag * mag * (-attractor_component(d, strength, mag)) <= (strength as int) * d
            * 1_000_000_000_000,
        (strength as int) * d * 1_000_000_000_000 < mag * mag * (-attractor_component(
            d,
            strength,
            mag,
        )) + mag * mag,
{
    assert(mag * mag >= 1_000_000) by (nonlinear_arith)
        requires
            mag >= 1_000,
    ;
    lemma_attractor_quotient_bound(d, strength, mag);
    let num = (strength as int) * d * 1_000_000_000_000;
    vstd::arithmetic::div_mod::lemma_fundamental_div_mod(num, mag * mag);
    vstd::arithmetic::div_mod::lemma_mod_division_less_than_divisor(num, mag * mag);
}

/// The magnitude of a coordinate, as `u64`.
fn abs_coord(d: i64) -> (a: u64)
    requires
        -(2 * POS_LIMIT as int) <= d as int <= 2 * POS_LIMIT as int,
    ensures
        a as int == if d >= 0 { d as int } else { -(d as int) },
{
    if d >= 0 {
        d as u64
    } else {
        (-d) as u64
    }
}

/// One executable coordinate of the inverse-square force.
fn attractor_comp(d: i64, strength: u64, mag: u128) -> (c: i128)
    requires
        -(2 * POS_LIMIT as int) <= d as int <= 2 * POS_LIMIT as int,
        strength <= GAIN_LIMIT,
        MAG_FLOOR as int <= mag as int <= MAG_FLOOR + 4_000_000_000_000,
    ensures
        c as int == attractor_component(d as int, strength, mag as int),
{
    proof {
        assert(mag * mag >= 1_000_000) by (nonlinear_arith)
            requires
                mag >= 1_000,
        ;
        assert(mag * mag <= 17_000_000_000_000_000_000_000_000_000) by (nonlinear_arith)
            requires
                mag <= 4_100_000_000_000,
        ;
        lemma_attractor_component_bound(d as int, strength, mag as int);
    }
    let ad: u64 = abs_coord(d);
    proof {
        lemma_mul_upper_bound(strength as int, GAIN_LIMIT as int, ad as int, 2 * POS_LIMIT as int);
        lemma_mul_inequality(
            (strength as int) * (ad as int),
            2_000_000_000_000_000_000_000_000,
            1_000_000_000_000,
        );
        assert((strength as int) * (ad as int) >= 0) by (nonlinear_arith)
            requires
                strength >= 0,
                ad >= 0,
        ;
        if d >= 0 {
            lemma_attractor_quotient_bound(d as int, strength, mag as int);
        } else {
            lemma_attractor_quotient_bound(-(d as int), strength, mag as int);
        }
    }
    let num: u128 = (strength as u128) * (ad as u128) * 1_000_000_000_000;
    let m2: u128 = mag * mag;
    let q: u128 = num / m2;
    if d >= 0 {
        -(q as i128)
    } else {
        q as i128
    }
}

/// The inverse-square attractor force at `pos` toward `center`.
pub fn attractor_force(pos: &Vec3, center: &Vec3, strength: u64) -> (f: Force)
    requires
        vec3_in_bounds(*pos),
        vec3_in_bounds(*center),
        strength <= GAIN_LIMIT,
    ensures
        force_val(f) == attractor_rule(*pos, *center, strength),
        force_in_limit(force_val(f)),
{
    proof {
        lemma_attractor_in_limit(*pos, *center, strength);
    }
    let dx: i64 = pos.x - center.x;
    let dy: i64 = pos.y - center.y;
    let dz: i64 = pos.z - center.z;
    let ax: u64 = abs_coord(dx);
    let ay: u64 = abs_coord(dy);
    let az: u64 = abs_coord(dz);
    proof {
        assert((ax as int) * (ax as int) == (dx as int) * (dx as int)) by (nonlinear_arith)
            requires
                ax as int == dx as int || ax as int == -(dx as int),
        ;
        assert((ay as int) * (ay as int) == (dy as int) * (dy as int)) by (nonlinear_arith)
            requires
                ay as int == dy as int || ay as int == -(dy as int),
        ;
        assert((az as int) * (az as int) == (dz as int) * (dz as int)) by (nonlinear_arith)
            requires
                az as int == dz as int || az as int == -(dz as int),
        ;
        lemma_mul_upper_bound(ax as int, 2 * POS_LIMIT as int, ax as int, 2 * POS_LIMIT as int);
        lemma_mul_upper_bound(ay as int, 2 * POS_LIMIT as int, ay as int, 2 * POS_LIMIT as int);
        lemma_mul_upper_bound(az as int, 2 * POS_LIMIT as int, az as int, 2 * POS_LIMIT as int);
    }
    let sum: u128 = (ax as u128) * (ax as u128) + (ay as u128) * (ay as u128) + (az as u128) * (
    az as u128);
    let root: u128 = isqrt(sum);
    proof {
        assert(root <= 4_000_000_000_000) by (nonlinear_arith)
            requires
                (root as int) * (root as int) <= 12_000_000_000_000_000_000_000_000,
                root >= 0,
        ;
    }
    let mag: u128 = (MAG_FLOOR as u128) + root;
    Force {
        x: attractor_comp(dx, strength, mag),
        y: attractor_comp(dy, strength, mag),
        z: attractor_comp(dz, strength, mag),
    }
}

// ------------------------------------------------------------------
// Oscillating field: a spatially varying sine field driven by a phase
// timer, with pairwise radii floored against singularities.
// ------------------------------------------------------------------

/// Floored planar radius used by the oscillating field: the
/// `RADIUS_FLOOR` plus the integer square root of `a² + b²`.
pub open spec fn radius_pair(a: int, b: int) -> int {
    RADIUS_FLOOR + sqrt_floor(a * a + b * b)
}

/// Force of the oscillating field at `pos` for a phase (in sub-units of
/// a turn) and an amplitude (in sub-units): each coordinate is the sine
/// of the phase offset by one pairwise radius, scaled by the amplitude.
pub open spec fn oscillation_rule(pos: Vec3, phase: int, amplitude: u64) -> (int, int, int) {
    (
        (amplitude as int) * sin_turns(phase + radius_pair(pos.x as int, pos.y as int)),
        (amplitude as int) * sin_turns(phase + radius_pair(pos.x as int, pos.z as int)),
        (amplitude as int) * sin_turns(phase + radius_pair(pos.y as int, pos.z as int)),
    )
}

/// Every coordinate of the oscillating force lies within plus or minus
/// the amplitude (one unit of force per unit of amplitude), whatever the
/// position and phase.
pub proof fn lemma_oscillation_bounded(pos: Vec3, phase: int, amplitude: u64)
    ensures
        triple_bounded(oscillation_rule(pos, phase, amplitude), (amplitude as int) * 1_000_000),
{
    lemma_sin_turns_bounds(phase + radius_pair(pos.x as int, pos.y as int));
    lemma_sin_turns_bounds(phase + radius_pair(pos.x as int, pos.z as int));
    lemma_sin_turns_bounds(phase + radius_pair(pos.y as int, pos.z as int));
    lemma_mul_abs_bound(
        amplitude as int,
        amplitude as int,
        sin_turns(phase + radius_pair(pos.x as int, pos.y as int)),
        1_000_000,
    );
    lemma_mul_abs_bound(
        amplitude as int,
        amplitude as int,
        sin_turns(phase + radius_pair(pos.x as int, pos.z as int)),
        1_000_000,
    );
    lemma_mul_abs_bound(
        amplitude as int,
        amplitude as int,
        sin_turns(phase + radius_pair(pos.y as int, pos.z as int)),
        1_000_000,
    );
}

/// Advancing the phase by exactly one full turn returns the oscillating
/// force to its prior value, for a fixed position.
pub proof fn lemma_oscillation_periodic(pos: Vec3, phase: int, amplitude: u64)
    ensures
        oscillation_rule(pos, phase + 1_000_000, amplitude) == oscillation_rule(
            pos,
            phase,
            amplitude,
        ),
{
    lemma_sin_turns_periodic(phase + radius_pair(pos.x as int, pos.y as int));
    lemma_sin_turns_periodic(phase + radius_pair(pos.x as int, pos.z as int));
    lemma_sin_turns_periodic(phase + radius_pair(pos.y as int, pos.z as int));
}

/// The oscillation rule stays within the shared force bound.
pub proof fn lemma_oscillation_in_limit(pos: Vec3, phase: int, amplitude: u64)
    requires
        amplitude <= GAIN_LIMIT,
    ensures
        force_in_limit(oscillation_rule(pos, phase, amplitude)),
{
    lemma_oscillation_bounded(pos, phase, amplitude);
    lemma_mul_inequality(amplitude as int, GAIN_LIMIT as int, 1_000_000);
}

/// The floored planar radius, executable form.
fn radius_pair_exec(a: i64, b: i64) -> (r: u64)
    requires
        -POS_LIMIT <= a <= POS_LIMIT,
        -POS_LIMIT <= b <= POS_LIMIT,
    ensures
        r as int == radius_pair(a as int, b as int),
        r <= 2_000_000_000_000,
{
    let aa: u64 = abs_coord(a);
    let ab: u64 = abs_coord(b);
    proof {
        assert((aa as int) * (aa as int) == (a as int) * (a as int)) by (nonlinear_arith)
            requires
                aa as int == a as int || aa as int == -(a as int),
        ;
        assert((ab as int) * (ab as int) == (b as int) * (b as int)) by (nonlinear_arith)
            requires
                ab as int == b as int || ab as int == -(b as int),
        ;
        lemma_mul_upper_bound(aa as int, POS_LIMIT as int, aa as int, POS_LIMIT as int);
        lemma_mul_upper_bound(ab as int, POS_LIMIT as int, ab as int, POS_LIMIT as int);
    }
    let sum: u128 = (aa as u128) * (aa as u128) + (ab as u128) * (ab as u128);
    let root: u128 = isqrt(sum);
    proof {
        assert(root <= 1_900_000_000_000) by (nonlinear_arith)
            requires
                (root as int) * (root as int) <= 2_000_000_000_000_000_000_000_000,
                root >= 0,
        ;
    }
    RADIUS_FLOOR + (root as u64)
}

/// The oscillating-field force at `pos` for the given phase and
/// amplitude.
pub fn oscillation_force(pos: &Vec3, phase: u64, amplitude: u64) -> (f: Force)
    requires
        vec3_in_bounds(*pos),
        phase < SCALE,
        amplitude <= GAIN_LIMIT,
    ensures
        force_val(f) == oscillation_rule(*pos, phase as int, amplitude),
        force_in_limit(force_val(f)),
        triple_bounded(force_val(f), (amplitude as int) * 1_000_000),
{
    proof {
        lemma_oscillation_in_limit(*pos, phase as int, amplitude);
        lemma_oscillation_bounded(*pos, phase as int, amplitude);
    }
    let rxy: u64 = radius_pair_exec(pos.x, pos.y);
    let rxz: u64 = radius_pair_exec(pos.x, pos.z);
    let ryz: u64 = radius_pair_exec(pos.y, pos.z);
    let sx: i64 = sin_fixed(phase + rxy);
    let sy: i64 = sin_fixed(phase + rxz);
    let sz: i64 = sin_fixed(phase + ryz);
    Force {
        x: (amplitude as i128) * (sx as i128),
        y: (amplitude as i128) * (sy as i128),
        z: (amplitude as i128) * (sz as i128),
    }
}

} // verus!
