use vstd::prelude::*;
use vstd::arithmetic::div_mod::{lemma_div_is_ordered, lemma_div_pos_is_pos};
use vstd::arithmetic::mul::{
    lemma_mul_inequality, lemma_mul_is_associative, lemma_mul_is_distributive_add,
    lemma_mul_is_distributive_add_other_way,
};
use crate::math::{lemma_mul_abs_bound, POS_LIMIT, SCALE};
use crate::vec3::{vec3_in_bounds, Vec3};

verus! {

/// A 3x3 linear transform in sub-units: the entry for `1.0` is `SCALE`.
/// A rotation has every entry within one scaled unit.
#[derive(Clone, Copy, PartialEq, Eq, Structural, Debug)]
pub struct Mat3 {
    pub m00: i64,
    pub m01: i64,
    pub m02: i64,
    pub m10: i64,
    pub m11: i64,
    pub m12: i64,
    pub m20: i64,
    pub m21: i64,
    pub m22: i64,
}

/// Every entry within one scaled unit, as holds of a rotation matrix.
pub open spec fn mat3_in_bounds(m: Mat3) -> bool {
    &&& -(SCALE as int) <= m.m00 <= SCALE as int
    &&& -(SCALE as int) <= m.m01 <= SCALE as int
    &&& -(SCALE as int) <= m.m02 <= SCALE as int
    &&& -(SCALE as int) <= m.m10 <= SCALE as int
    &&& -(SCALE as int) <= m.m11 <= SCALE as int
    &&& -(SCALE as int) <= m.m12 <= SCALE as int
    &&& -(SCALE as int) <= m.m20 <= SCALE as int
    &&& -(SCALE as int) <= m.m21 <= SCALE as int
    &&& -(SCALE as int) <= m.m22 <= SCALE as int
}

/// The rows of `m` as unbounded integers.
pub open spec fn mat_val(m: Mat3) -> ((int, int, int), (int, int, int), (int, int, int)) {
    (
        (m.m00 as int, m.m01 as int, m.m02 as int),
        (m.m10 as int, m.m11 as int, m.m12 as int),
        (m.m20 as int, m.m21 as int, m.m22 as int),
    )
}

/// The coordinates of `v` as unbounded integers.
pub open spec fn vec_val(v: Vec3) -> (int, int, int) {
    (v.x as int, v.y as int, v.z as int)
}

/// Exact application of an integer matrix to an integer vector.
pub open spec fn smat_apply(
    a: ((int, int, int), (int, int, int), (int, int, int)),
    v: (int, int, int),
) -> (int, int, int) {
    (
        a.0.0 * v.0 + a.0.1 * v.1 + a.0.2 * v.2,
        a.1.0 * v.0 + a.1.1 * v.1 + a.1.2 * v.2,
        a.2.0 * v.0 + a.2.1 * v.1 + a.2.2 * v.2,
    )
}

/// Exact product of two integer matrices.
pub open spec fn smat_mul(
    a: ((int, int, int), (int, int, int), (int, int, int)),
    b: ((int, int, int), (int, int, int), (int, int, int)),
) -> ((int, int, int), (int, int, int), (int, int, int)) {
    (
        (
            a.0.0 * b.0.0 + a.0.1 * b.1.0 + a.0.2 * b.2.0,
            a.0.0 * b.0.1 + a.0.1 * b.1.1 + a.0.2 * b.2.1,
            a.0.0 * b.0.2 + a.0.1 * b.1.2 + a.0.2 * b.2.2,
        ),
        (
            a.1.0 * b.0.0 + a.1.1 * b.1.0 + a.1.2 * b.2.0,
            a.1.0 * b.0.1 + a.1.1 * b.1.1 + a.1.2 * b.2.1,
            a.1.0 * b.0.2 + a.1.1 * b.1.2 + a.1.2 * b.2.2,
        ),
        (
            a.2.0 * b.0.0 + a.2.1 * b.1.0 + a.2.2 * b.2.0,
            a.2.0 * b.0.1 + a.2.1 * b.1.1 + a.2.2 * b.2.1,
            a.2.0 * b.0.2 + a.2.1 * b.1.2 + a.2.2 * b.2.2,
        ),
    )
}

/// The identity of the exact matrix product.
pub open spec fn smat_identity() -> ((int, int, int), (int, int, int), (int, int, int)) {
    ((1, 0, 0), (0, 1, 0), (0, 0, 1))
}

/// The `n`-th power of an integer matrix.
pub open spec fn smat_pow(
    a: ((int, int, int), (int, int, int), (int, int, int)),
    n: nat,
) -> ((int, int, int), (int, int, int), (int, int, int))
    decreases n,
{
    if n == 0 {
        smat_identity()
    } else {
        smat_mul(a, smat_pow(a, (n - 1) as nat))
    }
}

/// `n` exact applications of `a` to `v`, one after the other.
pub open spec fn smat_iter_apply(
    a: ((int, int, int), (int, int, int), (int, int, int)),
    v: (int, int, int),
    n: nat,
) -> (int, int, int)
    decreases n,
{
    if n == 0 {
        v
    } else {
        smat_apply(a, smat_iter_apply(a, v, (n - 1) as nat))
    }
}

/// One row of the product, applied to `v`, equals that row applied to
/// the image of `v`: the scalar core of the composition law.
proof fn lemma_dot_compose(
    a0: int,
    a1: int,
    a2: int,
    b00: int,
    b01: int,
    b02: int,
    b10: int,
    b11: int,
    b12: int,
    b20: int,
    b21: int,
    b22: int,
    x: int,
    y: int,
    z: int,
)
    ensures
        (a0 * b00 + a1 * b10 + a2 * b20) * x + (a0 * b01 + a1 * b11 + a2 * b21) * y + (a0 * b02
            + a1 * b12 + a2 * b22) * z == a0 * (b00 * x + b01 * y + b02 * z) + a1 * (b10 * x + b11
            * y + b12 * z) + a2 * (b20 * x + b21 * y + b22 * z),
{
    lemma_mul_is_distributive_add_other_way(x, a0 * b00 + a1 * b10, a2 * b20);
    lemma_mul_is_distributive_add_other_way(x, a0 * b00, a1 * b10);
    lemma_mul_is_distributive_add_other_way(y, a0 * b01 + a1 * b11, a2 * b21);
    lemma_mul_is_distributive_add_other_way(y, a0 * b01, a1 * b11);
    lemma_mul_is_distributive_add_other_way(z, a0 * b02 + a1 * b12, a2 * b22);
    lemma_mul_is_distributive_add_other_way(z, a0 * b02, a1 * b12);
    lemma_mul_is_associative(a0, b00, x);
    lemma_mul_is_associative(a0, b01, y);
    lemma_mul_is_associative(a0, b02, z);
    lemma_mul_is_associative(a1, b10, x);
    lemma_mul_is_associative(a1, b11, y);
    lemma_mul_is_associative(a1, b12, z);
    lemma_mul_is_associative(a2, b20, x);
    lemma_mul_is_associative(a2, b21, y);
    lemma_mul_is_associative(a2, b22, z);
    lemma_mul_is_distributive_add(a0, b00 * x + b01 * y, b02 * z);
    lemma_mul_is_distributive_add(a0, b00 * x, b01 * y);
    lemma_mul_is_distributive_add(a1, b10 * x + b11 * y, b12 * z);
    lemma_mul_is_distributive_add(a1, b10 * x, b11 * y);
    lemma_mul_is_distributive_add(a2, b20 * x + b21 * y, b22 * z);
    lemma_mul_is_distributive_add(a2, b20 * x, b21 * y);
}

/// Applying a product is applying its factors one after the other.
pub proof fn lemma_smat_compose(
    a: ((int, int, int), (int, int, int), (int, int, int)),
    b: ((int, int, int), (int, int, int), (int, int, int)),
    v: (int, int, int),
)
    ensures
        smat_apply(smat_mul(a, b), v) == smat_apply(a, smat_apply(b, v)),
{
    lemma_dot_compose(
        a.0.0,
        a.0.1,
        a.0.2,
        b.0.0,
        b.0.1,
        b.0.2,
        b.1.0,
        b.1.1,
        b.1.2,
        b.2.0,
        b.2.1,
        b.2.2,
        v.0,
        v.1,
        v.2,
    );
    lemma_dot_compose(
        a.1.0,
        a.1.1,
        a.1.2,
        b.0.0,
        b.0.1,
        b.0.2,
        b.1.0,
        b.1.1,
        b.1.2,
        b.2.0,
        b.2.1,
        b.2.2,
        v.0,
        v.1,
        v.2,
    );
    lemma_dot_compose(
        a.2.0,
        a.2.1,
        a.2.2,
        b.0.0,
        b.0.1,
        b.0.2,
        b.1.0,
        b.1.1,
        b.1.2,
        b.2.0,
        b.2.1,
        b.2.2,
        v.0,
        v.1,
        v.2,
    );
}

/// Applying the fixed per-step rotation `n` times to a vector is the
/// same as applying the compound rotation, the `n`-th power, once: the
/// composition law of the orbiting attractor's center update, in exact
/// integer arithmetic.
pub proof fn lemma_rotation_iterated(
    a: ((int, int, int), (int, int, int), (int, int, int)),
    v: (int, int, int),
    n: nat,
)
    ensures
        smat_iter_apply(a, v, n) == smat_apply(smat_pow(a, n), v),
    decreases n,
{
    if n == 0 {
        assert(smat_apply(smat_identity(), v) == v);
    } else {
        lemma_rotation_iterated(a, v, (n - 1) as nat);
        lemma_smat_compose(a, smat_pow(a, (n - 1) as nat), v);
    }
}

/// One exact coordinate rescaled by `SCALE`, rounding toward zero.
pub open spec fn scale_down(a: int) -> int {
    if a >= 0 {
        a / 1_000_000
    } else {
        -((-a) / 1_000_000)
    }
}

/// A coordinate clamped into the admitted world volume.
pub open spec fn clamp_pos(a: int) -> int {
    if a > POS_LIMIT as int {
        POS_LIMIT as int
    } else if a < -(POS_LIMIT as int) {
        -(POS_LIMIT as int)
    } else {
        a
    }
}

/// One fixed-point application of `m` to `v`: the exact image, rescaled
/// by `SCALE` toward zero and clamped into the world volume.
pub open spec fn rotate_step(m: Mat3, v: Vec3) -> (int, int, int) {
    let e = smat_apply(mat_val(m), vec_val(v));
    (clamp_pos(scale_down(e.0)), clamp_pos(scale_down(e.1)), clamp_pos(scale_down(e.2)))
}

/// Rescales one exact coordinate by `SCALE`, rounding toward zero.
fn scale_down_exec(a: i128) -> (r: i128)
    requires
        -4_000_000_000_000_000_000 <= a <= 4_000_000_000_000_000_000,
    ensures
        r as int == scale_down(a as int),
        -4_000_000_000_000 <= r <= 4_000_000_000_000,
{
    if a >= 0 {
        let q: u128 = (a as u128) / 1_000_000;
        proof {
            lemma_div_pos_is_pos(a as int, 1_000_000);
            lemma_div_is_ordered(a as int, 4_000_000_000_000_000_000, 1_000_000);
        }
        q as i128
    } else {
        let q: u128 = ((-a) as u128) / 1_000_000;
        proof {
            lemma_div_pos_is_pos(-(a as int), 1_000_000);
            lemma_div_is_ordered(-(a as int), 4_000_000_000_000_000_000, 1_000_000);
        }
        -(q as i128)
    }
}

/// Clamps one coordinate into the admitted world volume.
fn clamp_pos_exec(a: i128) -> (r: i64)
    requires
        -4_000_000_000_000 <= a <= 4_000_000_000_000,
    ensures
        r as int == clamp_pos(a as int),
{
    if a > POS_LIMIT as i128 {
        POS_LIMIT
    } else if a < -(POS_LIMIT as i128) {
        -POS_LIMIT
    } else {
        a as i64
    }
}

/// A matrix entry clamped to one scaled unit, as every entry of a true
/// rotation is; rounding in the construction can exceed it slightly.
pub open spec fn clamp_unit(a: int) -> int {
    if a > 1_000_000 {
        1_000_000
    } else if a < -1_000_000 {
        -1_000_000
    } else {
        a
    }
}

/// The rotation angle encoded by an axis-times-angle vector: its
/// length, in sub-units of a turn.
pub open spec fn angle_of(angles: Vec3) -> int {
    crate::math::sqrt_floor(
        (angles.x as int) * (angles.x as int) + (angles.y as int) * (angles.y as int) + (
        angles.z as int) * (angles.z as int),
    )
}

/// One coordinate of the unit axis: the coordinate rescaled by
/// `SCALE / th`, rounding toward zero.
pub open spec fn axis_coord(a: int, th: int) -> int {
    if a >= 0 {
        a * 1_000_000 / th
    } else {
        -((-a) * 1_000_000 / th)
    }
}

/// The fixed-point rotation matrix for an axis-times-angle vector, by
/// the axis-angle composition identity: the identity matrix, plus the
/// sine of the angle times the axis cross-product matrix, plus one
/// minus the cosine times the axis outer product less the identity.
/// The angle is the vector's length in sub-units of a turn; a zero
/// vector gives the identity.
pub open spec fn rodrigues(angles: Vec3) -> ((int, int, int), (int, int, int), (int, int, int)) {
    let th = angle_of(angles);
    if th == 0 {
        ((1_000_000, 0, 0), (0, 1_000_000, 0), (0, 0, 1_000_000))
    } else {
        let s = crate::math::sin_turns(th);
        let c = crate::math::sin_turns(th + 250_000);
        let vv = 1_000_000 - c;
        let ux = axis_coord(angles.x as int, th);
        let uy = axis_coord(angles.y as int, th);
        let uz = axis_coord(angles.z as int, th);
        let uu = scale_down(ux * ux) + scale_down(uy * uy) + scale_down(uz * uz);
        (
            (
                clamp_unit(1_000_000 + scale_down(vv * (scale_down(ux * ux) - uu))),
                clamp_unit(scale_down(s * (-uz)) + scale_down(vv * scale_down(ux * uy))),
                clamp_unit(scale_down(s * uy) + scale_down(vv * scale_down(ux * uz))),
            ),
            (
                clamp_unit(scale_down(s * uz) + scale_down(vv * scale_down(uy * ux))),
                clamp_unit(1_000_000 + scale_down(vv * (scale_down(uy * uy) - uu))),
                clamp_unit(scale_down(s * (-ux)) + scale_down(vv * scale_down(uy * uz))),
            ),
            (
                clamp_unit(scale_down(s * (-uy)) + scale_down(vv * scale_down(uz * ux))),
                clamp_unit(scale_down(s * ux) + scale_down(vv * scale_down(uz * uy))),
                clamp_unit(1_000_000 + scale_down(vv * (scale_down(uz * uz) - uu))),
            ),
        )
    }
}

/// Clamps a matrix entry to one scaled unit.
fn clamp_unit_exec(a: i128) -> (r: i64)
    requires
        -100_000_000 <= a <= 100_000_000,
    ensures
        r as int == clamp_unit(a as int),
{
    if a > 1_000_000 {
        1_000_000
    } else if a < -1_000_000 {
        -1_000_000
    } else {
        a as i64
    }
}

/// One coordinate of the unit axis, executable form.
fn axis_coord_exec(a: i64, th: u64) -> (r: i64)
    requires
        1 <= th,
        -(th as int) <= a as int <= th as int,
        -POS_LIMIT <= a <= POS_LIMIT,
        th <= 2_000_000_000_000,
    ensures
        r as int == axis_coord(a as int, th as int),
        -1_000_000 <= r <= 1_000_000,
{
    let mag: u64 = if a >= 0 {
        a as u64
    } else {
        (-a) as u64
    };
    proof {
        lemma_mul_inequality(mag as int, th as int, 1_000_000);
        lemma_div_is_ordered((mag as int) * 1_000_000, (th as int) * 1_000_000, th as int);
        vstd::arithmetic::div_mod::lemma_div_multiples_vanish(1_000_000, th as int);
        lemma_div_pos_is_pos((mag as int) * 1_000_000, th as int);
    }
    let q: u64 = (((mag as u128) * 1_000_000) / (th as u128)) as u64;
    if a >= 0 {
        q as i64
    } else {
        -(q as i64)
    }
}

/// One scaled product of two sub-unit scalars: `a * b / SCALE`,
/// rounding toward zero.
fn mul_unit(a: i64, b: i64) -> (r: i64)
    requires
        -4_000_000 <= a <= 4_000_000,
        -4_000_000 <= b <= 4_000_000,
    ensures
        r as int == scale_down((a as int) * (b as int)),
        -16_000_000 <= r <= 16_000_000,
        (-1_000_000 <= a <= 1_000_000 && -2_000_000 <= b <= 2_000_000) ==> -2_000_000 <= r
            <= 2_000_000,
{
    proof {
        lemma_mul_abs_bound(a as int, 4_000_000, b as int, 4_000_000);
    }
    let p: i128 = (a as i128) * (b as i128);
    proof {
        if -1_000_000 <= a && a <= 1_000_000 && -2_000_000 <= b && b <= 2_000_000 {
            lemma_mul_abs_bound(a as int, 1_000_000, b as int, 2_000_000);
            if p >= 0 {
                lemma_div_is_ordered(p as int, 2_000_000_000_000, 1_000_000);
            } else {
                lemma_div_is_ordered(-(p as int), 2_000_000_000_000, 1_000_000);
            }
        }
        if p >= 0 {
            lemma_div_pos_is_pos(p as int, 1_000_000);
            lemma_div_is_ordered(p as int, 16_000_000_000_000, 1_000_000);
        } else {
            lemma_div_pos_is_pos(-(p as int), 1_000_000);
            lemma_div_is_ordered(-(p as int), 16_000_000_000_000, 1_000_000);
        }
    }
    let s: i128 = scale_down_exec(p);
    s as i64
}

/// Builds the fixed-point rotation matrix for an axis-times-angle
/// vector, the per-step rotation of an orbiting attractor's center.
pub fn rotation_from_angles(angles: &Vec3) -> (m: Mat3)
    requires
        vec3_in_bounds(*angles),
    ensures
        mat_val(m) == rodrigues(*angles),
        mat3_in_bounds(m),
{
    proof {
        crate::math::lemma_mul_abs_bound(
            angles.x as int,
            POS_LIMIT as int,
            angles.x as int,
            POS_LIMIT as int,
        );
        crate::math::lemma_mul_abs_bound(
            angles.y as int,
            POS_LIMIT as int,
            angles.y as int,
            POS_LIMIT as int,
        );
        crate::math::lemma_mul_abs_bound(
            angles.z as int,
            POS_LIMIT as int,
            angles.z as int,
            POS_LIMIT as int,
        );
        assert((angles.x as int) * (angles.x as int) >= 0) by (nonlinear_arith);
        assert((angles.y as int) * (angles.y as int) >= 0) by (nonlinear_arith);
        assert((angles.z as int) * (angles.z as int) >= 0) by (nonlinear_arith);
    }
    let ax: u64 = if angles.x >= 0 {
        angles.x as u64
    } else {
        (-angles.x) as u64
    };
    let ay: u64 = if angles.y >= 0 {
        angles.y as u64
    } else {
        (-angles.y) as u64
    };
    let az: u64 = if angles.z >= 0 {
        angles.z as u64
    } else {
        (-angles.z) as u64
    };
    proof {
        assert((ax as int) * (ax as int) == (angles.x as int) * (angles.x as int))
            by (nonlinear_arith)
            requires
                ax as int == angles.x as int || ax as int == -(angles.x as int),
        ;
        assert((ay as int) * (ay as int) == (angles.y as int) * (angles.y as int))
            by (nonlinear_arith)
            requires
                ay as int == angles.y as int || ay as int == -(angles.y as int),
        ;
        assert((az as int) * (az as int) == (angles.z as int) * (angles.z as int))
            by (nonlinear_arith)
            requires
                az as int == angles.z as int || az as int == -(angles.z as int),
        ;
    }
    let sum: u128 = (ax as u128) * (ax as u128) + (ay as u128) * (ay as u128) + (az as u128) * (
    az as u128);
    let root: u128 = crate::math::isqrt(sum);
    proof {
        assert(root <= 2_000_000_000_000) by (nonlinear_arith)
            requires
                (root as int) * (root as int) <= 3_000_000_000_000_000_000_000_000,
                root >= 0,
        ;
        crate::math::lemma_sqrt_floor_at_least(sum as int, ax as int);
        crate::math::lemma_sqrt_floor_at_least(sum as int, ay as int);
        crate::math::lemma_sqrt_floor_at_least(sum as int, az as int);
    }
    let th: u64 = root as u64;
    if th == 0 {
        Mat3 {
            m00: 1_000_000,
            m01: 0,
            m02: 0,
            m10: 0,
            m11: 1_000_000,
            m12: 0,
            m20: 0,
            m21: 0,
            m22: 1_000_000,
        }
    } else {
        let s: i64 = crate::math::sin_fixed(th);
        let c: i64 = crate::math::sin_fixed(th + crate::math::QUARTER_TURN);
        let vv: i64 = 1_000_000 - c;
        let ux: i64 = axis_coord_exec(angles.x, th);
        let uy: i64 = axis_coord_exec(angles.y, th);
        let uz: i64 = axis_coord_exec(angles.z, th);
        let uu: i64 = mul_unit(ux, ux) + mul_unit(uy, uy) + mul_unit(uz, uz);
        let m00: i128 = 1_000_000 + (mul_unit(vv, mul_unit(ux, ux) - uu) as i128);
        let m01: i128 = (mul_unit(s, -uz) as i128) + (mul_unit(vv, mul_unit(ux, uy)) as i128);
        let m02: i128 = (mul_unit(s, uy) as i128) + (mul_unit(vv, mul_unit(ux, uz)) as i128);
        let m10: i128 = (mul_unit(s, uz) as i128) + (mul_unit(vv, mul_unit(uy, ux)) as i128);
        let m11: i128 = 1_000_000 + (mul_unit(vv, mul_unit(uy, uy) - uu) as i128);
        let m12: i128 = (mul_unit(s, -ux) as i128) + (mul_unit(vv, mul_unit(uy, uz)) as i128);
        let m20: i128 = (mul_unit(s, -uy) as i128) + (mul_unit(vv, mul_unit(uz, ux)) as i128);
        let m21: i128 = (mul_unit(s, ux) as i128) + (mul_unit(vv, mul_unit(uz, uy)) as i128);
        let m22: i128 = 1_000_000 + (mul_unit(vv, mul_unit(uz, uz) - uu) as i128);
        Mat3 {
            m00: clamp_unit_exec(m00),
            m01: clamp_unit_exec(m01),
            m02: clamp_unit_exec(m02),
            m10: clamp_unit_exec(m10),
            m11: clamp_unit_exec(m11),
            m12: clamp_unit_exec(m12),
            m20: clamp_unit_exec(m20),
            m21: clamp_unit_exec(m21),
            m22: clamp_unit_exec(m22),
        }
    }
}

/// Applies the fixed-point transform `m` to `v` once, clamping the
/// image into the world volume.
pub fn rotate_vec(m: &Mat3, v: &Vec3) -> (r: Vec3)
    requires
        mat3_in_bounds(*m),
        vec3_in_bounds(*v),
    ensures
        vec_val(r) == rotate_step(*m, *v),
        vec3_in_bounds(r),
{
    proof {
        lemma_mul_abs_bound(m.m00 as int, SCALE as int, v.x as int, POS_LIMIT as int);
        lemma_mul_abs_bound(m.m01 as int, SCALE as int, v.y as int, POS_LIMIT as int);
        lemma_mul_abs_bound(m.m02 as int, SCALE as int, v.z as int, POS_LIMIT as int);
        lemma_mul_abs_bound(m.m10 as int, SCALE as int, v.x as int, POS_LIMIT as int);
        lemma_mul_abs_bound(m.m11 as int, SCALE as int, v.y as int, POS_LIMIT as int);
        lemma_mul_abs_bound(m.m12 as int, SCALE as int, v.z as int, POS_LIMIT as int);
        lemma_mul_abs_bound(m.m20 as int, SCALE as int, v.x as int, POS_LIMIT as int);
        lemma_mul_abs_bound(m.m21 as int, SCALE as int, v.y as int, POS_LIMIT as int);
        lemma_mul_abs_bound(m.m22 as int, SCALE as int, v.z as int, POS_LIMIT as int);
    }
    let ex: i128 = (m.m00 as i128) * (v.x as i128) + (m.m01 as i128) * (v.y as i128) + (
    m.m02 as i128) * (v.z as i128);
    let ey: i128 = (m.m10 as i128) * (v.x as i128) + (m.m11 as i128) * (v.y as i128) + (
    m.m12 as i128) * (v.z as i128);
    let ez: i128 = (m.m20 as i128) * (v.x as i128) + (m.m21 as i128) * (v.y as i128) + (
    m.m22 as i128) * (v.z as i128);
    Vec3 {
        x: clamp_pos_exec(scale_down_exec(ex)),
        y: clamp_pos_exec(scale_down_exec(ey)),
        z: clamp_pos_exec(scale_down_exec(ez)),
    }
}

} // verus!
