use vstd::prelude::*;
use vstd::arithmetic::div_mod::{
    lemma_div_is_ordered, lemma_div_multiples_vanish, lemma_div_pos_is_pos,
    lemma_mod_add_multiples_vanish, lemma_mod_division_less_than_divisor,
};
use vstd::arithmetic::mul::lemma_mul_inequality;

verus! {

/// Sub-units per world unit: all lengths, gains and phases are held as
/// integer counts of one millionth of a unit. A full turn of phase is
/// `SCALE` sub-units, so the oscillating field has an exact period.
pub const SCALE: u64 = 1_000_000;

/// Half a turn of phase, where the sine changes sign.
pub const HALF_TURN: u64 = 500_000;

/// A quarter turn of phase; the cosine is the sine shifted by this much.
pub const QUARTER_TURN: u64 = 250_000;

/// Largest admitted magnitude of a position or center coordinate
/// (a million world units), so that displacements stay far from overflow.
pub const POS_LIMIT: i64 = 1_000_000_000_000;

/// Largest admitted gain (attraction strength, spring constant or
/// oscillation amplitude), in sub-units.
pub const GAIN_LIMIT: u64 = 1_000_000_000_000;

/// Additive floor on an attractor's distance (0.001 units), so that the
/// inverse-square law never divides by zero.
pub const MAG_FLOOR: u64 = 1_000;

/// Additive floor on the pairwise radii of the oscillating field
/// (0.1 units).
pub const RADIUS_FLOOR: u64 = 100_000;

/// Largest admitted number of body references in one generator's group.
pub const GROUP_LIMIT: usize = 1_000_000;

/// Bound on the magnitude of any single force contribution, in
/// force sub-units (squared scale); every rule below stays within it.
pub const FORCE_LIMIT: i128 = 2_000_000_000_000_000_000_000_000_000_000;

/// What one step over a largest group can add to one accumulator
/// coordinate at most: `GROUP_LIMIT` contributions of `FORCE_LIMIT`.
pub const STEP_FORCE_BUDGET: i128 = 2_000_000_000_000_000_000_000_000_000_000_000_000;

/// Bound on a force accumulator's coordinates under which one full step
/// over a largest group cannot overflow.
pub const ACC_LIMIT: i128 = 10_000_000_000_000_000_000_000_000_000_000_000_000;

/// A product of two scalars is bounded by the product of their bounds.
pub proof fn lemma_mul_abs_bound(a: int, ab: int, b: int, bb: int)
    requires
        -ab <= a <= ab,
        -bb <= b <= bb,
    ensures
        -(ab * bb) <= a * b <= ab * bb,
{
    assert(-(ab * bb) <= a * b <= ab * bb) by (nonlinear_arith)
        requires
            -ab <= a <= ab,
            -bb <= b <= bb,
    ;
}

/// `r` is the integer square root of `n` rounded down.
pub open spec fn is_sqrt_floor(n: int, r: int) -> bool {
    0 <= r && r * r <= n && n < (r + 1) * (r + 1)
}

/// The integer square root of `n`, rounded down.
pub open spec fn sqrt_floor(n: int) -> int {
    choose|r: int| #[trigger] is_sqrt_floor(n, r)
}

pub proof fn lemma_sqrt_floor_exists(n: int)
    requires
        n >= 0,
    ensures
        exists|r: int| #[trigger] is_sqrt_floor(n, r),
    decreases n,
{
    if n == 0 {
        assert(is_sqrt_floor(0, 0));
    } else {
        lemma_sqrt_floor_exists(n - 1);
        let r = choose|r: int| #[trigger] is_sqrt_floor(n - 1, r);
        if n < (r + 1) * (r + 1) {
            assert(is_sqrt_floor(n, r));
        } else {
            assert(n == (r + 1) * (r + 1));
            assert((r + 1) * (r + 1) < (r + 2) * (r + 2)) by (nonlinear_arith)
                requires r >= 0,
            ;
            assert(is_sqrt_floor(n, r + 1));
        }
    }
}

pub proof fn lemma_sqrt_floor_unique(n: int, r1: int, r2: int)
    requires
        is_sqrt_floor(n, r1),
        is_sqrt_floor(n, r2),
    ensures
        r1 == r2,
{
    if r1 < r2 {
        lemma_mul_inequality(r1 + 1, r2, r2);
        assert((r1 + 1) * r2 <= r2 * r2);
        lemma_mul_inequality(r1 + 1, r2, r1 + 1);
        assert((r1 + 1) * (r1 + 1) <= r2 * (r1 + 1));
    }
    if r2 < r1 {
        lemma_mul_inequality(r2 + 1, r1, r1);
        lemma_mul_inequality(r2 + 1, r1, r2 + 1);
    }
}

/// `sqrt_floor` itself satisfies its defining property.
pub proof fn lemma_sqrt_floor(n: int)
    requires
        n >= 0,
    ensures
        is_sqrt_floor(n, sqrt_floor(n)),
{
    lemma_sqrt_floor_exists(n);
}

/// Integer square root, rounded down.
pub fn isqrt(n: u128) -> (r: u128)
    ensures
        r as int == sqrt_floor(n as int),
        is_sqrt_floor(n as int, r as int),
{
    let mut lo: u128 = 0;
    let mut hi: u128 = 0x1_0000_0000_0000_0000;
    if n < hi {
        hi = n + 1;
    }
    assert(n < hi * hi) by (nonlinear_arith)
        requires
            hi > n || hi == 0x1_0000_0000_0000_0000 && n <= u128::MAX,
    ;
    while lo + 1 < hi
        invariant
            lo < hi,
            lo * lo <= n,
            n < hi * hi,
            hi <= 0x1_0000_0000_0000_0000,
        decreases hi - lo,
    {
        let mid: u128 = lo + (hi - lo) / 2;
        assert(mid * mid < 0x1_0000_0000_0000_0000 * 0x1_0000_0000_0000_0000) by (nonlinear_arith)
            requires
                mid < 0x1_0000_0000_0000_0000,
        ;
        if mid * mid <= n {
            lo = mid;
        } else {
            hi = mid;
        }
    }
    proof {
        assert(is_sqrt_floor(n as int, lo as int));
        lemma_sqrt_floor(n as int);
        lemma_sqrt_floor_unique(n as int, lo as int, sqrt_floor(n as int));
    }
    lo
}

/// The square root of a sum of squares is at least each squared term's
/// root.
pub proof fn lemma_sqrt_floor_at_least(n: int, a: int)
    requires
        n >= 0,
        a >= 0,
        a * a <= n,
    ensures
        sqrt_floor(n) >= a,
{
    lemma_sqrt_floor(n);
    let r = sqrt_floor(n);
    if r < a {
        lemma_mul_inequality(r + 1, a, r + 1);
        lemma_mul_inequality(r + 1, a, a);
        assert((r + 1) * (r + 1) <= a * (r + 1));
        assert(a * (r + 1) <= a * a) by (nonlinear_arith)
            requires
                r + 1 <= a,
                a >= 0,
        ;
    }
}

/// The rising half-wave of the sine, over the first half turn
/// (`0 <= m <= 500_000` sub-units), scaled so that a full unit is
/// `SCALE`: a rational approximation that is exactly `0` at the ends
/// and exactly `SCALE` at the quarter turn.
pub open spec fn sin_half_up(m: int) -> int {
    let q = m * (1_000_000 - 2 * m);
    (32 * q * 1_000_000) / (5_000_000_000_000 - 8 * q)
}

/// Sine of a phase given in sub-units of a turn, scaled by `SCALE`.
/// Periodic in `SCALE` by construction; odd about the half turn.
pub open spec fn sin_turns(x: int) -> int {
    let m = x % 1_000_000;
    if m < 500_000 {
        sin_half_up(m)
    } else {
        -sin_half_up(m - 500_000)
    }
}

/// On the first half turn the half-wave lies within `[0, SCALE]`.
pub proof fn lemma_sin_half_bounds(m: int)
    requires
        0 <= m <= 500_000,
    ensures
        0 <= sin_half_up(m) <= 1_000_000,
{
    let q = m * (1_000_000 - 2 * m);
    assert(0 <= m * (1_000_000 - 2 * m)) by (nonlinear_arith)
        requires
            0 <= m <= 500_000,
    ;
    assert(8 * (m * (1_000_000 - 2 * m)) == 1_000_000_000_000 - (1_000_000 - 4 * m) * (
    1_000_000 - 4 * m)) by (nonlinear_arith);
    assert((1_000_000 - 4 * m) * (1_000_000 - 4 * m) >= 0) by (nonlinear_arith);
    assert(8 * q <= 1_000_000_000_000);
    let num = 32 * q * 1_000_000;
    let den = 5_000_000_000_000 - 8 * q;
    lemma_div_pos_is_pos(num, den);
    assert(num <= 1_000_000 * den);
    lemma_div_is_ordered(num, 1_000_000 * den, den);
    lemma_div_multiples_vanish(1_000_000, den);
}

/// The sine is bounded by one scaled unit in magnitude, for every phase.
pub proof fn lemma_sin_turns_bounds(x: int)
    ensures
        -1_000_000 <= sin_turns(x) <= 1_000_000,
{
    lemma_mod_division_less_than_divisor(x, 1_000_000);
    let m = x % 1_000_000;
    if m < 500_000 {
        lemma_sin_half_bounds(m);
    } else {
        lemma_sin_half_bounds(m - 500_000);
    }
}

/// Advancing the phase by exactly one full turn leaves the sine unchanged.
pub proof fn lemma_sin_turns_periodic(x: int)
    ensures
        sin_turns(x + 1_000_000) == sin_turns(x),
{
    lemma_mod_add_multiples_vanish(x, 1_000_000);
}

/// The rising half-wave of the sine, executable form.
fn sin_half_exec(m: u64) -> (s: i64)
    requires
        m <= 500_000,
    ensures
        s as int == sin_half_up(m as int),
        0 <= s <= 1_000_000,
{
    proof {
        lemma_sin_half_bounds(m as int);
    }
    assert(m * (1_000_000 - 2 * m) <= 500_000 * 1_000_000) by (nonlinear_arith)
        requires
            m <= 500_000,
    ;
    let q: u64 = m * (SCALE - 2 * m);
    let num: u128 = 32 * (q as u128) * (SCALE as u128);
    let den: u128 = 5_000_000_000_000 - 8 * (q as u128);
    let s: u128 = num / den;
    s as i64
}

/// Sine of a phase in sub-units of a turn, scaled by `SCALE`.
pub fn sin_fixed(x: u64) -> (s: i64)
    ensures
        s as int == sin_turns(x as int),
        -1_000_000 <= s <= 1_000_000,
{
    proof {
        lemma_mod_division_less_than_divisor(x as int, 1_000_000);
    }
    let m: u64 = x % SCALE;
    if m < HALF_TURN {
        sin_half_exec(m)
    } else {
        -sin_half_exec(m - HALF_TURN)
    }
}

} // verus!
