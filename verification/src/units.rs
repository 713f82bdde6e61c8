//! Fixed-point units and the two arithmetic helpers the simulation rests on.

use vstd::prelude::*;

verus! {

/// Fixed-point steps in one unit of length, in one radian and in full throttle.
pub const SCALE: i64 = 1_000_000;

/// Largest world bound, in steps.
pub const LIMIT: i64 = 1_000_000_000_000;

/// Microseconds in one second.
pub const MICROS_PER_SECOND: i64 = 1_000_000;

/// Largest speed an entity may have, in steps per second.
pub const SPEED_LIMIT: i64 = 1_000_000_000;

/// No entity travels further than this in one tick, in steps.
pub const TRAVEL_LIMIT: i64 = 5_000_000_000_000;

/// `v` raised to at least `lo` and then lowered to at most `hi`.
pub open spec fn clamp_spec(v: int, lo: int, hi: int) -> int {
    let raised = if v < lo { lo } else { v };
    if raised > hi { hi } else { raised }
}

/// Limits `v` to `[lo, hi]`; where `lo > hi` the upper limit wins.
pub fn clamp(v: i64, lo: i64, hi: i64) -> (r: i64)
    ensures
        r == clamp_spec(v as int, lo as int, hi as int),
{
    let raised: i64 = if v < lo { lo } else { v };
    if raised > hi { hi } else { raised }
}

/// The quotient of `a` by a positive `d`, rounded toward zero.
pub open spec fn quotient(a: int, d: int) -> int {
    if a >= 0 { a / d } else { -((-a) / d) }
}

/// Divides rounding toward zero.
pub fn divide(a: i128, d: i128) -> (r: i128)
    requires
        d > 0,
        a > i128::MIN,
    ensures
        r == quotient(a as int, d as int),
{
    if a >= 0 {
        a / d
    } else {
        let m: i128 = -a;
        let q: i128 = m / d;
        assert(0 <= q <= m) by (nonlinear_arith)
            requires
                q == m / d,
                m >= 0,
                d > 0,
        ;
        -q
    }
}

/// The distance covered along one axis in `dt` microseconds at `speed` steps
/// per second, where `dir` is that axis' share of the heading in steps.
pub open spec fn travel_spec(dir: int, speed: int, dt: int) -> int {
    quotient(dir * speed * dt, SCALE * MICROS_PER_SECOND)
}

/// Computes [`travel_spec`].
pub fn travel(dir: i64, speed: i64, dt: u32) -> (r: i64)
    requires
        -SCALE <= dir <= SCALE,
        0 <= speed <= SPEED_LIMIT,
    ensures
        r == travel_spec(dir as int, speed as int, dt as int),
        -TRAVEL_LIMIT <= r <= TRAVEL_LIMIT,
{
    proof {
        lemma_travel_bound(dir as int, speed as int, dt as int);
    }
    let along: i128 = (dir as i128) * (speed as i128);
    let product: i128 = along * (dt as i128);
    let q: i128 = divide(product, 1_000_000_000_000i128);
    q as i64
}

/// The product behind [`travel_spec`] and its quotient stay within fixed limits.
pub proof fn lemma_travel_bound(dir: int, speed: int, dt: int)
    requires
        -SCALE <= dir <= SCALE,
        0 <= speed <= SPEED_LIMIT,
        0 <= dt <= u32::MAX,
    ensures
        -1_000_000_000_000_000 <= dir * speed <= 1_000_000_000_000_000,
        -4_294_967_295_000_000_000_000_000 <= dir * speed * dt <= 4_294_967_295_000_000_000_000_000,
        -TRAVEL_LIMIT <= travel_spec(dir, speed, dt) <= TRAVEL_LIMIT,
{
    let along = dir * speed;
    assert(-1_000_000_000_000_000 <= along <= 1_000_000_000_000_000) by (nonlinear_arith)
        requires
            along == dir * speed,
            -1_000_000 <= dir <= 1_000_000,
            0 <= speed <= 1_000_000_000,
    ;
    let product = along * dt;
    assert(-4_294_967_295_000_000_000_000_000 <= product <= 4_294_967_295_000_000_000_000_000)
        by (nonlinear_arith)
        requires
            product == along * dt,
            -1_000_000_000_000_000 <= along <= 1_000_000_000_000_000,
            0 <= dt <= 4_294_967_295,
    ;
    assert(SCALE * MICROS_PER_SECOND == 1_000_000_000_000);
    if product >= 0 {
        assert(0 <= product / 1_000_000_000_000 <= 4_294_967_295_000) by (nonlinear_arith)
            requires
                0 <= product <= 4_294_967_295_000_000_000_000_000,
        ;
    } else {
        assert(0 <= (-product) / 1_000_000_000_000 <= 4_294_967_295_000) by (nonlinear_arith)
            requires
                0 <= -product <= 4_294_967_295_000_000_000_000_000,
        ;
    }
}

} // verus!
