//! Easing curves over unit progress. Progress runs over `0 ..= 1000` milli
//! units; a curve maps it to an eased multiplier, also in milli units.
//! The back-family curves overshoot, so multipliers may leave `[0, 1000]`,
//! but every curve is exact at the endpoints: 0 maps to 0 and 1000 to 1000.

use vstd::prelude::*;
use vstd::arithmetic::div_mod::lemma_div_is_ordered;

verus! {

/// Full progress, in milli units.
pub const PROGRESS_ONE: u64 = 1000;

/// Cubic-overshoot coefficient of the back curves (1.702 in milli units).
pub const BACK_C1: u64 = 1702;

/// `BACK_C1 + 1`, the cubic coefficient of the back curves.
pub const BACK_C3: u64 = 2702;

/// Overshoot coefficient of the in-out back curve (`BACK_C1 * 1.525`, rounded
/// to milli units).
pub const BACK_C2: u64 = 2596;

/// Eased multipliers never leave this band (the back family dips slightly
/// below 0 and above 1000; 3000 is a comfortable bound).
pub const MULTIPLIER_BOUND: i64 = 3000;

/// An easing curve, applied to the progress of one transition.
#[derive(Clone, Copy, Debug, PartialEq, Eq, Structural)]
pub enum EasingCurve {
    Linear,
    InQuad,
    OutQuad,
    InBack,
    OutBack,
    InOutBack,
}

pub open spec fn linear_spec(t: int) -> int {
    t
}

pub open spec fn in_quad_spec(t: int) -> int {
    t * t / 1000
}

pub open spec fn out_quad_spec(t: int) -> int {
    1000 - (1000 - t) * (1000 - t) / 1000
}

pub open spec fn in_back_spec(t: int) -> int {
    BACK_C3 as int * t * t * t / 1_000_000_000 - BACK_C1 as int * t * t / 1_000_000
}

pub open spec fn out_back_spec(t: int) -> int {
    1000 - BACK_C3 as int * (1000 - t) * (1000 - t) * (1000 - t) / 1_000_000_000 + BACK_C1 as int
        * (1000 - t) * (1000 - t) / 1_000_000
}

pub open spec fn in_out_back_spec(t: int) -> int {
    if t < 500 {
        4 * (BACK_C2 as int + 1000) * t * t * t / 1_000_000_000 - 2 * BACK_C2 as int * t * t
            / 1_000_000
    } else {
        1000 + BACK_C2 as int * (2000 - 2 * t) * (2000 - 2 * t) / 2_000_000 - (BACK_C2 as int
            + 1000) * (2000 - 2 * t) * (2000 - 2 * t) * (2000 - 2 * t) / 2_000_000_000
    }
}

/// The eased multiplier a curve yields at a given progress.
pub open spec fn curve_multiplier_spec(curve: EasingCurve, t: int) -> int {
    match curve {
        EasingCurve::Linear => linear_spec(t),
        EasingCurve::InQuad => in_quad_spec(t),
        EasingCurve::OutQuad => out_quad_spec(t),
        EasingCurve::InBack => in_back_spec(t),
        EasingCurve::OutBack => out_back_spec(t),
        EasingCurve::InOutBack => in_out_back_spec(t),
    }
}

impl EasingCurve {
    /// Evaluate this curve at progress `t` (milli units, `0 ..= 1000`).
    pub fn multiplier(&self, t: u64) -> (r: i64)
        requires
            t <= PROGRESS_ONE,
        ensures
            r == curve_multiplier_spec(*self, t as int),
            -MULTIPLIER_BOUND <= r <= MULTIPLIER_BOUND,
    {
        match self {
            EasingCurve::Linear => t as i64,
            EasingCurve::InQuad => {
                proof {
                    lemma_scaled_cubic_bounds(t as int, 1, 1000);
                    lemma_div_is_ordered(t as int * t as int, 1_000_000, 1000);
                }
                ((t * t) / 1000) as i64
            },
            EasingCurve::OutQuad => {
                let s: u64 = 1000 - t;
                proof {
                    lemma_scaled_cubic_bounds(s as int, 1, 1000);
                    lemma_div_is_ordered(s as int * s as int, 1_000_000, 1000);
                }
                1000 - ((s * s) / 1000) as i64
            },
            EasingCurve::InBack => {
                proof {
                    lemma_scaled_cubic_bounds(t as int, BACK_C3 as int, 1000);
                    lemma_scaled_cubic_bounds(t as int, BACK_C1 as int, 1000);
                    lemma_div_is_ordered(
                        BACK_C3 as int * t as int * t as int * t as int,
                        2_702_000_000_000,
                        1_000_000_000,
                    );
                    lemma_div_is_ordered(
                        BACK_C1 as int * t as int * t as int,
                        1_702_000_000,
                        1_000_000,
                    );
                }
                let cubic: u64 = BACK_C3 * t * t * t / 1_000_000_000;
                let quad: u64 = BACK_C1 * t * t / 1_000_000;
                cubic as i64 - quad as i64
            },
            EasingCurve::OutBack => {
                let s: u64 = 1000 - t;
                proof {
                    lemma_scaled_cubic_bounds(s as int, BACK_C3 as int, 1000);
                    lemma_scaled_cubic_bounds(s as int, BACK_C1 as int, 1000);
                    lemma_div_is_ordered(
                        BACK_C3 as int * s as int * s as int * s as int,
                        2_702_000_000_000,
                        1_000_000_000,
                    );
                    lemma_div_is_ordered(
                        BACK_C1 as int * s as int * s as int,
                        1_702_000_000,
                        1_000_000,
                    );
                }
                let cubic: u64 = BACK_C3 * s * s * s / 1_000_000_000;
                let quad: u64 = BACK_C1 * s * s / 1_000_000;
                1000 - cubic as i64 + quad as i64
            },
            EasingCurve::InOutBack => {
                if t < 500 {
                    proof {
                        lemma_scaled_cubic_bounds(t as int, 4 * (BACK_C2 as int + 1000), 499);
                        lemma_scaled_cubic_bounds(t as int, 2 * BACK_C2 as int, 499);
                        lemma_div_is_ordered(
                            4 * (BACK_C2 as int + 1000) * t as int * t as int * t as int,
                            14_384int * 124_251_499,
                            1_000_000_000,
                        );
                        lemma_div_is_ordered(
                            2 * BACK_C2 as int * t as int * t as int,
                            5_192int * 249_001,
                            1_000_000,
                        );
                    }
                    let cubic: u64 = 4 * (BACK_C2 + 1000) * t * t * t / 1_000_000_000;
                    let quad: u64 = 2 * BACK_C2 * t * t / 1_000_000;
                    cubic as i64 - quad as i64
                } else {
                    let u: u64 = 2000 - 2 * t;
                    proof {
                        lemma_scaled_cubic_bounds(u as int, BACK_C2 as int, 1000);
                        lemma_scaled_cubic_bounds(u as int, BACK_C2 as int + 1000, 1000);
                        lemma_div_is_ordered(
                            BACK_C2 as int * u as int * u as int,
                            2_596_000_000,
                            2_000_000,
                        );
                        lemma_div_is_ordered(
                            (BACK_C2 as int + 1000) * u as int * u as int * u as int,
                            3_596_000_000_000,
                            2_000_000_000,
                        );
                    }
                    let quad: u64 = BACK_C2 * u * u / 2_000_000;
                    let cubic: u64 = (BACK_C2 + 1000) * u * u * u / 2_000_000_000;
                    1000 + quad as i64 - cubic as i64
                }
            },
        }
    }
}

/// Bounds on a coefficient times the square and cube of a progress-sized
/// quantity, used to show the curve arithmetic stays inside the machine range.
proof fn lemma_scaled_cubic_bounds(t: int, c: int, b: int)
    requires
        0 <= t <= b,
        0 <= b <= 2000,
        0 <= c <= 20_000,
    ensures
        0 <= c * t <= c * b,
        0 <= c * t * t <= c * (b * b),
        0 <= c * t * t * t <= c * (b * (b * b)),
{
    assert(0 <= c * t <= c * b && 0 <= c * t * t <= c * (b * b) && 0 <= c * t * t * t <= c * (b * (b
        * b))) by (nonlinear_arith)
        requires
            0 <= t <= b,
            0 <= b <= 2000,
            0 <= c <= 20_000,
    ;
}

/// Every supported curve starts exactly at 0: at progress 0 the eased
/// multiplier is 0, so an interpolation yields the checkpoint value.
pub proof fn lemma_curve_starts_at_zero(curve: EasingCurve)
    ensures
        curve_multiplier_spec(curve, 0) == 0,
{
    assert(linear_spec(0) == 0);
    assert(in_quad_spec(0) == 0);
    assert(out_quad_spec(0) == 0);
    assert(in_back_spec(0) == 0);
    assert(out_back_spec(0) == 0);
    assert(in_out_back_spec(0) == 0);
}

/// Every supported curve ends exactly at 1: at full progress the eased
/// multiplier is 1000, so an interpolation yields the target value.
pub proof fn lemma_curve_ends_at_one(curve: EasingCurve)
    ensures
        curve_multiplier_spec(curve, 1000) == 1000,
{
    assert(linear_spec(1000) == 1000);
    assert(in_quad_spec(1000) == 1000);
    assert(out_quad_spec(1000) == 1000);
    assert(in_back_spec(1000) == 1000);
    assert(out_back_spec(1000) == 1000);
    assert(in_out_back_spec(1000) == 1000);
}

} // verus!
