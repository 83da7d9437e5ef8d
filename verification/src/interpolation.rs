//! Interpolation between property values. Each value type declares its own
//! interpolation law: numeric kinds blend component-wise under an eased
//! multiplier, while coarse kinds (booleans, strings) snap to the starting
//! value instead of blending.

use vstd::prelude::*;
use crate::easing::{curve_multiplier_spec, EasingCurve, MULTIPLIER_BOUND, PROGRESS_ONE};
use crate::numeric::Numeric;

verus! {

/// A value that a transition can run over.
pub trait Interpolatable: Sized + Clone {
    /// Values admitted to interpolation (keeps arithmetic in machine range).
    spec fn valid(self) -> bool;

    /// The mathematical result of interpolating from `self` toward `other`
    /// under the eased multiplier `m`, in milli units.
    spec fn interp_spec(self, other: Self, m: int) -> Self;

    /// Interpolate from `self` toward `other`; `m` is an eased multiplier in
    /// milli units (1000 is full progress; back-family curves overshoot).
    fn interpolate(&self, other: &Self, m: i64) -> (r: Self)
        requires
            self.valid(),
            other.valid(),
            -MULTIPLIER_BOUND <= m <= MULTIPLIER_BOUND,
        ensures
            r == self.interp_spec(*other, m as int),
            r.valid(),
    ;

    /// An exact copy; the cell machinery stores one value in several places
    /// (current value, checkpoint, queued target).
    fn duplicate(&self) -> (r: Self)
        ensures
            r == *self,
    ;
}

/// Booleans snap: a transition holds the starting value for its whole
/// duration rather than blending.
impl Interpolatable for bool {
    open spec fn valid(self) -> bool {
        true
    }

    open spec fn interp_spec(self, other: Self, m: int) -> Self {
        self
    }

    fn interpolate(&self, other: &Self, m: i64) -> (r: Self) {
        *self
    }

    fn duplicate(&self) -> (r: Self) {
        *self
    }
}

/// Strings snap, like every coarse value kind.
impl Interpolatable for String {
    open spec fn valid(self) -> bool {
        true
    }

    open spec fn interp_spec(self, other: Self, m: int) -> Self {
        self
    }

    fn interpolate(&self, other: &Self, m: i64) -> (r: Self) {
        self.clone()
    }

    fn duplicate(&self) -> (r: Self) {
        self.clone()
    }
}

/// Options blend only when both sides are present.
impl<T: Interpolatable> Interpolatable for Option<T> {
    open spec fn valid(self) -> bool {
        match self {
            Option::Some(v) => v.valid(),
            Option::None => true,
        }
    }

    open spec fn interp_spec(self, other: Self, m: int) -> Self {
        match self {
            Option::Some(a) => match other {
                Option::Some(b) => Option::Some(a.interp_spec(b, m)),
                Option::None => Option::None,
            },
            Option::None => Option::None,
        }
    }

    fn interpolate(&self, other: &Self, m: i64) -> (r: Self) {
        match self {
            Option::Some(a) => match other {
                Option::Some(b) => Option::Some(a.interpolate(b, m)),
                Option::None => Option::None,
            },
            Option::None => Option::None,
        }
    }

    fn duplicate(&self) -> (r: Self) {
        match self {
            Option::Some(a) => Option::Some(a.duplicate()),
            Option::None => Option::None,
        }
    }
}

/// For every supported curve, a numeric value eased to progress 0 reads as
/// the checkpoint value, and eased to full progress reads as the target.
pub proof fn lemma_eased_endpoints_numeric(curve: EasingCurve, v0: Numeric, v1: Numeric)
    requires
        v0.valid(),
        v1.valid(),
    ensures
        v0.interp_spec(v1, curve_multiplier_spec(curve, 0)).as_milli() == v0.as_milli(),
        v0.interp_spec(v1, curve_multiplier_spec(curve, PROGRESS_ONE as int)).as_milli()
            == v1.as_milli(),
{
    crate::easing::lemma_curve_starts_at_zero(curve);
    crate::easing::lemma_curve_ends_at_one(curve);
    crate::numeric::lemma_numeric_interp_endpoints(v0, v1);
}

} // verus!
