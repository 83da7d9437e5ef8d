//! Layout quantities. A `Size` is a pixel value, a percent-of-parent value,
//! or a combined form holding both components; it resolves against the
//! parent's current-frame bounds and is never cached across frames. A
//! `Rotation` carries radians, degrees, or percent-of-a-turn.

use vstd::prelude::*;
use crate::interpolation::Interpolatable;
use crate::numeric::{clamp_milli, div_trunc, mul_milli_sat, tdiv, Numeric, VAL_LIMIT};

verus! {

/// Fixed-point reading of a full turn in radians (2π in milli units).
pub const TWO_PI_MILLI: i64 = 6283;

/// A size: concrete pixels, percent of parent bounds, or both combined.
#[derive(Clone, Copy, Debug, PartialEq, Eq, Structural)]
pub enum Size {
    Pixels(Numeric),
    Percent(Numeric),
    /// Pixel component, percent component.
    Combined(Numeric, Numeric),
}

/// The axis a size resolves against.
#[derive(Clone, Copy, Debug, PartialEq, Eq, Structural)]
pub enum Axis {
    X,
    Y,
}

impl Size {
    /// The pixel component's milli reading (0 for pure percent values).
    pub open spec fn pixel_milli(self) -> int {
        match self {
            Size::Pixels(p) => p.as_milli(),
            Size::Percent(_) => 0,
            Size::Combined(pix, _) => pix.as_milli(),
        }
    }

    /// The percent component's milli reading (0 for pure pixel values).
    pub open spec fn percent_milli(self) -> int {
        match self {
            Size::Pixels(_) => 0,
            Size::Percent(p) => p.as_milli(),
            Size::Combined(_, per) => per.as_milli(),
        }
    }

    /// Both components admitted to layout arithmetic.
    pub open spec fn in_range(self) -> bool {
        match self {
            Size::Pixels(p) => p.in_range(),
            Size::Percent(p) => p.in_range(),
            Size::Combined(pix, per) => pix.in_range() && per.in_range(),
        }
    }

    /// The milli reading of this size resolved against a parent bound
    /// (percent components read per hundred of the bound).
    pub open spec fn resolved_milli(self, bound: int) -> int {
        self.pixel_milli() + tdiv(bound * self.percent_milli(), 100_000)
    }

    #[allow(non_snake_case)]
    pub fn ZERO() -> (r: Size)
        ensures
            r == Size::Pixels(Numeric::Fixed(0)),
    {
        Size::Pixels(Numeric::Fixed(0))
    }

    /// The wrapped percent value normalized so that 100 percent reads as 1.
    /// Only a percent value may be asked for this.
    pub fn expect_percent(&self) -> (r: Numeric)
        requires
            self is Percent,
            self.in_range(),
        ensures
            r.as_milli() == tdiv(self.percent_milli(), 100),
    {
        match self {
            Size::Percent(p) => Numeric::Fixed(div_trunc(p.to_milli(), 100)),
            _ => Numeric::Fixed(0),
        }
    }

    /// The wrapped pixel value. Only a pixel value may be asked for this.
    pub fn expect_pixels(&self) -> (r: Numeric)
        requires
            self is Pixels,
        ensures
            r == (match *self {
                Size::Pixels(p) => p,
                _ => r,
            }),
    {
        match self {
            Size::Pixels(p) => *p,
            _ => Numeric::Fixed(0),
        }
    }

    /// Resolve against `bounds` on `axis`: pixels pass through, percent
    /// components read against the bound picked by the axis.
    pub fn evaluate(&self, bounds: (Numeric, Numeric), axis: Axis) -> (r: Numeric)
        requires
            self.in_range(),
            bounds.0.in_range(),
            bounds.1.in_range(),
        ensures
            r.as_milli() == self.resolved_milli(
                match axis {
                    Axis::X => bounds.0.as_milli(),
                    Axis::Y => bounds.1.as_milli(),
                },
            ),
    {
        let target_bound: Numeric = match axis {
            Axis::X => bounds.0,
            Axis::Y => bounds.1,
        };
        self.get_pixels(target_bound)
    }

    /// Resolve against a single parent bound.
    pub fn get_pixels(&self, parent: Numeric) -> (r: Numeric)
        requires
            self.in_range(),
            parent.in_range(),
        ensures
            r.as_milli() == self.resolved_milli(parent.as_milli()),
    {
        let b: i64 = parent.to_milli();
        match self {
            Size::Pixels(p) => {
                proof {
                    assert(tdiv(0, 100_000) == 0);
                    assert(b as int * 0 == 0) by (nonlinear_arith);
                }
                *p
            },
            Size::Percent(p) => Numeric::Fixed(scale_by_percent(b, p.to_milli())),
            Size::Combined(pix, per) => {
                let scaled: i64 = scale_by_percent(b, per.to_milli());
                Numeric::Fixed(pix.to_milli() + scaled)
            },
        }
    }
}

/// `bound * percent / 100`, all in milli units, truncated toward zero.
fn scale_by_percent(b: i64, p: i64) -> (r: i64)
    requires
        -VAL_LIMIT <= b <= VAL_LIMIT,
        -VAL_LIMIT <= p <= VAL_LIMIT,
    ensures
        r == tdiv(b as int * p as int, 100_000),
        -10_000_000_000_000 <= r <= 10_000_000_000_000,
{
    proof {
        assert(-1_000_000_000_000_000_000 <= b as int * p as int <= 1_000_000_000_000_000_000)
            by (nonlinear_arith)
            requires
                -1_000_000_000 <= b <= 1_000_000_000,
                -1_000_000_000 <= p <= 1_000_000_000,
        ;
        crate::numeric::lemma_tdiv_in_bounds(
            b as int * p as int,
            100_000,
            1_000_000_000_000_000_000,
        );
    }
    div_trunc(b * p, 100_000)
}

impl Size {
    /// Component-wise sum; the result always carries both components.
    pub fn add(&self, rhs: &Size) -> (r: Size)
        requires
            self.in_range(),
            rhs.in_range(),
        ensures
            r is Combined,
            r.pixel_milli() == self.pixel_milli() + rhs.pixel_milli(),
            r.percent_milli() == self.percent_milli() + rhs.percent_milli(),
    {
        Size::Combined(
            Numeric::Fixed(self.pixel_part() + rhs.pixel_part()),
            Numeric::Fixed(self.percent_part() + rhs.percent_part()),
        )
    }

    /// Component-wise difference; the result always carries both components.
    pub fn sub(&self, rhs: &Size) -> (r: Size)
        requires
            self.in_range(),
            rhs.in_range(),
        ensures
            r is Combined,
            r.pixel_milli() == self.pixel_milli() - rhs.pixel_milli(),
            r.percent_milli() == self.percent_milli() - rhs.percent_milli(),
    {
        Size::Combined(
            Numeric::Fixed(self.pixel_part() - rhs.pixel_part()),
            Numeric::Fixed(self.percent_part() - rhs.percent_part()),
        )
    }

    /// Negate both components, keeping the variant.
    pub fn neg(&self) -> (r: Size)
        requires
            self.in_range(),
        ensures
            r.pixel_milli() == -self.pixel_milli(),
            r.percent_milli() == -self.percent_milli(),
            r.in_range(),
    {
        match self {
            Size::Pixels(p) => Size::Pixels(p.neg()),
            Size::Percent(p) => Size::Percent(p.neg()),
            Size::Combined(pix, per) => Size::Combined(pix.neg(), per.neg()),
        }
    }

    /// The product matrix over size kinds, in the sense of composing affine
    /// translations: two pixel values add; a percent factor scales the other
    /// side; combined forms scale their own pixel component by their percent
    /// component first.
    pub open spec fn mul_spec(self, rhs: Size) -> Size {
        match self {
            Size::Pixels(pix0) => match rhs {
                Size::Pixels(pix1) => Size::Pixels(
                    Numeric::Fixed((pix0.as_milli() + pix1.as_milli()) as i64),
                ),
                Size::Percent(per1) => Size::Pixels(
                    Numeric::Fixed(mul_milli_sat(pix0.as_milli(), per1.as_milli()) as i64),
                ),
                Size::Combined(pix1, per1) => Size::Pixels(
                    Numeric::Fixed(
                        (mul_milli_sat(pix0.as_milli(), per1.as_milli()) + pix0.as_milli()
                            + pix1.as_milli()) as i64,
                    ),
                ),
            },
            Size::Percent(per0) => match rhs {
                Size::Pixels(pix1) => Size::Pixels(
                    Numeric::Fixed(mul_milli_sat(per0.as_milli(), pix1.as_milli()) as i64),
                ),
                Size::Percent(per1) => Size::Percent(
                    Numeric::Fixed(mul_milli_sat(per0.as_milli(), per1.as_milli()) as i64),
                ),
                Size::Combined(pix1, per1) => Size::Pixels(
                    Numeric::Fixed(
                        (mul_milli_sat(per0.as_milli(), pix1.as_milli()) + mul_milli_sat(
                            per0.as_milli(),
                            per1.as_milli(),
                        )) as i64,
                    ),
                ),
            },
            Size::Combined(pix0, per0) => match rhs {
                Size::Pixels(pix1) => Size::Pixels(
                    Numeric::Fixed(
                        (mul_milli_sat(pix0.as_milli(), per0.as_milli()) + pix1.as_milli()) as i64,
                    ),
                ),
                Size::Percent(per1) => Size::Percent(
                    Numeric::Fixed(
                        mul_milli_sat(
                            mul_milli_sat(pix0.as_milli(), per0.as_milli()),
                            per1.as_milli(),
                        ) as i64,
                    ),
                ),
                Size::Combined(pix1, per1) => Size::Pixels(
                    Numeric::Fixed(
                        (mul_milli_sat(pix0.as_milli(), per0.as_milli()) + mul_milli_sat(
                            pix1.as_milli(),
                            per1.as_milli(),
                        )) as i64,
                    ),
                ),
            },
        }
    }

    /// Multiply two sizes following `mul_spec`.
    pub fn mul(&self, rhs: &Size) -> (r: Size)
        requires
            self.in_range(),
            rhs.in_range(),
        ensures
            r == self.mul_spec(*rhs),
    {
        match self {
            Size::Pixels(pix0) => match rhs {
                Size::Pixels(pix1) => Size::Pixels(
                    Numeric::Fixed(pix0.to_milli() + pix1.to_milli()),
                ),
                Size::Percent(per1) => Size::Pixels(
                    Numeric::Fixed(crate::numeric::mul_sat(pix0.to_milli(), per1.to_milli())),
                ),
                Size::Combined(pix1, per1) => Size::Pixels(
                    Numeric::Fixed(
                        crate::numeric::mul_sat(pix0.to_milli(), per1.to_milli()) + pix0.to_milli()
                            + pix1.to_milli(),
                    ),
                ),
            },
            Size::Percent(per0) => match rhs {
                Size::Pixels(pix1) => Size::Pixels(
                    Numeric::Fixed(crate::numeric::mul_sat(per0.to_milli(), pix1.to_milli())),
                ),
                Size::Percent(per1) => Size::Percent(
                    Numeric::Fixed(crate::numeric::mul_sat(per0.to_milli(), per1.to_milli())),
                ),
                Size::Combined(pix1, per1) => Size::Pixels(
                    Numeric::Fixed(
                        crate::numeric::mul_sat(per0.to_milli(), pix1.to_milli()) + crate::numeric::mul_sat(
                            per0.to_milli(),
                            per1.to_milli(),
                        ),
                    ),
                ),
            },
            Size::Combined(pix0, per0) => match rhs {
                Size::Pixels(pix1) => Size::Pixels(
                    Numeric::Fixed(crate::numeric::mul_sat(pix0.to_milli(), per0.to_milli()) + pix1.to_milli()),
                ),
                Size::Percent(per1) => {
                    let first: i64 = crate::numeric::mul_sat(pix0.to_milli(), per0.to_milli());
                    Size::Percent(Numeric::Fixed(crate::numeric::mul_sat(first, per1.to_milli())))
                },
                Size::Combined(pix1, per1) => Size::Pixels(
                    Numeric::Fixed(
                        crate::numeric::mul_sat(pix0.to_milli(), per0.to_milli()) + crate::numeric::mul_sat(
                            pix1.to_milli(),
                            per1.to_milli(),
                        ),
                    ),
                ),
            },
        }
    }

    /// The pixel component as a machine milli value.
    fn pixel_part(&self) -> (r: i64)
        requires
            self.in_range(),
        ensures
            r as int == self.pixel_milli(),
            -VAL_LIMIT <= r <= VAL_LIMIT,
    {
        match self {
            Size::Pixels(p) => p.to_milli(),
            Size::Percent(_) => 0,
            Size::Combined(pix, _) => pix.to_milli(),
        }
    }

    /// The percent component as a machine milli value.
    fn percent_part(&self) -> (r: i64)
        requires
            self.in_range(),
        ensures
            r as int == self.percent_milli(),
            -VAL_LIMIT <= r <= VAL_LIMIT,
    {
        match self {
            Size::Pixels(_) => 0,
            Size::Percent(p) => p.to_milli(),
            Size::Combined(_, per) => per.to_milli(),
        }
    }
}

/// Sizes blend component-wise; when the two sides carry different variants,
/// a component present on only one side passes through unchanged.
impl Interpolatable for Size {
    open spec fn valid(self) -> bool {
        self.in_range()
    }

    open spec fn interp_spec(self, other: Self, m: int) -> Self {
        match self {
            Size::Pixels(sp) => match other {
                Size::Pixels(op) => Size::Pixels(sp.interp_spec(op, m)),
                Size::Percent(op) => Size::Percent(op),
                Size::Combined(pix, per) => Size::Combined(sp.interp_spec(pix, m), per),
            },
            Size::Percent(sp) => match other {
                Size::Pixels(op) => Size::Pixels(op),
                Size::Percent(op) => Size::Percent(sp.interp_spec(op, m)),
                Size::Combined(pix, per) => Size::Combined(pix, sp.interp_spec(per, m)),
            },
            Size::Combined(pix, per) => match other {
                Size::Pixels(op) => Size::Combined(pix.interp_spec(op, m), per),
                Size::Percent(op) => Size::Combined(pix, per.interp_spec(op, m)),
                Size::Combined(pix1, per1) => Size::Combined(
                    pix.interp_spec(pix1, m),
                    per.interp_spec(per1, m),
                ),
            },
        }
    }

    fn interpolate(&self, other: &Self, m: i64) -> (r: Self) {
        match self {
            Size::Pixels(sp) => match other {
                Size::Pixels(op) => Size::Pixels(sp.interpolate(op, m)),
                Size::Percent(op) => Size::Percent(*op),
                Size::Combined(pix, per) => Size::Combined(sp.interpolate(pix, m), *per),
            },
            Size::Percent(sp) => match other {
                Size::Pixels(op) => Size::Pixels(*op),
                Size::Percent(op) => Size::Percent(sp.interpolate(op, m)),
                Size::Combined(pix, per) => Size::Combined(*pix, sp.interpolate(per, m)),
            },
            Size::Combined(pix, per) => match other {
                Size::Pixels(op) => Size::Combined(pix.interpolate(op, m), *per),
                Size::Percent(op) => Size::Combined(*pix, per.interpolate(op, m)),
                Size::Combined(pix1, per1) => Size::Combined(
                    pix.interpolate(pix1, m),
                    per.interpolate(per1, m),
                ),
            },
        }
    }

    fn duplicate(&self) -> (r: Self) {
        *self
    }
}

/// For like-kind sizes, blending is exact at the endpoints: multiplier 0
/// reads component-wise as the starting size and multiplier 1000 as the
/// ending one. (Sizes of different variants exchange the missing component
/// instead, so the identity is stated for matching variants.)
pub proof fn lemma_size_interp_endpoints(a: Size, b: Size)
    requires
        a.valid(),
        b.valid(),
        a is Pixels <==> b is Pixels,
        a is Percent <==> b is Percent,
        a is Combined <==> b is Combined,
    ensures
        a.interp_spec(b, 0).pixel_milli() == a.pixel_milli(),
        a.interp_spec(b, 0).percent_milli() == a.percent_milli(),
        a.interp_spec(b, 1000).pixel_milli() == b.pixel_milli(),
        a.interp_spec(b, 1000).percent_milli() == b.percent_milli(),
{
    match (a, b) {
        (Size::Pixels(sp), Size::Pixels(op)) => {
            crate::numeric::lemma_numeric_interp_endpoints(sp, op);
        },
        (Size::Percent(sp), Size::Percent(op)) => {
            crate::numeric::lemma_numeric_interp_endpoints(sp, op);
        },
        (Size::Combined(p0, q0), Size::Combined(p1, q1)) => {
            crate::numeric::lemma_numeric_interp_endpoints(p0, p1);
            crate::numeric::lemma_numeric_interp_endpoints(q0, q1);
        },
        _ => {},
    }
}

/// A rotation: radians, degrees, or percent of a full turn.
#[derive(Clone, Copy, Debug, PartialEq, Eq, Structural)]
pub enum Rotation {
    Radians(Numeric),
    Degrees(Numeric),
    Percent(Numeric),
}

impl Rotation {
    /// The wrapped component's milli reading.
    pub open spec fn component_milli(self) -> int {
        match self {
            Rotation::Radians(r) => r.as_milli(),
            Rotation::Degrees(d) => d.as_milli(),
            Rotation::Percent(p) => p.as_milli(),
        }
    }

    pub open spec fn in_range(self) -> bool {
        -VAL_LIMIT as int <= self.component_milli() <= VAL_LIMIT as int
    }

    /// The rotation read in milli degrees (radians go through the milli
    /// reading of 2π, so a full turn in radians reads as 360 degrees less
    /// fixed-point truncation).
    pub open spec fn as_degrees_milli(self) -> int {
        match self {
            Rotation::Radians(r) => tdiv(r.as_milli() * 360_000, TWO_PI_MILLI as int),
            Rotation::Degrees(d) => d.as_milli(),
            Rotation::Percent(p) => tdiv(p.as_milli() * 360, 100),
        }
    }

    /// The rotation read in milli radians.
    pub open spec fn as_radians_milli(self) -> int {
        match self {
            Rotation::Radians(r) => r.as_milli(),
            Rotation::Degrees(d) => tdiv(d.as_milli() * TWO_PI_MILLI as int, 360_000),
            Rotation::Percent(p) => tdiv(p.as_milli() * TWO_PI_MILLI as int, 100_000),
        }
    }

    #[allow(non_snake_case)]
    pub fn ZERO() -> (r: Rotation)
        ensures
            r == Rotation::Radians(Numeric::Fixed(0)),
    {
        Rotation::Radians(Numeric::Fixed(0))
    }

    /// Read this rotation in degrees (milli-degree fixed point).
    pub fn get_as_degrees(&self) -> (r: Numeric)
        requires
            self.in_range(),
        ensures
            r.as_milli() == self.as_degrees_milli(),
    {
        match self {
            Rotation::Radians(rad) => {
                let m: i64 = rad.to_milli();
                proof {
                    lemma_rotation_product_in_range(m as int, 360_000);
                }
                Numeric::Fixed(div_trunc(m * 360_000, TWO_PI_MILLI))
            },
            Rotation::Degrees(d) => *d,
            Rotation::Percent(p) => {
                let m: i64 = p.to_milli();
                proof {
                    lemma_rotation_product_in_range(m as int, 360);
                }
                Numeric::Fixed(div_trunc(m * 360, 100))
            },
        }
    }

    /// Read this rotation in radians (milli-radian fixed point).
    pub fn get_as_radians(&self) -> (r: Numeric)
        requires
            self.in_range(),
        ensures
            r.as_milli() == self.as_radians_milli(),
    {
        match self {
            Rotation::Radians(rad) => *rad,
            Rotation::Degrees(d) => {
                let m: i64 = d.to_milli();
                proof {
                    lemma_rotation_product_in_range(m as int, TWO_PI_MILLI as int);
                }
                Numeric::Fixed(div_trunc(m * TWO_PI_MILLI, 360_000))
            },
            Rotation::Percent(p) => {
                let m: i64 = p.to_milli();
                proof {
                    lemma_rotation_product_in_range(m as int, TWO_PI_MILLI as int);
                }
                Numeric::Fixed(div_trunc(m * TWO_PI_MILLI, 100_000))
            },
        }
    }

    /// Negate the wrapped component, keeping the unit.
    pub fn neg(&self) -> (r: Rotation)
        requires
            self.in_range(),
        ensures
            r.component_milli() == -self.component_milli(),
            r.in_range(),
            r is Radians <==> self is Radians,
            r is Degrees <==> self is Degrees,
            r is Percent <==> self is Percent,
    {
        match self {
            Rotation::Radians(v) => Rotation::Radians(v.neg()),
            Rotation::Degrees(v) => Rotation::Degrees(v.neg()),
            Rotation::Percent(v) => Rotation::Percent(v.neg()),
        }
    }

    /// Sum of two rotations, read out in radians.
    pub fn add(&self, rhs: &Rotation) -> (r: Rotation)
        requires
            self.in_range(),
            rhs.in_range(),
        ensures
            r is Radians,
            r.component_milli() == self.as_radians_milli() + rhs.as_radians_milli(),
    {
        let a = self.get_as_radians();
        let b = rhs.get_as_radians();
        proof {
            lemma_radians_reading_in_range(*self);
            lemma_radians_reading_in_range(*rhs);
        }
        Rotation::Radians(Numeric::Fixed(a.to_milli() + b.to_milli()))
    }
}

/// A product of an in-range milli reading with a rotation unit factor stays
/// inside the machine range, and its truncated quotients stay in range too.
proof fn lemma_rotation_product_in_range(m: int, c: int)
    requires
        -1_000_000_000 <= m <= 1_000_000_000,
        0 < c <= 360_000,
    ensures
        -360_000_000_000_000 <= m * c <= 360_000_000_000_000,
{
    assert(-360_000_000_000_000 <= m * c <= 360_000_000_000_000) by (nonlinear_arith)
        requires
            -1_000_000_000 <= m <= 1_000_000_000,
            0 < c <= 360_000,
    ;
}

/// The radians reading of an in-range rotation is itself bounded.
proof fn lemma_radians_reading_in_range(r: Rotation)
    requires
        r.in_range(),
    ensures
        -VAL_LIMIT as int <= r.as_radians_milli() <= VAL_LIMIT as int,
{
    match r {
        Rotation::Radians(_) => {},
        Rotation::Degrees(d) => {
            lemma_rotation_product_in_range(d.as_milli(), TWO_PI_MILLI as int);
            crate::numeric::lemma_tdiv_in_bounds(
                d.as_milli() * TWO_PI_MILLI as int,
                360_000,
                360_000_000_000_000,
            );
        },
        Rotation::Percent(p) => {
            lemma_rotation_product_in_range(p.as_milli(), TWO_PI_MILLI as int);
            crate::numeric::lemma_tdiv_in_bounds(
                p.as_milli() * TWO_PI_MILLI as int,
                100_000,
                360_000_000_000_000,
            );
        },
    }
}

/// Rotations blend linearly in percent-of-turn space, the unit the
/// interpolated value is produced in.
impl Interpolatable for Rotation {
    open spec fn valid(self) -> bool {
        self.in_range()
    }

    open spec fn interp_spec(self, other: Self, m: int) -> Self {
        let a = clamp_milli(self.as_percent_milli());
        let b = clamp_milli(other.as_percent_milli());
        Rotation::Percent(Numeric::Fixed(clamp_milli(a + tdiv((b - a) * m, 1000)) as i64))
    }

    fn interpolate(&self, other: &Self, m: i64) -> (r: Self) {
        let a: i64 = self.percent_reading();
        let b: i64 = other.percent_reading();
        let d: i64 = b - a;
        proof {
            assert((b - a) * m <= 6_000_000_000_000 && (b - a) * m >= -6_000_000_000_000)
                by (nonlinear_arith)
                requires
                    -2_000_000_000 <= b - a <= 2_000_000_000,
                    -3000 <= m <= 3000,
            ;
            crate::numeric::lemma_tdiv_in_bounds(d as int * m as int, 1000, 6_000_000_000_000);
        }
        let q: i64 = div_trunc(d * m, 1000);
        Rotation::Percent(Numeric::Fixed(crate::numeric::clamp_val(a + q)))
    }

    fn duplicate(&self) -> (r: Self) {
        *self
    }
}

impl Rotation {
    /// The rotation read in milli percent of a full turn.
    pub open spec fn as_percent_milli(self) -> int {
        match self {
            Rotation::Radians(r) => tdiv(r.as_milli() * 100_000, TWO_PI_MILLI as int),
            Rotation::Degrees(d) => tdiv(d.as_milli() * 100, 360),
            Rotation::Percent(p) => p.as_milli(),
        }
    }

    /// Executable percent-of-turn reading, clamped to the admitted band.
    pub(crate) fn percent_reading(&self) -> (r: i64)
        requires
            self.in_range(),
        ensures
            r as int == clamp_milli(self.as_percent_milli()),
            -VAL_LIMIT <= r <= VAL_LIMIT,
    {
        match self {
            Rotation::Radians(rad) => {
                let m: i64 = rad.to_milli();
                proof {
                    lemma_rotation_product_in_range(m as int, 100_000);
                    crate::numeric::lemma_tdiv_in_bounds(
                        m as int * 100_000,
                        TWO_PI_MILLI as int,
                        360_000_000_000_000,
                    );
                }
                crate::numeric::clamp_val(div_trunc(m * 100_000, TWO_PI_MILLI))
            },
            Rotation::Degrees(d) => {
                let m: i64 = d.to_milli();
                proof {
                    lemma_rotation_product_in_range(m as int, 100);
                    crate::numeric::lemma_tdiv_in_bounds(
                        m as int * 100,
                        360,
                        360_000_000_000_000,
                    );
                }
                crate::numeric::clamp_val(div_trunc(m * 100, 360))
            },
            Rotation::Percent(p) => {
                let m: i64 = p.to_milli();
                proof {
                    assert(clamp_milli(p.as_milli()) == p.as_milli());
                }
                m
            },
        }
    }
}

/// A raw percent value, coerced by context into a size, rotation, or color
/// channel.
#[derive(Clone, Copy, Debug, PartialEq, Eq, Structural)]
pub struct Percent(pub Numeric);

impl Percent {
    pub fn to_size(self) -> (r: Size)
        ensures
            r == Size::Percent(self.0),
    {
        Size::Percent(self.0)
    }

    pub fn to_rotation(self) -> (r: Rotation)
        ensures
            r == Rotation::Percent(self.0),
    {
        Rotation::Percent(self.0)
    }

    pub fn to_color_channel(self) -> (r: crate::color::ColorChannel)
        ensures
            r == crate::color::ColorChannel::Percent(self.0),
    {
        crate::color::ColorChannel::Percent(self.0)
    }
}

/// Percents blend linearly on the wrapped value.
impl Interpolatable for Percent {
    open spec fn valid(self) -> bool {
        self.0.in_range()
    }

    open spec fn interp_spec(self, other: Self, m: int) -> Self {
        Percent(self.0.interp_spec(other.0, m))
    }

    fn interpolate(&self, other: &Self, m: i64) -> (r: Self) {
        Percent(self.0.interpolate(&other.0, m))
    }

    fn duplicate(&self) -> (r: Self) {
        *self
    }
}

} // verus!
