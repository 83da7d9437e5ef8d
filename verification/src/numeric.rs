//! A closed numeric tower for property values: exact integers plus a
//! milli-scaled fixed-point form standing in for fractional quantities.
//! Every value has a single mathematical reading, `as_milli`, and all
//! arithmetic contracts are stated over it.

use vstd::prelude::*;
use vstd::arithmetic::div_mod::{
    lemma_div_is_ordered,
    lemma_div_multiples_vanish,
    lemma_div_pos_is_pos,
};
use crate::interpolation::Interpolatable;

verus! {

/// Number of fixed-point units per whole unit: `Fixed(1500)` reads as 1.5.
pub const MILLI_SCALE: i64 = 1000;

/// Bound on the milli reading of values that take part in interpolation and
/// layout resolution; keeps every intermediate product inside `i64`.
pub const VAL_LIMIT: i64 = 1_000_000_000;

/// Truncating division (round toward zero), the behaviour of `/` on machine
/// integers, defined for a positive divisor.
pub open spec fn tdiv(x: int, d: int) -> int
    recommends
        d > 0,
{
    if x >= 0 {
        x / d
    } else {
        -((-x) / d)
    }
}

/// Truncating division on machine integers; mirrors `tdiv` exactly.
pub fn div_trunc(x: i64, d: i64) -> (r: i64)
    requires
        d > 0,
        -0x7fff_ffff_ffff_ffff <= x,
    ensures
        r == tdiv(x as int, d as int),
{
    if x >= 0 {
        let q: u64 = (x as u64) / (d as u64);
        q as i64
    } else {
        let q: u64 = ((-x) as u64) / (d as u64);
        -(q as i64)
    }
}

/// A numeric property value: a plain integer, or a fractional quantity in
/// milli units. `==` is structural — `Integer(1)` and `Fixed(1000)` are
/// distinct forms of the same reading — because the structural derive is
/// what lets every composite carrying a `Numeric` compare in specifications;
/// compare by reading with `value_eq` or over `as_milli`.
#[derive(Clone, Copy, Debug, PartialEq, Eq, Structural)]
pub enum Numeric {
    Integer(i64),
    Fixed(i64),
}

impl Default for Numeric {
    /// Zero, in the fixed-point form.
    fn default() -> (r: Self)
        ensures
            r == Numeric::Fixed(0),
    {
        Numeric::Fixed(0)
    }
}

impl Numeric {
    /// The mathematical reading of this value, in milli units.
    pub open spec fn as_milli(self) -> int {
        match self {
            Numeric::Integer(i) => i as int * MILLI_SCALE as int,
            Numeric::Fixed(m) => m as int,
        }
    }

    /// Values admitted to interpolation and layout arithmetic.
    pub open spec fn in_range(self) -> bool {
        -VAL_LIMIT as int <= self.as_milli() <= VAL_LIMIT as int
    }

    pub fn from_int(i: i64) -> (r: Numeric)
        ensures
            r == Numeric::Integer(i),
            r.as_milli() == i as int * MILLI_SCALE as int,
    {
        Numeric::Integer(i)
    }

    pub fn from_milli(m: i64) -> (r: Numeric)
        ensures
            r == Numeric::Fixed(m),
            r.as_milli() == m as int,
    {
        Numeric::Fixed(m)
    }

    /// Whether two values have the same mathematical reading, whatever form
    /// each is carried in.
    pub fn value_eq(&self, rhs: &Numeric) -> (r: bool)
        requires
            self.in_range(),
            rhs.in_range(),
        ensures
            r <==> self.as_milli() == rhs.as_milli(),
    {
        self.to_milli() == rhs.to_milli()
    }

    /// Whether this value carries a fractional (fixed-point) form.
    pub fn is_fixed(&self) -> (r: bool)
        ensures
            r == (self is Fixed),
    {
        match self {
            Numeric::Fixed(_) => true,
            Numeric::Integer(_) => false,
        }
    }

    /// The milli reading as a machine integer.
    pub fn to_milli(&self) -> (r: i64)
        requires
            self.in_range(),
        ensures
            r as int == self.as_milli(),
    {
        match self {
            Numeric::Integer(i) => *i * MILLI_SCALE,
            Numeric::Fixed(m) => *m,
        }
    }

    /// The integer reading, truncated toward zero for fixed-point values.
    pub fn to_int(&self) -> (r: i64)
        requires
            self.as_milli() > -0x7fff_ffff_ffff_ffff,
        ensures
            r == tdiv(self.as_milli(), MILLI_SCALE as int),
    {
        match self {
            Numeric::Integer(i) => {
                proof {
                    vstd::arithmetic::div_mod::lemma_div_multiples_vanish(
                        *i as int,
                        MILLI_SCALE as int,
                    );
                }
                *i
            },
            Numeric::Fixed(m) => div_trunc(*m, MILLI_SCALE),
        }
    }
}

/// Truncating division stays within a symmetric bound on the numerator.
pub proof fn lemma_tdiv_in_bounds(x: int, d: int, b: int)
    requires
        d > 0,
        0 <= b,
        -b <= x <= b,
    ensures
        -(b / d) <= tdiv(x, d) <= b / d,
{
    if x >= 0 {
        lemma_div_is_ordered(x, b, d);
        lemma_div_pos_is_pos(x, d);
        lemma_div_pos_is_pos(b, d);
    } else {
        lemma_div_is_ordered(-x, b, d);
        lemma_div_pos_is_pos(-x, d);
        lemma_div_pos_is_pos(b, d);
    }
}

/// Restrict a milli reading to the admitted value band.
pub open spec fn clamp_milli(x: int) -> int {
    if x < -(VAL_LIMIT as int) {
        -(VAL_LIMIT as int)
    } else if x > VAL_LIMIT as int {
        VAL_LIMIT as int
    } else {
        x
    }
}

/// Executable counterpart of `clamp_milli`.
pub fn clamp_val(x: i64) -> (r: i64)
    ensures
        r as int == clamp_milli(x as int),
        -VAL_LIMIT <= r <= VAL_LIMIT,
{
    if x < -VAL_LIMIT {
        -VAL_LIMIT
    } else if x > VAL_LIMIT {
        VAL_LIMIT
    } else {
        x
    }
}

/// Numbers blend linearly under the eased multiplier, in milli units; the
/// result is kept inside the admitted value band.
impl Interpolatable for Numeric {
    open spec fn valid(self) -> bool {
        self.in_range()
    }

    open spec fn interp_spec(self, other: Self, m: int) -> Self {
        Numeric::Fixed(
            clamp_milli(
                self.as_milli() + tdiv((other.as_milli() - self.as_milli()) * m, 1000),
            ) as i64,
        )
    }

    fn interpolate(&self, other: &Self, m: i64) -> (r: Self) {
        let a: i64 = self.to_milli();
        let b: i64 = other.to_milli();
        let d: i64 = b - a;
        proof {
            assert((b - a) * m <= 6_000_000_000_000 && (b - a) * m >= -6_000_000_000_000)
                by (nonlinear_arith)
                requires
                    -2_000_000_000 <= b - a <= 2_000_000_000,
                    -3000 <= m <= 3000,
            ;
            lemma_tdiv_in_bounds(d as int * m as int, 1000, 6_000_000_000_000);
        }
        let scaled: i64 = d * m;
        let q: i64 = div_trunc(scaled, 1000);
        Numeric::Fixed(clamp_val(a + q))
    }

    fn duplicate(&self) -> (r: Self) {
        *self
    }
}

impl Numeric {
    /// Sum; integer when both sides are integers, else fixed-point.
    pub fn add(&self, rhs: &Numeric) -> (r: Numeric)
        requires
            self.in_range(),
            rhs.in_range(),
        ensures
            r.as_milli() == self.as_milli() + rhs.as_milli(),
            r is Integer <==> (self is Integer && rhs is Integer),
    {
        match (self, rhs) {
            (Numeric::Integer(a), Numeric::Integer(b)) => Numeric::Integer(*a + *b),
            _ => Numeric::Fixed(self.to_milli() + rhs.to_milli()),
        }
    }

    /// Difference; integer when both sides are integers, else fixed-point.
    pub fn sub(&self, rhs: &Numeric) -> (r: Numeric)
        requires
            self.in_range(),
            rhs.in_range(),
        ensures
            r.as_milli() == self.as_milli() - rhs.as_milli(),
            r is Integer <==> (self is Integer && rhs is Integer),
    {
        match (self, rhs) {
            (Numeric::Integer(a), Numeric::Integer(b)) => Numeric::Integer(*a - *b),
            _ => Numeric::Fixed(self.to_milli() - rhs.to_milli()),
        }
    }

    /// Product; integer when both sides are integers, else fixed-point
    /// (truncated toward zero at milli precision).
    pub fn mul(&self, rhs: &Numeric) -> (r: Numeric)
        requires
            self.in_range(),
            rhs.in_range(),
        ensures
            r.as_milli() == mul_milli(self.as_milli(), rhs.as_milli()),
            r is Integer <==> (self is Integer && rhs is Integer),
    {
        match (self, rhs) {
            (Numeric::Integer(a), Numeric::Integer(b)) => {
                proof {
                    assert((*a as int * 1000) * (*b as int * 1000) == (*a as int * *b as int)
                        * 1_000_000 && -1_000_000_000_000 <= *a as int * *b as int
                        <= 1_000_000_000_000) by (nonlinear_arith)
                        requires
                            -1_000_000 <= *a <= 1_000_000,
                            -1_000_000 <= *b <= 1_000_000,
                    ;
                    lemma_mul_of_integers_scales(*a as int, *b as int);
                }
                Numeric::Integer(*a * *b)
            },
            _ => {
                let a: i64 = self.to_milli();
                let b: i64 = rhs.to_milli();
                proof {
                    assert(-1_000_000_000_000_000_000 <= a as int * b as int
                        <= 1_000_000_000_000_000_000) by (nonlinear_arith)
                        requires
                            -1_000_000_000 <= a <= 1_000_000_000,
                            -1_000_000_000 <= b <= 1_000_000_000,
                    ;
                }
                Numeric::Fixed(div_trunc(a * b, 1000))
            },
        }
    }

    /// Negation.
    pub fn neg(&self) -> (r: Numeric)
        requires
            self.in_range(),
        ensures
            r.as_milli() == -self.as_milli(),
            r is Integer <==> self is Integer,
    {
        match self {
            Numeric::Integer(a) => Numeric::Integer(-*a),
            Numeric::Fixed(m) => Numeric::Fixed(-*m),
        }
    }
}

/// The milli reading of a product of two milli readings, truncated toward
/// zero at milli precision.
pub open spec fn mul_milli(a: int, b: int) -> int {
    tdiv(a * b, 1000)
}

/// Bound on intermediate milli products of layout arithmetic.
pub const WIDE_LIMIT: i64 = 1_000_000_000_000_000;

/// `mul_milli`, saturated at the wide intermediate bound.
pub open spec fn mul_milli_sat(a: int, b: int) -> int {
    let p = tdiv(a * b, 1000);
    if p < -WIDE_LIMIT as int {
        -WIDE_LIMIT as int
    } else if p > WIDE_LIMIT as int {
        WIDE_LIMIT as int
    } else {
        p
    }
}

/// Saturating milli product over wide intermediates.
pub fn mul_sat(a: i64, b: i64) -> (r: i64)
    requires
        -WIDE_LIMIT <= a <= WIDE_LIMIT,
        -WIDE_LIMIT <= b <= WIDE_LIMIT,
    ensures
        r as int == mul_milli_sat(a as int, b as int),
        -WIDE_LIMIT <= r <= WIDE_LIMIT,
{
    proof {
        assert(-1_000_000_000_000_000_000_000_000_000_000
            <= a as int * b as int
            <= 1_000_000_000_000_000_000_000_000_000_000) by (nonlinear_arith)
            requires
                -1_000_000_000_000_000 <= a <= 1_000_000_000_000_000,
                -1_000_000_000_000_000 <= b <= 1_000_000_000_000_000,
        ;
        lemma_tdiv_in_bounds(a as int * b as int, 1000, 1_000_000_000_000_000_000_000_000_000_000);
    }
    let wide: i128 = (a as i128) * (b as i128);
    let q: i128 = if wide >= 0 {
        (((wide as u128) / 1000) as i128)
    } else {
        -((((-wide) as u128) / 1000) as i128)
    };
    if q < -WIDE_LIMIT as i128 {
        -WIDE_LIMIT
    } else if q > WIDE_LIMIT as i128 {
        WIDE_LIMIT
    } else {
        q as i64
    }
}

/// The product of two integer-valued readings scales cleanly: truncation
/// drops nothing when both factors are whole.
proof fn lemma_mul_of_integers_scales(a: int, b: int)
    requires
        -1_000_000 <= a <= 1_000_000,
        -1_000_000 <= b <= 1_000_000,
    ensures
        mul_milli(a * 1000, b * 1000) == (a * b) * 1000,
{
    assert((a * 1000) * (b * 1000) == (a * b * 1000) * 1000) by (nonlinear_arith);
    let p = a * b * 1000;
    if p >= 0 {
        lemma_div_multiples_vanish(p, 1000);
        assert(p * 1000 == 1000 * p) by (nonlinear_arith);
        assert(tdiv(p * 1000, 1000) == p);
    } else {
        lemma_div_multiples_vanish(-p, 1000);
        assert(-(p * 1000) == 1000 * -p) by (nonlinear_arith);
        assert(tdiv(p * 1000, 1000) == p);
    }
    assert((a * b) * 1000 == p);
}

/// Linear blending is exact at the endpoints: multiplier 0 reads as the
/// starting value and multiplier 1000 as the ending value.
pub proof fn lemma_numeric_interp_endpoints(a: Numeric, b: Numeric)
    requires
        a.valid(),
        b.valid(),
    ensures
        a.interp_spec(b, 0).as_milli() == a.as_milli(),
        a.interp_spec(b, 1000).as_milli() == b.as_milli(),
{
    let d = b.as_milli() - a.as_milli();
    assert(d * 0 == 0);
    assert(tdiv(0, 1000) == 0);
    if d >= 0 {
        lemma_div_multiples_vanish(d, 1000);
        assert(d * 1000 == 1000 * d) by (nonlinear_arith);
        assert(tdiv(d * 1000, 1000) == d);
    } else {
        lemma_div_multiples_vanish(-d, 1000);
        assert(-(d * 1000) == 1000 * -d) by (nonlinear_arith);
        assert(tdiv(d * 1000, 1000) == d);
    }
}

/// Integer exponentiation.
pub open spec fn int_pow(b: int, e: int) -> int
    decreases e,
{
    if e <= 0 {
        1
    } else {
        int_pow(b, e - 1) * b
    }
}

impl Numeric {
    /// Raise an integer value to a non-negative integer exponent; every
    /// intermediate power must fit the machine range.
    pub fn pow(&self, exp: &Numeric) -> (r: Numeric)
        requires
            (match (*self, *exp) {
                (Numeric::Integer(b), Numeric::Integer(e)) => 0 <= e && forall|k: int|
                    0 <= k <= e ==> -0x7fff_ffff_ffff_ffff <= #[trigger] int_pow(b as int, k)
                        <= 0x7fff_ffff_ffff_ffff,
                _ => false,
            }),
        ensures
            (match (*self, *exp) {
                (Numeric::Integer(b), Numeric::Integer(e)) => r == Numeric::Integer(
                    int_pow(b as int, e as int) as i64,
                ),
                _ => true,
            }),
    {
        let (b, e): (i64, i64) = match (self, exp) {
            (Numeric::Integer(b), Numeric::Integer(e)) => (*b, *e),
            _ => (0, 0),
        };
        let mut acc: i64 = 1;
        let mut i: i64 = 0;
        while i < e
            invariant
                0 <= i <= e,
                acc as int == int_pow(b as int, i as int),
                forall|k: int|
                    0 <= k <= e ==> -0x7fff_ffff_ffff_ffff <= #[trigger] int_pow(b as int, k)
                        <= 0x7fff_ffff_ffff_ffff,
            decreases e - i,
        {
            proof {
                assert(int_pow(b as int, i as int + 1) == int_pow(b as int, i as int) * (
                b as int));
                assert(-0x7fff_ffff_ffff_ffff <= int_pow(b as int, i as int + 1)
                    <= 0x7fff_ffff_ffff_ffff);
            }
            acc = acc * b;
            i = i + 1;
        }
        Numeric::Integer(acc)
    }

    /// The two-decimal rendering of this value: the milli reading rounded
    /// half away from zero to hundredths, as `-?digits.dd`.
    pub open spec fn display_2dp_spec(self) -> Seq<char> {
        let m = self.as_milli();
        let a = if m < 0 {
            -m
        } else {
            m
        };
        let total = (a + 5) / 10;
        let sign: Seq<char> = if m < 0 {
            seq!['-']
        } else {
            Seq::empty()
        };
        sign + crate::occlusion::spec_u32_decimal(total / 100) + seq!['.'] + seq![
            crate::occlusion::digit_char((total / 10) % 10),
            crate::occlusion::digit_char(total % 10),
        ]
    }

    /// Render with two decimal places.
    pub fn to_display_string(&self) -> (r: String)
        requires
            self.in_range(),
        ensures
            r@ == self.display_2dp_spec(),
    {
        let m: i64 = self.to_milli();
        let a: u64 = if m < 0 {
            (-m) as u64
        } else {
            m as u64
        };
        let total: u64 = (a + 5) / 10;
        let mut s = String::new();
        if m < 0 {
            s.append("-");
            proof {
                reveal_strlit("-");
            }
        }
        crate::occlusion::append_decimal(&mut s, (total / 100) as u32);
        s.append(".");
        proof {
            reveal_strlit(".");
        }
        crate::occlusion::push_digit(&mut s, ((total / 10) % 10) as u32);
        crate::occlusion::push_digit(&mut s, (total % 10) as u32);
        proof {
            assert(s@ =~= self.display_2dp_spec());
        }
        s
    }
}

} // verus!
