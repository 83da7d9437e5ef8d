//! Colors in fixed point. A channel reads onto the unit interval as a milli
//! value (0 ..= 1000); colors in RGB, RGBA, HSL and HSLA spaces, plus a set
//! of named constants, all resolve to four unit-interval channels.

use vstd::prelude::*;
use crate::interpolation::Interpolatable;
use crate::numeric::{div_trunc, tdiv, Numeric};
use crate::size::Rotation;

verus! {

/// One color channel: an integer in 0 ..= 255, or a percent in 0 ..= 100.
#[derive(Clone, Copy, Debug, PartialEq, Eq, Structural)]
pub enum ColorChannel {
    /// 0 ..= 255
    Integer(Numeric),
    /// 0 ..= 100
    Percent(Numeric),
}

impl Default for ColorChannel {
    /// Half intensity.
    fn default() -> (r: Self)
        ensures
            r == ColorChannel::Percent(Numeric::Fixed(50_000)),
    {
        ColorChannel::Percent(Numeric::Fixed(50_000))
    }
}

/// Clamp a milli reading onto the unit interval.
pub open spec fn clamp_unit(x: int) -> int {
    if x < 0 {
        0
    } else if x > 1000 {
        1000
    } else {
        x
    }
}

/// Executable counterpart of `clamp_unit`.
fn clamp_unit_val(x: i64) -> (r: i64)
    ensures
        r as int == clamp_unit(x as int),
        0 <= r <= 1000,
{
    if x < 0 {
        0
    } else if x > 1000 {
        1000
    } else {
        x
    }
}

impl ColorChannel {
    /// The wrapped component's milli reading.
    pub open spec fn component_milli(self) -> int {
        match self {
            ColorChannel::Integer(i) => i.as_milli(),
            ColorChannel::Percent(p) => p.as_milli(),
        }
    }

    /// The channel's admitted range: integers 0 ..= 255, percents 0 ..= 100.
    pub open spec fn wf(self) -> bool {
        match self {
            ColorChannel::Integer(i) => 0 <= i.as_milli() <= 255_000,
            ColorChannel::Percent(p) => 0 <= p.as_milli() <= 100_000,
        }
    }

    /// The channel's unit-interval reading in milli units.
    pub open spec fn unit_milli(self) -> int {
        match self {
            ColorChannel::Integer(i) => clamp_unit(tdiv(i.as_milli(), 255)),
            ColorChannel::Percent(p) => clamp_unit(tdiv(p.as_milli(), 100)),
        }
    }

    /// Normalize onto the unit interval, in fixed point.
    pub fn to_float_0_1(&self) -> (r: Numeric)
        requires
            self.wf(),
        ensures
            r.as_milli() == self.unit_milli(),
            0 <= r.as_milli() <= 1000,
    {
        match self {
            ColorChannel::Integer(i) => Numeric::Fixed(
                clamp_unit_val(div_trunc(i.to_milli(), 255)),
            ),
            ColorChannel::Percent(p) => Numeric::Fixed(
                clamp_unit_val(div_trunc(p.to_milli(), 100)),
            ),
        }
    }
}

/// Four unit-interval channels in milli units, the resolved form every color
/// reduces to.
#[derive(Clone, Copy, Debug, PartialEq, Eq, Structural)]
pub struct Rgba {
    pub red: i64,
    pub green: i64,
    pub blue: i64,
    pub alpha: i64,
}

impl Rgba {
    pub open spec fn wf(self) -> bool {
        &&& 0 <= self.red <= 1000
        &&& 0 <= self.green <= 1000
        &&& 0 <= self.blue <= 1000
        &&& 0 <= self.alpha <= 1000
    }
}

/// A color: an RGB/RGBA/HSL/HSLA value or a named constant.
#[allow(non_camel_case_types)]
#[derive(Clone, Copy, Debug, PartialEq, Eq, Structural)]
pub enum Color {
    /// RGB with a full alpha channel.
    rgb(ColorChannel, ColorChannel, ColorChannel),
    /// RGBA.
    rgba(ColorChannel, ColorChannel, ColorChannel, ColorChannel),
    /// HSL: hue as a rotation, saturation and lightness as channels.
    hsl(Rotation, ColorChannel, ColorChannel),
    /// HSLA.
    hsla(Rotation, ColorChannel, ColorChannel, ColorChannel),
    SLATE,
    GRAY,
    ZINC,
    NEUTRAL,
    STONE,
    RED,
    ORANGE,
    AMBER,
    YELLOW,
    LIME,
    GREEN,
    EMERALD,
    TEAL,
    CYAN,
    SKY,
    BLUE,
    INDIGO,
    VIOLET,
    PURPLE,
    FUCHSIA,
    PINK,
    ROSE,
    BLACK,
    WHITE,
    TRANSPARENT,
    NONE,
}

impl Default for Color {
    fn default() -> (r: Self)
        ensures
            r == Color::SLATE,
    {
        Color::SLATE
    }
}

/// Wrap `x` into `0 ..= entire` by repeatedly shifting a whole period, the
/// hue-fraction normalization of the HSL conversion.
pub open spec fn bound_spec(x: int, entire: int) -> int
    recommends
        entire > 0,
    decreases (if x < 0 {
        entire - x
    } else {
        x
    })
    when entire > 0
{
    if x < 0 {
        bound_spec(x + entire, entire)
    } else if x > entire {
        bound_spec(x - entire, entire)
    } else {
        x
    }
}

/// Executable hue wrap; mirrors `bound_spec` exactly. The admitted ranges
/// comfortably cover the milli value band (hue fractions here stay within
/// one period of 1000), while keeping the loop's arithmetic in machine
/// range.
pub fn bound(x: i64, entire: i64) -> (r: i64)
    requires
        0 < entire <= 1_000_000,
        -2_000_000_000 <= x <= 2_000_000_000,
    ensures
        r as int == bound_spec(x as int, entire as int),
        0 <= r <= entire,
{
    let mut n: i64 = x;
    loop
        invariant
            0 < entire <= 1_000_000,
            -2_000_000_000 <= n <= 2_000_001_000,
            bound_spec(n as int, entire as int) == bound_spec(x as int, entire as int),
        decreases (if n < 0 {
            entire as int - n as int
        } else {
            n as int
        }),
    {
        let less = n < 0;
        let bigger = n > entire;
        if !less && !bigger {
            return n;
        }
        if less {
            n = n + entire;
        } else {
            n = n - entire;
        }
    }
}

/// One channel of the HSL-to-RGB conversion, from a wrapped hue fraction and
/// the two lightness blend terms, all on the milli unit interval. The
/// falling branch scales by `4 - 6u` directly, which is exact where the
/// branch is taken, so the result never leaves `[temp2, temp1]`.
pub open spec fn calc_rgb_unit_spec(unit: int, temp1: int, temp2: int) -> int {
    if 6 * unit < 1000 {
        temp2 + tdiv((temp1 - temp2) * (6 * unit), 1000)
    } else if 2 * unit < 1000 {
        temp1
    } else if 3 * unit < 2000 {
        temp2 + tdiv((temp1 - temp2) * (4000 - 6 * unit), 1000)
    } else {
        temp2
    }
}

/// Executable counterpart of `calc_rgb_unit_spec`; the result stays on the
/// milli unit interval.
fn calc_rgb_unit(unit: i64, temp1: i64, temp2: i64) -> (r: i64)
    requires
        0 <= unit <= 1000,
        0 <= temp2 <= temp1 <= 1000,
    ensures
        r as int == calc_rgb_unit_spec(unit as int, temp1 as int, temp2 as int),
        temp2 <= r <= temp1,
{
    proof {
        assert(-4_000_000 <= (temp1 - temp2) * (6 * unit) <= 6_000_000 && -4_000_000 <= (temp1
            - temp2) * (4000 - 6 * unit) <= 4_000_000) by (nonlinear_arith)
            requires
                0 <= unit <= 1000,
                0 <= temp1 - temp2 <= 1000,
        ;
        lemma_scaled_diff_in_unit(temp1 as int, temp2 as int, 6 * unit as int);
        lemma_scaled_diff_in_unit(temp1 as int, temp2 as int, 4000 - 6 * unit as int);
    }
    if 6 * unit < 1000 {
        temp2 + div_trunc((temp1 - temp2) * (6 * unit), 1000)
    } else if 2 * unit < 1000 {
        temp1
    } else if 3 * unit < 2000 {
        temp2 + div_trunc((temp1 - temp2) * (4000 - 6 * unit), 1000)
    } else {
        temp2
    }
}

/// Scaling a unit-interval difference by a factor of at most one (in milli
/// units) keeps the shift inside the difference.
proof fn lemma_scaled_diff_in_unit(temp1: int, temp2: int, f: int)
    requires
        0 <= temp2 <= temp1 <= 1000,
    ensures
        0 <= f <= 1000 ==> 0 <= tdiv((temp1 - temp2) * f, 1000) <= temp1 - temp2,
{
    if 0 <= f <= 1000 {
        let d = temp1 - temp2;
        assert(0 <= d * f <= d * 1000 && d * 1000 == 1000 * d) by (nonlinear_arith)
            requires
                0 <= d <= 1000,
                0 <= f <= 1000,
        ;
        assert(tdiv(d * f, 1000) == d * f / 1000);
        vstd::arithmetic::div_mod::lemma_div_is_ordered(d * f, 1000 * d, 1000);
        vstd::arithmetic::div_mod::lemma_div_multiples_vanish(d, 1000);
        vstd::arithmetic::div_mod::lemma_div_pos_is_pos(d * f, 1000);
    }
}

/// The HSL-to-RGB conversion on milli unit readings: hue as a fraction of a
/// turn, saturation and lightness on the unit interval; yields the three RGB
/// unit readings.
pub open spec fn hsl_to_rgb_spec(h: int, s: int, l: int) -> (int, int, int) {
    if s == 0 {
        (l, l, l)
    } else {
        let temp1 = if l < 500 {
            tdiv(l * (1000 + s), 1000)
        } else {
            l + s - tdiv(l * s, 1000)
        };
        let temp2 = 2 * l - temp1;
        let temp_r = bound_spec(h + 333, 1000);
        let temp_g = bound_spec(h, 1000);
        let temp_b = bound_spec(h - 333, 1000);
        (
            calc_rgb_unit_spec(temp_r, temp1, temp2),
            calc_rgb_unit_spec(temp_g, temp1, temp2),
            calc_rgb_unit_spec(temp_b, temp1, temp2),
        )
    }
}

/// Executable HSL-to-RGB conversion; mirrors `hsl_to_rgb_spec`.
pub fn hsl_to_rgb(h: i64, s: i64, l: i64) -> (r: (i64, i64, i64))
    requires
        -1_000_000_000 <= h <= 1_000_000_000,
        0 <= s <= 1000,
        0 <= l <= 1000,
    ensures
        (r.0 as int, r.1 as int, r.2 as int) == hsl_to_rgb_spec(h as int, s as int, l as int),
        0 <= r.0 <= 1000,
        0 <= r.1 <= 1000,
        0 <= r.2 <= 1000,
        s == 0 ==> r.0 == l && r.1 == l && r.2 == l,
{
    if s == 0 {
        return (l, l, l);
    }
    let temp1: i64 = if l < 500 {
        proof {
            assert(0 <= l * (1000 + s) <= 1_000_000) by (nonlinear_arith)
                requires
                    0 <= l < 500,
                    0 <= s <= 1000,
            ;
            crate::numeric::lemma_tdiv_in_bounds(l as int * (1000 + s as int), 1000, 1_000_000);
        }
        div_trunc(l * (1000 + s), 1000)
    } else {
        proof {
            assert(0 <= l * s <= 1_000_000) by (nonlinear_arith)
                requires
                    0 <= l <= 1000,
                    0 <= s <= 1000,
            ;
            crate::numeric::lemma_tdiv_in_bounds(l as int * s as int, 1000, 1_000_000);
        }
        l + s - div_trunc(l * s, 1000)
    };
    proof {
        lemma_temp1_bounds(h as int, s as int, l as int, temp1 as int);
    }
    let temp2: i64 = 2 * l - temp1;
    let temp_r: i64 = bound(h + 333, 1000);
    let temp_g: i64 = bound(h, 1000);
    let temp_b: i64 = bound(h - 333, 1000);
    let red = calc_rgb_unit(temp_r, temp1, temp2);
    let green = calc_rgb_unit(temp_g, temp1, temp2);
    let blue = calc_rgb_unit(temp_b, temp1, temp2);
    (red, green, blue)
}

/// The unit reading of an integer channel value in 0 ..= 255.
pub open spec fn int_unit(v: int) -> int {
    clamp_unit(tdiv(v * 1000, 255))
}

/// Executable counterpart of `int_unit`.
fn int_unit_val(v: i64) -> (r: i64)
    requires
        0 <= v <= 255,
    ensures
        r as int == int_unit(v as int),
        0 <= r <= 1000,
{
    clamp_unit_val(div_trunc(v * 1000, 255))
}

impl Color {
    /// Channels sit in their admitted ranges.
    pub open spec fn wf(self) -> bool {
        match self {
            Color::rgb(r, g, b) => r.wf() && g.wf() && b.wf(),
            Color::rgba(r, g, b, a) => r.wf() && g.wf() && b.wf() && a.wf(),
            Color::hsl(h, s, l) => h.in_range() && s.wf() && l.wf(),
            Color::hsla(h, s, l, a) => h.in_range() && s.wf() && l.wf() && a.wf(),
            _ => true,
        }
    }

    /// The four resolved unit-interval channel readings, in milli units.
    pub open spec fn rgba_spec(self) -> (int, int, int, int) {
        match self {
            Color::rgba(r, g, b, a) => (r.unit_milli(), g.unit_milli(), b.unit_milli(),
            a.unit_milli()),
            Color::rgb(r, g, b) => (r.unit_milli(), g.unit_milli(), b.unit_milli(), 1000),
            Color::hsl(h, s, l) => {
                let hue = tdiv(crate::numeric::clamp_milli(h.as_percent_milli()), 100);
                let (red, green, blue) = hsl_to_rgb_spec(hue, s.unit_milli(), l.unit_milli());
                (clamp_unit(red), clamp_unit(green), clamp_unit(blue), 1000)
            },
            Color::hsla(h, s, l, a) => {
                let hue = tdiv(crate::numeric::clamp_milli(h.as_percent_milli()), 100);
                let (red, green, blue) = hsl_to_rgb_spec(hue, s.unit_milli(), l.unit_milli());
                (clamp_unit(red), clamp_unit(green), clamp_unit(blue), a.unit_milli())
            },
            Color::SLATE => (int_unit(0x64), int_unit(0x74), int_unit(0x8b), 1000),
            Color::GRAY => (int_unit(0x6b), int_unit(0x72), int_unit(0x80), 1000),
            Color::ZINC => (int_unit(0x71), int_unit(0x71), int_unit(0x7a), 1000),
            Color::NEUTRAL => (int_unit(0x73), int_unit(0x73), int_unit(0x73), 1000),
            Color::STONE => (int_unit(0x78), int_unit(0x71), int_unit(0x6c), 1000),
            Color::RED => (int_unit(0xef), int_unit(0x44), int_unit(0x44), 1000),
            Color::ORANGE => (int_unit(0xf9), int_unit(0x73), int_unit(0x16), 1000),
            Color::AMBER => (int_unit(0xf5), int_unit(0x9e), int_unit(0x0b), 1000),
            Color::YELLOW => (int_unit(0xea), int_unit(0xb3), int_unit(0x08), 1000),
            Color::LIME => (int_unit(0x84), int_unit(0xcc), int_unit(0x16), 1000),
            Color::GREEN => (int_unit(0x22), int_unit(0xc5), int_unit(0x5e), 1000),
            Color::EMERALD => (int_unit(0x10), int_unit(0xb9), int_unit(0x81), 1000),
            Color::TEAL => (int_unit(0x14), int_unit(0xb8), int_unit(0xa6), 1000),
            Color::CYAN => (int_unit(0x06), int_unit(0xb6), int_unit(0xd4), 1000),
            Color::SKY => (int_unit(0x0e), int_unit(0xa5), int_unit(0xe9), 1000),
            Color::BLUE => (int_unit(0x3b), int_unit(0x82), int_unit(0xf6), 1000),
            Color::INDIGO => (int_unit(0x63), int_unit(0x66), int_unit(0xf1), 1000),
            Color::VIOLET => (int_unit(0x8b), int_unit(0x5c), int_unit(0xf6), 1000),
            Color::PURPLE => (int_unit(0xa8), int_unit(0x55), int_unit(0xf7), 1000),
            Color::FUCHSIA => (int_unit(0xd9), int_unit(0x46), int_unit(0xef), 1000),
            Color::PINK => (int_unit(0xec), int_unit(0x48), int_unit(0x99), 1000),
            Color::ROSE => (int_unit(0xf4), int_unit(0x3f), int_unit(0x5e), 1000),
            Color::BLACK => (int_unit(0x00), int_unit(0x00), int_unit(0x00), 1000),
            Color::WHITE => (int_unit(0xff), int_unit(0xff), int_unit(0xff), 1000),
            Color::TRANSPARENT => (int_unit(0xff), int_unit(0xff), int_unit(0xff), 0),
            Color::NONE => (int_unit(0xff), int_unit(0xff), int_unit(0xff), 0),
        }
    }

    /// Resolve to four unit-interval channels: RGB forms normalize their
    /// channels, HSL forms run the fixed-point HSL conversion, and named
    /// constants read from the built-in table.
    pub fn to_rgba_0_1(&self) -> (r: Rgba)
        requires
            self.wf(),
        ensures
            (r.red as int, r.green as int, r.blue as int, r.alpha as int) == self.rgba_spec(),
            r.wf(),
    {
        match self {
            Color::rgba(cr, cg, cb, ca) => Rgba {
                red: cr.to_float_0_1().to_milli(),
                green: cg.to_float_0_1().to_milli(),
                blue: cb.to_float_0_1().to_milli(),
                alpha: ca.to_float_0_1().to_milli(),
            },
            Color::rgb(cr, cg, cb) => Rgba {
                red: cr.to_float_0_1().to_milli(),
                green: cg.to_float_0_1().to_milli(),
                blue: cb.to_float_0_1().to_milli(),
                alpha: 1000,
            },
            Color::hsl(h, s, l) => {
                let (red, green, blue) = Self::hsl_channels(h, s, l);
                Rgba { red, green, blue, alpha: 1000 }
            },
            Color::hsla(h, s, l, a) => {
                let (red, green, blue) = Self::hsl_channels(h, s, l);
                Rgba { red, green, blue, alpha: a.to_float_0_1().to_milli() }
            },
            Color::SLATE => Self::named(0x64, 0x74, 0x8b, 1000),
            Color::GRAY => Self::named(0x6b, 0x72, 0x80, 1000),
            Color::ZINC => Self::named(0x71, 0x71, 0x7a, 1000),
            Color::NEUTRAL => Self::named(0x73, 0x73, 0x73, 1000),
            Color::STONE => Self::named(0x78, 0x71, 0x6c, 1000),
            Color::RED => Self::named(0xef, 0x44, 0x44, 1000),
            Color::ORANGE => Self::named(0xf9, 0x73, 0x16, 1000),
            Color::AMBER => Self::named(0xf5, 0x9e, 0x0b, 1000),
            Color::YELLOW => Self::named(0xea, 0xb3, 0x08, 1000),
            Color::LIME => Self::named(0x84, 0xcc, 0x16, 1000),
            Color::GREEN => Self::named(0x22, 0xc5, 0x5e, 1000),
            Color::EMERALD => Self::named(0x10, 0xb9, 0x81, 1000),
            Color::TEAL => Self::named(0x14, 0xb8, 0xa6, 1000),
            Color::CYAN => Self::named(0x06, 0xb6, 0xd4, 1000),
            Color::SKY => Self::named(0x0e, 0xa5, 0xe9, 1000),
            Color::BLUE => Self::named(0x3b, 0x82, 0xf6, 1000),
            Color::INDIGO => Self::named(0x63, 0x66, 0xf1, 1000),
            Color::VIOLET => Self::named(0x8b, 0x5c, 0xf6, 1000),
            Color::PURPLE => Self::named(0xa8, 0x55, 0xf7, 1000),
            Color::FUCHSIA => Self::named(0xd9, 0x46, 0xef, 1000),
            Color::PINK => Self::named(0xec, 0x48, 0x99, 1000),
            Color::ROSE => Self::named(0xf4, 0x3f, 0x5e, 1000),
            Color::BLACK => Self::named(0x00, 0x00, 0x00, 1000),
            Color::WHITE => Self::named(0xff, 0xff, 0xff, 1000),
            Color::TRANSPARENT => Self::named(0xff, 0xff, 0xff, 0),
            Color::NONE => Self::named(0xff, 0xff, 0xff, 0),
        }
    }

    /// The three RGB channels of an HSL form, clamped onto the unit interval.
    fn hsl_channels(h: &Rotation, s: &ColorChannel, l: &ColorChannel) -> (r: (i64, i64, i64))
        requires
            h.in_range(),
            s.wf(),
            l.wf(),
        ensures
            ({
                let hue = tdiv(crate::numeric::clamp_milli(h.as_percent_milli()), 100);
                let (red, green, blue) = hsl_to_rgb_spec(
                    hue,
                    s.unit_milli(),
                    l.unit_milli(),
                );
                r.0 as int == clamp_unit(red) && r.1 as int == clamp_unit(green) && r.2 as int
                    == clamp_unit(blue)
            }),
            0 <= r.0 <= 1000,
            0 <= r.1 <= 1000,
            0 <= r.2 <= 1000,
    {
        let hp: i64 = h.percent_reading();
        proof {
            crate::numeric::lemma_tdiv_in_bounds(hp as int, 100, 1_000_000_000);
        }
        let hue: i64 = div_trunc(hp, 100);
        let su: i64 = s.to_float_0_1().to_milli();
        let lu: i64 = l.to_float_0_1().to_milli();
        let (red, green, blue) = hsl_to_rgb(hue, su, lu);
        (clamp_unit_val(red), clamp_unit_val(green), clamp_unit_val(blue))
    }

    /// A named color's resolved channels.
    fn named(red: i64, green: i64, blue: i64, alpha: i64) -> (r: Rgba)
        requires
            0 <= red <= 255,
            0 <= green <= 255,
            0 <= blue <= 255,
            0 <= alpha <= 1000,
        ensures
            r.red as int == int_unit(red as int),
            r.green as int == int_unit(green as int),
            r.blue as int == int_unit(blue as int),
            r.alpha == alpha,
            r.wf(),
    {
        Rgba {
            red: int_unit_val(red),
            green: int_unit_val(green),
            blue: int_unit_val(blue),
            alpha,
        }
    }

    /// Build an RGBA color from four unit-interval channel readings.
    pub fn from_rgba_0_1(rgba: Rgba) -> (r: Color)
        requires
            rgba.wf(),
        ensures
            r == Color::rgba(
                ColorChannel::Percent(Numeric::Fixed((rgba.red * 100) as i64)),
                ColorChannel::Percent(Numeric::Fixed((rgba.green * 100) as i64)),
                ColorChannel::Percent(Numeric::Fixed((rgba.blue * 100) as i64)),
                ColorChannel::Percent(Numeric::Fixed((rgba.alpha * 100) as i64)),
            ),
            r.wf(),
    {
        Color::rgba(
            ColorChannel::Percent(Numeric::Fixed(rgba.red * 100)),
            ColorChannel::Percent(Numeric::Fixed(rgba.green * 100)),
            ColorChannel::Percent(Numeric::Fixed(rgba.blue * 100)),
            ColorChannel::Percent(Numeric::Fixed(rgba.alpha * 100)),
        )
    }
}

/// Blend a unit-interval channel toward another under an eased multiplier,
/// clamped back onto the unit interval.
pub open spec fn lerp_unit(a: int, b: int, m: int) -> int {
    clamp_unit(a + tdiv((b - a) * m, 1000))
}

/// Executable counterpart of `lerp_unit`.
fn lerp_unit_val(a: i64, b: i64, m: i64) -> (r: i64)
    requires
        0 <= a <= 1000,
        0 <= b <= 1000,
        -3000 <= m <= 3000,
    ensures
        r as int == lerp_unit(a as int, b as int, m as int),
        0 <= r <= 1000,
{
    proof {
        assert(-3_000_000 <= (b - a) * m <= 3_000_000) by (nonlinear_arith)
            requires
                -1000 <= b - a <= 1000,
                -3000 <= m <= 3000,
        ;
        crate::numeric::lemma_tdiv_in_bounds((b - a) as int * m as int, 1000, 3_000_000);
    }
    clamp_unit_val(a + div_trunc((b - a) * m, 1000))
}

/// Colors blend channel-wise in resolved RGBA space; the result is produced
/// as an RGBA color with percent channels.
impl Interpolatable for Color {
    open spec fn valid(self) -> bool {
        self.wf()
    }

    open spec fn interp_spec(self, other: Self, m: int) -> Self {
        let (r0, g0, b0, a0) = self.rgba_spec();
        let (r1, g1, b1, a1) = other.rgba_spec();
        Color::rgba(
            ColorChannel::Percent(Numeric::Fixed((lerp_unit(r0, r1, m) * 100) as i64)),
            ColorChannel::Percent(Numeric::Fixed((lerp_unit(g0, g1, m) * 100) as i64)),
            ColorChannel::Percent(Numeric::Fixed((lerp_unit(b0, b1, m) * 100) as i64)),
            ColorChannel::Percent(Numeric::Fixed((lerp_unit(a0, a1, m) * 100) as i64)),
        )
    }

    fn interpolate(&self, other: &Self, m: i64) -> (r: Self) {
        let ra: Rgba = self.to_rgba_0_1();
        let rb: Rgba = other.to_rgba_0_1();
        Color::rgba(
            ColorChannel::Percent(Numeric::Fixed(lerp_unit_val(ra.red, rb.red, m) * 100)),
            ColorChannel::Percent(Numeric::Fixed(lerp_unit_val(ra.green, rb.green, m) * 100)),
            ColorChannel::Percent(Numeric::Fixed(lerp_unit_val(ra.blue, rb.blue, m) * 100)),
            ColorChannel::Percent(Numeric::Fixed(lerp_unit_val(ra.alpha, rb.alpha, m) * 100)),
        )
    }

    fn duplicate(&self) -> (r: Self) {
        *self
    }
}

/// The lightness blend terms of the HSL conversion satisfy
/// `0 <= temp2 <= temp1 <= 1000`.
proof fn lemma_temp1_bounds(h: int, s: int, l: int, temp1: int)
    requires
        0 < s <= 1000,
        0 <= l <= 1000,
        temp1 == (if l < 500 {
            tdiv(l * (1000 + s), 1000)
        } else {
            l + s - tdiv(l * s, 1000)
        }),
    ensures
        0 <= 2 * l - temp1 <= temp1 <= 1000,
{
    if l < 500 {
        assert(1000 * l <= l * (1000 + s) <= 1000 * (2 * l) && 0 <= l * (1000 + s) <= 1_000_000)
            by (nonlinear_arith)
            requires
                0 <= l < 500,
                0 < s <= 1000,
        ;
        assert(tdiv(l * (1000 + s), 1000) == l * (1000 + s) / 1000);
        vstd::arithmetic::div_mod::lemma_div_is_ordered(1000 * l, l * (1000 + s), 1000);
        vstd::arithmetic::div_mod::lemma_div_is_ordered(l * (1000 + s), 1000 * (2 * l), 1000);
        vstd::arithmetic::div_mod::lemma_div_multiples_vanish(l, 1000);
        vstd::arithmetic::div_mod::lemma_div_multiples_vanish(2 * l, 1000);
    } else {
        // l * s is at least 1000 * (l + s - 1000), at least 1000 * (s - l)
        // (using l >= 500), and at most 1000 * s.
        assert(0 <= l * s <= 1_000_000 && 1000 * (l + s - 1000) <= l * s && 1000 * (s - l) <= l * s
            && l * s <= 1000 * s) by (nonlinear_arith)
            requires
                500 <= l <= 1000,
                0 < s <= 1000,
        ;
        assert(tdiv(l * s, 1000) == l * s / 1000);
        vstd::arithmetic::div_mod::lemma_div_is_ordered(1000 * (l + s - 1000), l * s, 1000);
        vstd::arithmetic::div_mod::lemma_div_is_ordered(1000 * (s - l), l * s, 1000);
        vstd::arithmetic::div_mod::lemma_div_is_ordered(l * s, 1000 * s, 1000);
        vstd::arithmetic::div_mod::lemma_div_multiples_vanish(l + s - 1000, 1000);
        vstd::arithmetic::div_mod::lemma_div_multiples_vanish(s - l, 1000);
        vstd::arithmetic::div_mod::lemma_div_multiples_vanish(s, 1000);
    }
}

} // verus!
