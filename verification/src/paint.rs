//! Paint descriptions: strokes, solid fills and gradients. The geometry
//! helpers normalize gradient control points against the element's bounds;
//! handing the result to a back end is the host's business.

use vstd::prelude::*;
use crate::color::Color;
use crate::numeric::{div_trunc, tdiv, Numeric};
use crate::property::Property;
use crate::size::Size;

verus! {

/// A stroke: a color cell and a width cell.
pub struct Stroke {
    pub color: Property<Color>,
    pub width: Property<Size>,
}

impl Default for Stroke {
    fn default() -> (r: Self)
        ensures
            r.color.value == Color::SLATE,
            r.width.value == Size::Pixels(Numeric::Fixed(0)),
            r.color.wf(),
            r.width.wf(),
    {
        Stroke {
            color: Property::new(Color::default()),
            width: Property::new(Size::Pixels(Numeric::Fixed(0))),
        }
    }
}

/// One gradient stop: a position along the gradient (in percent) and a
/// color.
#[derive(Clone, Copy, Debug, PartialEq, Eq, Structural)]
pub struct GradientStop {
    pub position: Size,
    pub color: Color,
}

impl GradientStop {
    pub fn get(color: Color, position: Size) -> (r: GradientStop)
        ensures
            r == (GradientStop { position, color }),
    {
        GradientStop { position, color }
    }
}

/// A linear gradient between two control points.
pub struct LinearGradient {
    pub start: (Size, Size),
    pub end: (Size, Size),
    pub stops: Vec<GradientStop>,
}

/// A radial gradient between two control points with a radius.
pub struct RadialGradient {
    pub end: (Size, Size),
    pub start: (Size, Size),
    pub radius: Numeric,
    pub stops: Vec<GradientStop>,
}

/// A fill: a solid color or a gradient.
pub enum Fill {
    Solid(Color),
    LinearGradient(LinearGradient),
    RadialGradient(RadialGradient),
}

impl Default for Fill {
    fn default() -> (r: Self)
        ensures
            r == Fill::Solid(Color::SLATE),
    {
        Fill::Solid(Color::default())
    }
}

/// The unit-interval reading of one control-point coordinate against a
/// bound: pixels read per bound, percents per hundred, combined forms sum
/// both parts.
pub open spec fn unit_coord_spec(v: Size, bound: int) -> int {
    tdiv(v.pixel_milli() * 1000, bound) + tdiv(v.percent_milli(), 100)
}

impl Fill {
    /// Normalize a control point against the element's bounds, yielding
    /// unit-interval coordinates in milli units (1000 is the far edge).
    pub fn to_unit_point(point: (Size, Size), bounds: (Numeric, Numeric)) -> (r: (
        Numeric,
        Numeric,
    ))
        requires
            point.0.in_range(),
            point.1.in_range(),
            bounds.0.in_range(),
            bounds.1.in_range(),
            bounds.0.as_milli() > 0,
            bounds.1.as_milli() > 0,
        ensures
            r.0.as_milli() == unit_coord_spec(point.0, bounds.0.as_milli()),
            r.1.as_milli() == unit_coord_spec(point.1, bounds.1.as_milli()),
    {
        (
            Numeric::Fixed(unit_coord(&point.0, &bounds.0)),
            Numeric::Fixed(unit_coord(&point.1, &bounds.1)),
        )
    }

    #[allow(non_snake_case)]
    pub fn linearGradient(start: (Size, Size), end: (Size, Size), stops: Vec<GradientStop>) -> (r:
        Fill)
        ensures
            (match r {
                Fill::LinearGradient(g) => g.start == start && g.end == end && g.stops@
                    == stops@,
                _ => false,
            }),
    {
        Fill::LinearGradient(LinearGradient { start, end, stops })
    }

    /// Normalize gradient stops to unit-interval positions. Stops must be
    /// given in percentages; a pixel or combined stop is a description
    /// defect and is rejected, naming nothing valid.
    pub fn to_normalized_gradient_stops(stops: &Vec<GradientStop>) -> (r: Result<
        Vec<(Numeric, Color)>,
        crate::coproduct::StateError,
    >)
        requires
            forall|i: int| 0 <= i < stops@.len() ==> (#[trigger] stops@[i]).position.in_range(),
        ensures
            (match r {
                Result::Ok(v) => {
                    &&& v@.len() == stops@.len()
                    &&& (forall|i: int|
                        0 <= i < stops@.len() ==> (#[trigger] stops@[i]).position is Percent)
                    &&& (forall|i: int|
                        0 <= i < v@.len() ==> (#[trigger] v@[i]).0.as_milli() == tdiv(
                            stops@[i].position.percent_milli(),
                            100,
                        ) && v@[i].1 == stops@[i].color)
                },
                Result::Err(_) => exists|i: int|
                    0 <= i < stops@.len() && !((#[trigger] stops@[i]).position is Percent),
            }),
    {
        let mut r: Vec<(Numeric, Color)> = Vec::new();
        let mut i: usize = 0;
        while i < stops.len()
            invariant
                i <= stops@.len(),
                r@.len() == i,
                forall|k: int|
                    0 <= k < stops@.len() ==> (#[trigger] stops@[k]).position.in_range(),
                forall|k: int|
                    0 <= k < i ==> (#[trigger] stops@[k]).position is Percent,
                forall|k: int|
                    0 <= k < i ==> (#[trigger] r@[k]).0.as_milli() == tdiv(
                        stops@[k].position.percent_milli(),
                        100,
                    ) && r@[k].1 == stops@[k].color,
            decreases stops@.len() - i,
        {
            let stop = stops[i];
            match stop.position {
                Size::Percent(p) => {
                    r.push((Numeric::Fixed(div_trunc(p.to_milli(), 100)), stop.color));
                },
                _ => {
                    return Result::Err(crate::coproduct::StateError::TypeMismatch);
                },
            }
            i = i + 1;
        }
        Result::Ok(r)
    }
}

/// One coordinate of `to_unit_point`.
fn unit_coord(v: &Size, bound: &Numeric) -> (r: i64)
    requires
        v.in_range(),
        bound.in_range(),
        bound.as_milli() > 0,
    ensures
        r as int == unit_coord_spec(*v, bound.as_milli()),
{
    let b: i64 = bound.to_milli();
    let pix: i64 = match v {
        Size::Pixels(p) => p.to_milli(),
        Size::Percent(_) => 0,
        Size::Combined(p, _) => p.to_milli(),
    };
    let per: i64 = match v {
        Size::Pixels(_) => 0,
        Size::Percent(p) => p.to_milli(),
        Size::Combined(_, p) => p.to_milli(),
    };
    proof {
        assert(-1_000_000_000_000 <= pix as int * 1000 <= 1_000_000_000_000);
        crate::numeric::lemma_tdiv_in_bounds(pix as int * 1000, b as int, 1_000_000_000_000);
        crate::numeric::lemma_tdiv_in_bounds(per as int, 100, 1_000_000_000);
    }
    div_trunc(pix * 1000, b) + div_trunc(per, 100)
}

} // verus!
