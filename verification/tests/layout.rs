//! Layout quantities: sizes resolve against current-frame bounds, rotations
//! convert between units, and transforms chain root to leaf.

use pax_runtime_core::interpolation::Interpolatable;
use pax_runtime_core::numeric::Numeric;
use pax_runtime_core::size::{Axis, Percent, Rotation, Size};
use pax_runtime_core::transform::Transform2D;

#[test]
fn percent_resolves_against_parent_bounds() {
    let half = Size::Percent(Numeric::from_int(50));
    assert_eq!(half.get_pixels(Numeric::from_int(400)).to_int(), 200);
    let bounds = (Numeric::from_int(400), Numeric::from_int(300));
    assert_eq!(half.evaluate(bounds, Axis::X).to_int(), 200);
    assert_eq!(half.evaluate(bounds, Axis::Y).to_int(), 150);
}

#[test]
fn pixels_pass_through_and_combined_sums() {
    let px = Size::Pixels(Numeric::from_int(120));
    assert_eq!(px.get_pixels(Numeric::from_int(400)), Numeric::Integer(120));
    let combined = Size::Combined(Numeric::from_int(10), Numeric::from_int(25));
    assert_eq!(combined.get_pixels(Numeric::from_int(400)), Numeric::Fixed(110_000));
}

#[test]
fn size_sum_and_difference_are_component_wise() {
    let a = Size::Pixels(Numeric::from_int(10));
    let b = Size::Percent(Numeric::from_int(20));
    let sum = a.add(&b);
    assert_eq!(sum, Size::Combined(Numeric::Fixed(10_000), Numeric::Fixed(20_000)));
    let diff = a.sub(&b);
    assert_eq!(diff, Size::Combined(Numeric::Fixed(10_000), Numeric::Fixed(-20_000)));
    assert_eq!(a.neg(), Size::Pixels(Numeric::Integer(-10)));
}

#[test]
fn size_product_composes_translations() {
    // two pixel values add, in the sense of composing affine translations
    let a = Size::Pixels(Numeric::from_int(10));
    let b = Size::Pixels(Numeric::from_int(5));
    assert_eq!(a.mul(&b), Size::Pixels(Numeric::Fixed(15_000)));
    // a percent factor scales raw
    let p = Size::Percent(Numeric::from_int(2));
    assert_eq!(a.mul(&p), Size::Pixels(Numeric::Fixed(20_000)));
}

#[test]
fn size_blends_per_component() {
    let a = Size::Pixels(Numeric::from_int(100));
    let b = Size::Pixels(Numeric::from_int(200));
    assert_eq!(a.interpolate(&b, 500), Size::Pixels(Numeric::Fixed(150_000)));
    // across kinds, the missing component passes through
    let c = Size::Percent(Numeric::from_int(40));
    assert_eq!(a.interpolate(&c, 500), Size::Percent(Numeric::Integer(40)));
}

#[test]
fn expect_accessors_read_the_wrapped_value() {
    let per = Size::Percent(Numeric::from_int(50));
    assert_eq!(per.expect_percent(), Numeric::Fixed(500));
    let px = Size::Pixels(Numeric::from_int(9));
    assert_eq!(px.expect_pixels(), Numeric::Integer(9));
    assert_eq!(Size::ZERO(), Size::Pixels(Numeric::Fixed(0)));
}

#[test]
fn rotations_convert_between_units() {
    let quarter = Rotation::Degrees(Numeric::from_int(90));
    // 90 degrees in milli radians through the fixed-point reading of two pi
    assert_eq!(quarter.get_as_radians(), Numeric::Fixed(1570));
    let half_turn = Rotation::Percent(Numeric::from_int(50));
    assert_eq!(half_turn.get_as_degrees(), Numeric::Fixed(180_000));
    assert_eq!(Rotation::ZERO(), Rotation::Radians(Numeric::Fixed(0)));
    assert_eq!(quarter.neg(), Rotation::Degrees(Numeric::Integer(-90)));
}

#[test]
fn rotation_sum_reads_in_radians() {
    let a = Rotation::Degrees(Numeric::from_int(90));
    let b = Rotation::Degrees(Numeric::from_int(90));
    let s = a.add(&b);
    assert_eq!(s, Rotation::Radians(Numeric::Fixed(3140)));
}

#[test]
fn percent_coerces_by_context() {
    let p = Percent(Numeric::from_int(30));
    assert_eq!(p.to_size(), Size::Percent(Numeric::Integer(30)));
    assert_eq!(p.to_rotation(), Rotation::Percent(Numeric::Integer(30)));
}

#[test]
fn transform_chain_unrolls_root_to_leaf() {
    let t1 = Transform2D::translate(
        Size::Pixels(Numeric::from_int(10)),
        Size::Pixels(Numeric::from_int(0)),
    );
    let t2 = Transform2D::rotate(Rotation::Degrees(Numeric::from_int(45)));
    let t3 = Transform2D::scale(
        Size::Percent(Numeric::from_int(200)),
        Size::Percent(Numeric::from_int(200)),
    );
    let chained = t1.mul(t2).mul(t3);
    let flat = chained.flatten();
    assert_eq!(flat.len(), 3);
    assert!(flat[0].translate.is_some());
    assert!(flat[1].rotate.is_some());
    assert!(flat[2].scale.is_some());
    // every unrolled element carries no chain link of its own
    assert!(flat.iter().all(|t| t.previous.is_none()));
}

#[test]
fn transform_constructors_set_one_part() {
    let t = Transform2D::anchor(
        Size::Percent(Numeric::from_int(50)),
        Size::Percent(Numeric::from_int(50)),
    );
    assert!(t.anchor.is_some());
    assert!(t.rotate.is_none() && t.translate.is_none() && t.scale.is_none());
    let d = Transform2D::default();
    assert!(d.previous.is_none() && d.anchor.is_none());
}
