//! The shared-property tables and the paint helpers.

use pax_runtime_core::color::Color;
use pax_runtime_core::common::CommonProperties;
use pax_runtime_core::numeric::Numeric;
use pax_runtime_core::paint::{Fill, GradientStop, Stroke};
use pax_runtime_core::size::Size;

#[test]
fn property_identifiers_list_all_thirteen() {
    let ids = CommonProperties::get_property_identifiers();
    assert_eq!(ids.len(), 13);
    assert_eq!(ids[0], (String::from("id"), String::from("Option<String>")));
    assert_eq!(ids[3], (String::from("width"), String::from("Option<Size>")));
    assert_eq!(ids[11], (String::from("rotate"), String::from("Option<Rotation>")));
    assert_eq!(ids[12], (String::from("transform"), String::from("Option<Transform2D>")));
}

#[test]
fn default_literals_special_case_the_transform() {
    let defaults = CommonProperties::get_default_properties_literal();
    assert_eq!(defaults.len(), 13);
    for (name, literal) in defaults.iter().take(12) {
        assert_ne!(name, "transform");
        assert_eq!(literal, "Default::default()");
    }
    assert_eq!(
        defaults[12],
        (String::from("transform"), String::from("Transform2D::default_wrapped()"))
    );
}

#[test]
fn common_property_table_marks_the_optional_three() {
    let table = CommonProperties::get_as_common_property();
    assert_eq!(table.len(), 13);
    for (i, entry) in table.iter().enumerate() {
        let expect_optional = i == 3 || i == 4 || i == 12;
        assert_eq!(entry.optional, expect_optional, "entry {} ({})", i, entry.name);
    }
    assert_eq!(table[4].name, "height");
}

#[test]
fn fresh_common_properties_are_unset() {
    let c = CommonProperties::default();
    assert!(c.width.get().is_none());
    assert!(c.transform.get().is_none());
    assert!(c.id.get().is_none());
}

#[test]
fn default_stroke_is_invisible() {
    let s = Stroke::default();
    assert_eq!(*s.color.get(), Color::SLATE);
    assert_eq!(*s.width.get(), Size::Pixels(Numeric::Fixed(0)));
}

#[test]
fn unit_points_normalize_against_bounds() {
    let p = Fill::to_unit_point(
        (Size::Pixels(Numeric::from_int(50)), Size::Percent(Numeric::from_int(25))),
        (Numeric::from_int(200), Numeric::from_int(400)),
    );
    assert_eq!(p.0, Numeric::Fixed(250));
    assert_eq!(p.1, Numeric::Fixed(250));
}

#[test]
fn gradient_stops_normalize_in_percent() {
    let stops = vec![
        GradientStop::get(Color::BLACK, Size::Percent(Numeric::from_int(0))),
        GradientStop::get(Color::WHITE, Size::Percent(Numeric::from_int(50))),
    ];
    let normalized = Fill::to_normalized_gradient_stops(&stops).unwrap();
    assert_eq!(normalized.len(), 2);
    assert_eq!(normalized[0].0, Numeric::Fixed(0));
    assert_eq!(normalized[1].0, Numeric::Fixed(500));
    assert_eq!(normalized[1].1, Color::WHITE);
}

#[test]
fn pixel_gradient_stops_are_rejected() {
    let stops = vec![GradientStop::get(Color::BLACK, Size::Pixels(Numeric::from_int(10)))];
    assert!(Fill::to_normalized_gradient_stops(&stops).is_err());
}

#[test]
fn linear_gradient_builder_carries_its_parts() {
    let f = Fill::linearGradient(
        (Size::Percent(Numeric::from_int(0)), Size::Percent(Numeric::from_int(0))),
        (Size::Percent(Numeric::from_int(100)), Size::Percent(Numeric::from_int(0))),
        vec![GradientStop::get(Color::RED, Size::Percent(Numeric::from_int(0)))],
    );
    match f {
        Fill::LinearGradient(g) => {
            assert_eq!(g.stops.len(), 1);
            assert_eq!(g.end.0, Size::Percent(Numeric::Integer(100)));
        },
        _ => panic!("linear gradient expected"),
    }
}
