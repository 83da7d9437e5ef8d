//! Color resolution in fixed point: channel normalization, the named-color
//! table, the HSL conversion, and channel-wise blending.

use pax_runtime_core::color::{bound, Color, ColorChannel, Rgba};
use pax_runtime_core::interpolation::Interpolatable;
use pax_runtime_core::numeric::Numeric;
use pax_runtime_core::size::Rotation;

#[test]
fn integer_channels_normalize_per_255() {
    let full = ColorChannel::Integer(Numeric::from_int(255));
    assert_eq!(full.to_float_0_1(), Numeric::Fixed(1000));
    let none = ColorChannel::Integer(Numeric::from_int(0));
    assert_eq!(none.to_float_0_1(), Numeric::Fixed(0));
    let mid = ColorChannel::Integer(Numeric::from_int(100));
    assert_eq!(mid.to_float_0_1(), Numeric::Fixed(392));
}

#[test]
fn percent_channels_normalize_per_100() {
    let half = ColorChannel::Percent(Numeric::from_int(50));
    assert_eq!(half.to_float_0_1(), Numeric::Fixed(500));
}

#[test]
fn rgb_resolves_with_full_alpha() {
    let red = Color::rgb(
        ColorChannel::Integer(Numeric::from_int(255)),
        ColorChannel::Integer(Numeric::from_int(0)),
        ColorChannel::Integer(Numeric::from_int(0)),
    );
    assert_eq!(red.to_rgba_0_1(), Rgba { red: 1000, green: 0, blue: 0, alpha: 1000 });
}

#[test]
fn named_colors_read_from_the_table() {
    assert_eq!(Color::SLATE.to_rgba_0_1(), Rgba { red: 392, green: 454, blue: 545, alpha: 1000 });
    assert_eq!(Color::BLACK.to_rgba_0_1(), Rgba { red: 0, green: 0, blue: 0, alpha: 1000 });
    assert_eq!(Color::WHITE.to_rgba_0_1(), Rgba { red: 1000, green: 1000, blue: 1000, alpha: 1000 });
    assert_eq!(Color::TRANSPARENT.to_rgba_0_1().alpha, 0);
    assert_eq!(Color::default(), Color::SLATE);
}

#[test]
fn grey_hsl_reads_lightness_everywhere() {
    // zero saturation: every channel reads the lightness
    let grey = Color::hsl(
        Rotation::Percent(Numeric::from_int(0)),
        ColorChannel::Percent(Numeric::from_int(0)),
        ColorChannel::Percent(Numeric::from_int(50)),
    );
    assert_eq!(grey.to_rgba_0_1(), Rgba { red: 500, green: 500, blue: 500, alpha: 1000 });
}

#[test]
fn saturated_hsl_red_resolves_exactly() {
    // hue 0, full saturation, half lightness: pure red
    let red = Color::hsl(
        Rotation::Percent(Numeric::from_int(0)),
        ColorChannel::Percent(Numeric::from_int(100)),
        ColorChannel::Percent(Numeric::from_int(50)),
    );
    assert_eq!(red.to_rgba_0_1(), Rgba { red: 1000, green: 0, blue: 0, alpha: 1000 });
}

#[test]
fn saturated_hsl_cyan_stays_on_the_unit_interval() {
    // a half-turn hue at full saturation sits on the falling branch of the
    // channel formula; every channel stays on the unit interval, exactly
    let cyan = Color::hsl(
        Rotation::Percent(Numeric::from_int(50)),
        ColorChannel::Percent(Numeric::from_int(100)),
        ColorChannel::Percent(Numeric::from_int(50)),
    );
    assert_eq!(cyan.to_rgba_0_1(), Rgba { red: 0, green: 1000, blue: 1000, alpha: 1000 });
}

#[test]
fn hue_wraps_into_the_unit_period() {
    assert_eq!(bound(1333, 1000), 333);
    assert_eq!(bound(-333, 1000), 667);
    assert_eq!(bound(500, 1000), 500);
    assert_eq!(bound(0, 1000), 0);
}

#[test]
fn colors_blend_channel_wise() {
    let mid = Color::BLACK.interpolate(&Color::WHITE, 500);
    let expected = Color::rgba(
        ColorChannel::Percent(Numeric::Fixed(50_000)),
        ColorChannel::Percent(Numeric::Fixed(50_000)),
        ColorChannel::Percent(Numeric::Fixed(50_000)),
        ColorChannel::Percent(Numeric::Fixed(100_000)),
    );
    assert_eq!(mid, expected);
}

#[test]
fn from_rgba_builds_percent_channels() {
    let c = Color::from_rgba_0_1(Rgba { red: 1000, green: 0, blue: 500, alpha: 1000 });
    assert_eq!(
        c,
        Color::rgba(
            ColorChannel::Percent(Numeric::Fixed(100_000)),
            ColorChannel::Percent(Numeric::Fixed(0)),
            ColorChannel::Percent(Numeric::Fixed(50_000)),
            ColorChannel::Percent(Numeric::Fixed(100_000)),
        )
    );
}

#[test]
fn channel_default_is_half_intensity() {
    assert_eq!(ColorChannel::default(), ColorChannel::Percent(Numeric::Fixed(50_000)));
}
