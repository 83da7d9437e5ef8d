//! Numeric display rendering, integer powers, and the primitive-literal
//! classifier.

use pax_runtime_core::literals::{LiteralValue, PrimitiveDeserializer};
use pax_runtime_core::numeric::Numeric;

#[test]
fn two_decimal_rendering_rounds_half_away_from_zero() {
    assert_eq!(Numeric::from_int(3).to_display_string(), "3.00");
    assert_eq!(Numeric::from_milli(1500).to_display_string(), "1.50");
    assert_eq!(Numeric::from_milli(1234).to_display_string(), "1.23");
    assert_eq!(Numeric::from_milli(1235).to_display_string(), "1.24");
    assert_eq!(Numeric::from_milli(-1235).to_display_string(), "-1.24");
    assert_eq!(Numeric::from_milli(999).to_display_string(), "1.00");
    assert_eq!(Numeric::from_milli(0).to_display_string(), "0.00");
}

#[test]
fn integer_powers_are_exact() {
    let two = Numeric::from_int(2);
    assert_eq!(two.pow(&Numeric::from_int(10)), Numeric::Integer(1024));
    assert_eq!(two.pow(&Numeric::from_int(0)), Numeric::Integer(1));
    let neg = Numeric::from_int(-3);
    assert_eq!(neg.pow(&Numeric::from_int(3)), Numeric::Integer(-27));
}

#[test]
fn number_literals_classify_first() {
    let d = PrimitiveDeserializer::new("42");
    match d.classify() {
        LiteralValue::Number(n) => assert_eq!(n, Numeric::Fixed(42_000)),
        _ => panic!("number expected"),
    }
    let d = PrimitiveDeserializer::new("-1.5");
    match d.classify() {
        LiteralValue::Number(n) => assert_eq!(n, Numeric::Fixed(-1500)),
        _ => panic!("number expected"),
    }
    let d = PrimitiveDeserializer::new("3.141");
    match d.classify() {
        LiteralValue::Number(n) => assert_eq!(n, Numeric::Fixed(3141)),
        _ => panic!("number expected"),
    }
    // short fractions pad to milli precision
    let d = PrimitiveDeserializer::new("2.5");
    match d.classify() {
        LiteralValue::Number(n) => assert_eq!(n, Numeric::Fixed(2500)),
        _ => panic!("number expected"),
    }
}

#[test]
fn boolean_literals_classify_second() {
    let d = PrimitiveDeserializer::new("true");
    assert!(matches!(d.classify(), LiteralValue::Boolean(true)));
    let d = PrimitiveDeserializer::new("false");
    assert!(matches!(d.classify(), LiteralValue::Boolean(false)));
}

#[test]
fn everything_else_classifies_as_text() {
    let d = PrimitiveDeserializer::new("hello");
    match d.classify() {
        LiteralValue::Text(t) => assert_eq!(t, "hello"),
        _ => panic!("text expected"),
    }
    // a malformed number falls through to text
    let d = PrimitiveDeserializer::new("1.2.3");
    assert!(matches!(d.classify(), LiteralValue::Text(_)));
    let d = PrimitiveDeserializer::new("");
    assert!(matches!(d.classify(), LiteralValue::Text(_)));
}
