//! The value-literal grammar: enum literals split into identifier, variant
//! and raw arguments; flat object literals split into named key-value pairs.

use pax_runtime_core::literals::{ParseError, PaxEnum, PaxObject, PaxSeq, PaxSeqArg};

#[test]
fn enum_literal_with_arguments() {
    let e = PaxEnum::from_string(String::from("Color::rgb(100%, 0%, 0%)")).unwrap();
    assert_eq!(e.identifier.as_deref(), Some("Color"));
    assert_eq!(e.variant, "rgb");
    assert_eq!(e.args.as_deref(), Some("100%, 0%, 0%"));
}

#[test]
fn enum_literal_without_arguments() {
    let e = PaxEnum::from_string(String::from("Color::RED")).unwrap();
    assert_eq!(e.identifier.as_deref(), Some("Color"));
    assert_eq!(e.variant, "RED");
    assert_eq!(e.args, None);
}

#[test]
fn qualified_enum_literal_keeps_last_two_segments() {
    let e = PaxEnum::from_string(String::from("a::B::C")).unwrap();
    assert_eq!(e.identifier.as_deref(), Some("B"));
    assert_eq!(e.variant, "C");
}

#[test]
fn enum_literal_rejections() {
    assert!(PaxEnum::from_string(String::from("NoSeparator")).is_err());
    assert!(PaxEnum::from_string(String::from("X::")).is_err());
    assert!(PaxEnum::from_string(String::from("::Y")).is_err());
    assert!(PaxEnum::from_string(String::from("A::B(unclosed")).is_err());
}

#[test]
fn object_literal_with_name() {
    let o = PaxObject::from_string(String::from("Stroke{width:10px,color:red}")).unwrap();
    assert_eq!(o.name.as_deref(), Some("Stroke"));
    assert_eq!(o.elements.len(), 2);
    assert_eq!(o.elements[0], (String::from("width"), String::from("10px")));
    assert_eq!(o.elements[1], (String::from("color"), String::from("red")));
    assert_eq!(o.index, 0);
}

#[test]
fn object_literal_without_name() {
    let o = PaxObject::from_string(String::from("{a:1}")).unwrap();
    assert_eq!(o.name, None);
    assert_eq!(o.elements, vec![(String::from("a"), String::from("1"))]);
}

#[test]
fn empty_object_literal_has_no_pairs() {
    let o = PaxObject::from_string(String::from("Thing{}")).unwrap();
    assert_eq!(o.name.as_deref(), Some("Thing"));
    assert!(o.elements.is_empty());
}

#[test]
fn object_literal_rejections() {
    let r = PaxObject::from_string(String::from("no braces"));
    assert!(matches!(r, Err(ParseError::MalformedLiteral)));
    assert!(PaxObject::from_string(String::from("X{pairless}")).is_err());
}

#[test]
fn constructors_carry_their_parts() {
    let e = PaxEnum::new(None, String::from("Percent"), Some(String::from("10")));
    assert_eq!(e.identifier, None);
    assert_eq!(e.variant, "Percent");
    let s = PaxSeq::new(vec![PaxSeqArg::Text(String::from("1"))]);
    assert_eq!(s.elements.len(), 1);
    assert_eq!(s.index, 0);
    let o = PaxObject::new(Some(String::from("T")), vec![]);
    assert_eq!(o.name.as_deref(), Some("T"));
}
