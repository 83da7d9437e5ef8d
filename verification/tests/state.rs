//! Type-erased node state: checked access, atomic writeback, and rejection
//! of mismatched kinds before any mutation becomes visible.

use pax_runtime_core::coproduct::{
    GroupProperties,
    NodeKind,
    PropertiesCoproduct,
    SlotProperties,
    StateError,
};
use pax_runtime_core::numeric::Numeric;
use pax_runtime_core::property::Property;

fn slot_props(index: i64) -> SlotProperties {
    SlotProperties {
        index: Property::new(Numeric::from_int(index)),
        last_index: 0,
        last_node_id: None,
    }
}

#[test]
fn scoped_mutate_and_writeback_is_observed() {
    // wrap, mutate under the checked access, write back, read independently
    let mut handle = PropertiesCoproduct::wrap_slot(slot_props(0));
    let mut working = handle.read_slot().unwrap().clone();
    working.index.set_literal(Numeric::from_int(7));
    working.last_index = 3;
    handle.write_slot(working).unwrap();
    let observed = handle.read_slot().unwrap();
    assert_eq!(*observed.index.get(), Numeric::Integer(7));
    assert_eq!(observed.last_index, 3);
}

#[test]
fn mismatched_access_is_rejected_before_mutation() {
    let mut handle = PropertiesCoproduct::wrap_group(GroupProperties {});
    assert_eq!(handle.tag(), NodeKind::Group);
    // a slot-typed read is rejected
    assert!(matches!(handle.read_slot(), Err(StateError::TypeMismatch)));
    // a slot-typed write is rejected, and the handle still holds the group
    let r = handle.write_slot(slot_props(9));
    assert_eq!(r, Err(StateError::TypeMismatch));
    assert_eq!(handle.tag(), NodeKind::Group);
}

#[test]
fn take_swaps_the_whole_value_out() {
    let mut handle = PropertiesCoproduct::wrap_slot(slot_props(4));
    let taken = handle.take();
    match taken {
        PropertiesCoproduct::Slot(s) => assert_eq!(*s.index.get(), Numeric::Integer(4)),
        _ => panic!("slot expected"),
    }
    // the placeholder left behind carries the group tag
    assert_eq!(handle.tag(), NodeKind::Group);
}

#[test]
fn wrap_carries_the_kind_tag() {
    let slot = PropertiesCoproduct::wrap_slot(slot_props(0));
    assert_eq!(slot.tag(), NodeKind::Slot);
    let group = PropertiesCoproduct::wrap_group(GroupProperties {});
    assert_eq!(group.tag(), NodeKind::Group);
}
