//! Z-index bookkeeping, canvas id assembly, and the event wrapper.

use pax_runtime_core::events::Event;
use pax_runtime_core::occlusion::{u32_to_string, Layer, OcclusionLayerGen};

#[test]
fn fresh_generator_starts_on_canvas_zero() {
    let mut g = OcclusionLayerGen::new(None);
    assert_eq!(g.get_level(), 0);
    assert_eq!(g.get_current_layer(), Layer::Canvas);
}

#[test]
fn layer_changes_mint_new_canvases() {
    let mut g = OcclusionLayerGen::new(None);
    g.update_z_index(Layer::Native);
    assert_eq!(g.get_level(), 0);
    assert_eq!(g.get_current_layer(), Layer::Native);
    g.update_z_index(Layer::Canvas);
    assert_eq!(g.get_level(), 1);
    // staying on the same layer mints nothing
    g.update_z_index(Layer::Canvas);
    assert_eq!(g.get_level(), 1);
    // don't-care nodes leave the state untouched
    g.update_z_index(Layer::DontCare);
    assert_eq!(g.get_level(), 1);
    assert_eq!(g.get_current_layer(), Layer::Canvas);
    g.update_z_index(Layer::Scroller);
    assert_eq!(g.get_level(), 2);
}

#[test]
fn canvas_ids_assemble_from_scroller_and_index() {
    assert_eq!(OcclusionLayerGen::assemble_canvas_id(None, 57), "57");
    assert_eq!(OcclusionLayerGen::assemble_canvas_id(Some(vec![1, 2]), 3), "[1, 2]_3");
    assert_eq!(OcclusionLayerGen::assemble_canvas_id(Some(vec![]), 0), "[]_0");
    assert_eq!(OcclusionLayerGen::assemble_canvas_id(Some(vec![10]), 42), "[10]_42");
}

#[test]
fn decimal_rendering_is_exact() {
    assert_eq!(u32_to_string(0), "0");
    assert_eq!(u32_to_string(7), "7");
    assert_eq!(u32_to_string(1234), "1234");
    assert_eq!(u32_to_string(4294967295), "4294967295");
}

#[test]
fn events_carry_cancellation() {
    let mut e = Event::new(5u64);
    assert!(!e.cancelled());
    assert_eq!(e.args, 5);
    e.prevent_default();
    assert!(e.cancelled());
}
