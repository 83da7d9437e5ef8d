//! The expansion driver: idempotent expansion, slot projection against the
//! containing component's flattened slot children, and whole-frame walks.

use pax_runtime_core::coproduct::{NodeKind, PropertiesCoproduct, RectangleCornerRadii};
use pax_runtime_core::color::Color;
use pax_runtime_core::easing::EasingCurve;
use pax_runtime_core::instance::{
    CommonPropertiesFactory,
    InstantiationArgs,
    NodeRegistry,
    PropertiesFactory,
};
use pax_runtime_core::numeric::Numeric;
use pax_runtime_core::runtime::{
    ComponentInstance,
    ExpressionTable,
    PaintCommand,
    RectangleInstance,
    RuntimeContext,
    RuntimeError,
    SlotInstance,
    WALK_DEPTH,
};
use pax_runtime_core::size::Size;

fn empty_table() -> ExpressionTable {
    ExpressionTable { numeric_values: Vec::new(), size_values: Vec::new(), color_values: Vec::new() }
}

fn rect_factory() -> PropertiesFactory {
    PropertiesFactory::Rectangle {
        fill: Color::SLATE,
        stroke_color: Color::BLACK,
        stroke_width: Size::Pixels(Numeric::from_int(0)),
        corner_radii: RectangleCornerRadii {
            top_left: Numeric::from_int(0),
            top_right: Numeric::from_int(0),
            bottom_left: Numeric::from_int(0),
            bottom_right: Numeric::from_int(0),
        },
    }
}

fn rect_args() -> InstantiationArgs {
    InstantiationArgs {
        children: Vec::new(),
        slot_children: Vec::new(),
        properties_factory: rect_factory(),
        common_properties_factory: CommonPropertiesFactory::unset(),
    }
}

/// A component whose template is one slot at `index`, supplied with three
/// rectangles as slot children. Returns the context and the root's id.
fn slot_scene(index: i64) -> (RuntimeContext, u64) {
    let mut registry = NodeRegistry::new();
    let r0 = RectangleInstance::instantiate(&mut registry, rect_args()).unwrap();
    let r1 = RectangleInstance::instantiate(&mut registry, rect_args()).unwrap();
    let r2 = RectangleInstance::instantiate(&mut registry, rect_args()).unwrap();
    let slot = SlotInstance::instantiate(
        &mut registry,
        InstantiationArgs {
            children: Vec::new(),
            slot_children: Vec::new(),
            properties_factory: PropertiesFactory::Slot { index: Numeric::from_int(index) },
            common_properties_factory: CommonPropertiesFactory::unset(),
        },
    )
    .unwrap();
    let component = ComponentInstance::instantiate(
        &mut registry,
        InstantiationArgs {
            children: vec![slot],
            slot_children: vec![r0, r1, r2],
            properties_factory: PropertiesFactory::Component,
            common_properties_factory: CommonPropertiesFactory::unset(),
        },
    )
    .unwrap();
    let mut ctx = RuntimeContext::new(registry, empty_table());
    let root = ctx.expand(component, Vec::new(), None);
    (ctx, root)
}

#[test]
fn expansion_is_idempotent() {
    let mut registry = NodeRegistry::new();
    let rect = RectangleInstance::instantiate(&mut registry, rect_args()).unwrap();
    let mut ctx = RuntimeContext::new(registry, empty_table());
    let first = ctx.expand(rect, Vec::new(), None);
    let arena_len = ctx.arena.len();
    let second = ctx.expand(rect, Vec::new(), None);
    assert_eq!(first, second);
    assert_eq!(ctx.arena.len(), arena_len);
    // a different tree position expands to a different node
    let elsewhere = ctx.expand(rect, vec![1], None);
    assert_ne!(first, elsewhere);
}

#[test]
fn malformed_description_fails_at_build_time() {
    let mut registry = NodeRegistry::new();
    let bad = InstantiationArgs {
        children: vec![5],
        slot_children: Vec::new(),
        properties_factory: PropertiesFactory::Group,
        common_properties_factory: CommonPropertiesFactory::unset(),
    };
    assert!(registry.instantiate(bad).is_err());
}

#[test]
fn slot_renders_the_second_supplied_child() {
    // a component supplies 3 slot children; its template holds a slot at
    // index 1; the rendered output holds exactly the second supplied child
    let (mut ctx, root) = slot_scene(1);
    ctx.update_subtree(root, WALK_DEPTH).unwrap();
    let slot_id = ctx.arena[root as usize].children[0];
    assert!(matches!(ctx.arena[slot_id as usize].properties, PropertiesCoproduct::Slot(_)));
    let projected = &ctx.arena[slot_id as usize].children;
    assert_eq!(projected.len(), 1);
    let shown = projected[0];
    // the projected node materializes the second rectangle instance
    assert_eq!(ctx.arena[shown as usize].instance_id, 1);
}

#[test]
fn slot_projects_exactly_one_child_iff_index_in_range() {
    for index in 0..6i64 {
        let (mut ctx, root) = slot_scene(index);
        ctx.update_subtree(root, WALK_DEPTH).unwrap();
        let slot_id = ctx.arena[root as usize].children[0];
        let shown = ctx.arena[slot_id as usize].children.len();
        if index < 3 {
            assert_eq!(shown, 1, "index {index} should project one child");
            let child = ctx.arena[slot_id as usize].children[0];
            assert_eq!(ctx.arena[child as usize].instance_id, index as u64);
        } else {
            assert_eq!(shown, 0, "index {index} should project nothing");
        }
    }
}

#[test]
fn negative_slot_index_fails_fast() {
    let (mut ctx, root) = slot_scene(-1);
    let r = ctx.update_subtree(root, WALK_DEPTH);
    assert_eq!(r, Err(RuntimeError::NegativeSlotIndex));
}

#[test]
fn exhausted_recursion_budget_fails_fast() {
    let (mut ctx, root) = slot_scene(0);
    assert_eq!(ctx.update_subtree(root, 0), Err(RuntimeError::RecursionLimit));
}

#[test]
fn slot_tracks_index_changes_across_frames() {
    let (mut ctx, root) = slot_scene(0);
    ctx.update_subtree(root, WALK_DEPTH).unwrap();
    let slot_id = ctx.arena[root as usize].children[0];
    let first = ctx.arena[slot_id as usize].children[0];
    assert_eq!(ctx.arena[first as usize].instance_id, 0);
    // move the slot's index cell, then run another frame
    match &mut ctx.arena[slot_id as usize].properties {
        PropertiesCoproduct::Slot(s) => s.index.set_literal(Numeric::from_int(2)),
        _ => panic!("slot expected"),
    }
    ctx.advance_frame();
    ctx.update_subtree(root, WALK_DEPTH).unwrap();
    let second = ctx.arena[slot_id as usize].children[0];
    assert_eq!(ctx.arena[second as usize].instance_id, 2);
}

#[test]
fn rectangle_width_transitions_through_the_driver() {
    let mut registry = NodeRegistry::new();
    let rect = RectangleInstance::instantiate(&mut registry, rect_args()).unwrap();
    let mut ctx = RuntimeContext::new(registry, empty_table());
    let root = RectangleInstance::expand(&mut ctx, rect, Vec::new(), None);
    let i = root as usize;
    ctx.arena[i]
        .common_properties
        .width
        .set_literal(Some(Size::Pixels(Numeric::from_int(100))));
    ctx.arena[i].common_properties.width.push_transition(
        EasingCurve::Linear,
        10,
        Some(Size::Pixels(Numeric::from_int(200))),
        0,
    );
    let mut seen = Vec::new();
    for _frame in 0..12u64 {
        ctx.update_subtree(root, WALK_DEPTH).unwrap();
        let w = ctx.arena[i].common_properties.width.get().clone().unwrap();
        seen.push(w.get_pixels(Numeric::from_int(0)).to_int());
        ctx.advance_frame();
    }
    assert_eq!(seen[0], 100);
    assert_eq!(seen[5], 150);
    assert_eq!(seen[10], 200);
    assert_eq!(seen[11], 200);
}

#[test]
fn expression_table_drives_bound_cells() {
    let mut registry = NodeRegistry::new();
    let rect = RectangleInstance::instantiate(&mut registry, rect_args()).unwrap();
    let table = ExpressionTable {
        numeric_values: Vec::new(),
        size_values: vec![Size::Pixels(Numeric::from_int(77))],
        color_values: vec![Color::RED],
    };
    let mut ctx = RuntimeContext::new(registry, table);
    let root = RectangleInstance::expand(&mut ctx, rect, Vec::new(), None);
    let i = root as usize;
    ctx.arena[i].common_properties.width.bind_expression(0);
    match &mut ctx.arena[i].properties {
        PropertiesCoproduct::Rectangle(r) => r.fill.bind_expression(0),
        _ => panic!("rectangle expected"),
    }
    ctx.update_subtree(root, WALK_DEPTH).unwrap();
    assert_eq!(
        ctx.arena[i].common_properties.width.get().clone(),
        Some(Size::Pixels(Numeric::from_int(77)))
    );
    match &ctx.arena[i].properties {
        PropertiesCoproduct::Rectangle(r) => assert_eq!(*r.fill.get(), Color::RED),
        _ => panic!("rectangle expected"),
    }
}

#[test]
fn group_flattens_through_slot_children() {
    // a group supplied as a slot child is invisible to slot: its children
    // are flattened in its place
    let mut registry = NodeRegistry::new();
    let r0 = RectangleInstance::instantiate(&mut registry, rect_args()).unwrap();
    let r1 = RectangleInstance::instantiate(&mut registry, rect_args()).unwrap();
    let group = pax_runtime_core::runtime::GroupInstance::instantiate(
        &mut registry,
        InstantiationArgs {
            children: vec![r0, r1],
            slot_children: Vec::new(),
            properties_factory: PropertiesFactory::Group,
            common_properties_factory: CommonPropertiesFactory::unset(),
        },
    )
    .unwrap();
    let slot = SlotInstance::instantiate(
        &mut registry,
        InstantiationArgs {
            children: Vec::new(),
            slot_children: Vec::new(),
            properties_factory: PropertiesFactory::Slot { index: Numeric::from_int(1) },
            common_properties_factory: CommonPropertiesFactory::unset(),
        },
    )
    .unwrap();
    let component = ComponentInstance::instantiate(
        &mut registry,
        InstantiationArgs {
            children: vec![slot],
            slot_children: vec![group],
            properties_factory: PropertiesFactory::Component,
            common_properties_factory: CommonPropertiesFactory::unset(),
        },
    )
    .unwrap();
    let mut ctx = RuntimeContext::new(registry, empty_table());
    let root = ctx.expand(component, Vec::new(), None);
    // two passes: the first expands and attaches, the second lets the slot
    // see the group's children attached by the first walk
    ctx.update_subtree(root, WALK_DEPTH).unwrap();
    ctx.advance_frame();
    ctx.update_subtree(root, WALK_DEPTH).unwrap();
    let slot_id = ctx.arena[root as usize].children[0];
    let projected = &ctx.arena[slot_id as usize].children;
    assert_eq!(projected.len(), 1);
    // index 1 lands on the second rectangle inside the flattened group
    assert_eq!(ctx.arena[projected[0] as usize].instance_id, 1);
}

#[test]
fn node_kinds_carry_their_flags() {
    let (mut ctx, root) = slot_scene(0);
    ctx.update_subtree(root, WALK_DEPTH).unwrap();
    assert_eq!(ctx.arena[root as usize].properties.tag(), NodeKind::Component);
    let slot_id = ctx.arena[root as usize].children[0];
    assert_eq!(ctx.arena[slot_id as usize].properties.tag(), NodeKind::Slot);
    assert!(ctx.arena[slot_id as usize].invisible_to_raycasting);
    let shown = ctx.arena[slot_id as usize].children[0];
    assert!(!ctx.arena[shown as usize].invisible_to_raycasting);
}

#[test]
fn render_prep_fills_and_strokes() {
    let mut registry = NodeRegistry::new();
    let mut args = rect_args();
    args.properties_factory = PropertiesFactory::Rectangle {
        fill: Color::RED,
        stroke_color: Color::BLACK,
        stroke_width: Size::Pixels(Numeric::from_int(2)),
        corner_radii: RectangleCornerRadii {
            top_left: Numeric::from_int(4),
            top_right: Numeric::from_int(4),
            bottom_left: Numeric::from_int(0),
            bottom_right: Numeric::from_int(0),
        },
    };
    let rect = RectangleInstance::instantiate(&mut registry, args).unwrap();
    let mut ctx = RuntimeContext::new(registry, empty_table());
    let root = RectangleInstance::expand(&mut ctx, rect, Vec::new(), None);
    ctx.arena[root as usize]
        .common_properties
        .width
        .set_literal(Some(Size::Percent(Numeric::from_int(50))));
    let bounds = (Numeric::from_int(400), Numeric::from_int(300));
    let commands = RectangleInstance::handle_render(&ctx, root, bounds);
    assert_eq!(commands.len(), 2);
    match &commands[0] {
        PaintCommand::Fill { width, height, corner_radii, color, transform } => {
            assert_eq!(width.to_int(), 200);
            assert_eq!(height.to_int(), 300);
            assert_eq!(corner_radii.top_left, Numeric::Integer(4));
            assert_eq!(*color, Color::RED);
            assert!(transform.is_empty());
        },
        _ => panic!("fill expected first"),
    }
    match &commands[1] {
        PaintCommand::Stroke { stroke_width, color, .. } => {
            assert_eq!(stroke_width.to_int(), 2);
            assert_eq!(*color, Color::BLACK);
        },
        _ => panic!("stroke expected second"),
    }
}

#[test]
fn render_prep_skips_zero_width_strokes() {
    let mut registry = NodeRegistry::new();
    let rect = RectangleInstance::instantiate(&mut registry, rect_args()).unwrap();
    let mut ctx = RuntimeContext::new(registry, empty_table());
    let root = RectangleInstance::expand(&mut ctx, rect, Vec::new(), None);
    let bounds = (Numeric::from_int(100), Numeric::from_int(100));
    let commands = RectangleInstance::handle_render(&ctx, root, bounds);
    assert_eq!(commands.len(), 1);
    assert!(matches!(commands[0], PaintCommand::Fill { .. }));
}

#[test]
fn render_prep_carries_the_transform_chain() {
    let mut registry = NodeRegistry::new();
    let rect = RectangleInstance::instantiate(&mut registry, rect_args()).unwrap();
    let mut ctx = RuntimeContext::new(registry, empty_table());
    let root = RectangleInstance::expand(&mut ctx, rect, Vec::new(), None);
    let chain = pax_runtime_core::transform::Transform2D::translate(
        Size::Pixels(Numeric::from_int(10)),
        Size::Pixels(Numeric::from_int(0)),
    )
    .mul(pax_runtime_core::transform::Transform2D::rotate(
        pax_runtime_core::size::Rotation::Degrees(Numeric::from_int(45)),
    ));
    ctx.arena[root as usize].common_properties.transform.set_literal(Some(chain));
    let bounds = (Numeric::from_int(100), Numeric::from_int(100));
    let commands = RectangleInstance::handle_render(&ctx, root, bounds);
    match &commands[0] {
        PaintCommand::Fill { transform, .. } => {
            assert_eq!(transform.len(), 2);
            assert!(transform[0].translate.is_some());
            assert!(transform[1].rotate.is_some());
        },
        _ => panic!("fill expected first"),
    }
}
