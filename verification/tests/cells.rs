//! Value-cell behavior: literals pin the cell, transitions ease exactly,
//! resets snapshot the eased value, and exhausted queues rest on the last
//! target.

use pax_runtime_core::easing::EasingCurve;
use pax_runtime_core::numeric::Numeric;
use pax_runtime_core::property::Property;
use pax_runtime_core::size::Size;
use pax_runtime_core::transition::{TransitionManager, TransitionQueueEntry};

#[test]
fn literal_reads_back_exactly() {
    let mut cell: Property<Numeric> = Property::new(Numeric::from_int(1));
    cell.set_literal(Numeric::from_int(42));
    assert_eq!(*cell.get(), Numeric::Integer(42));
}

#[test]
fn literal_clears_transition_and_expression() {
    let mut cell: Property<Numeric> = Property::new(Numeric::from_int(1));
    cell.bind_expression(3);
    cell.push_transition(EasingCurve::Linear, 10, Numeric::from_int(9), 0);
    cell.set_literal(Numeric::from_int(5));
    assert_eq!(*cell.get(), Numeric::Integer(5));
    // a later frame update leaves the literal untouched
    let changed = cell.update_transition(7);
    assert!(!changed);
    assert_eq!(*cell.get(), Numeric::Integer(5));
}

#[test]
fn linear_transition_eases_exactly() {
    let mut tm: TransitionManager<Numeric> = TransitionManager::new(Numeric::from_int(100), 0);
    tm.push_transition(TransitionQueueEntry {
        duration_frames: 10,
        curve: EasingCurve::Linear,
        ending_value: Numeric::from_int(200),
    });
    assert_eq!(tm.compute_eased_value(0), Some(Numeric::Fixed(100_000)));
    assert_eq!(tm.compute_eased_value(5), Some(Numeric::Fixed(150_000)));
    assert_eq!(tm.compute_eased_value(10), Some(Numeric::Fixed(200_000)));
}

#[test]
fn empty_queue_yields_none() {
    let mut tm: TransitionManager<Numeric> = TransitionManager::new(Numeric::from_int(7), 0);
    assert_eq!(tm.compute_eased_value(3), None);
    assert_eq!(tm.transition_checkpoint_value, Numeric::Integer(7));
}

#[test]
fn chained_transitions_run_in_order() {
    let mut tm: TransitionManager<Numeric> = TransitionManager::new(Numeric::from_int(100), 0);
    tm.push_transition(TransitionQueueEntry {
        duration_frames: 10,
        curve: EasingCurve::Linear,
        ending_value: Numeric::from_int(200),
    });
    tm.push_transition(TransitionQueueEntry {
        duration_frames: 10,
        curve: EasingCurve::Linear,
        ending_value: Numeric::from_int(300),
    });
    // frame 15 sits halfway through the second transition
    assert_eq!(tm.compute_eased_value(15), Some(Numeric::Fixed(250_000)));
    assert_eq!(tm.origin_frames_elapsed, 10);
}

#[test]
fn zero_duration_completes_instantaneously() {
    let mut tm: TransitionManager<Numeric> = TransitionManager::new(Numeric::from_int(1), 0);
    tm.push_transition(TransitionQueueEntry {
        duration_frames: 0,
        curve: EasingCurve::Linear,
        ending_value: Numeric::from_int(9),
    });
    // the zero-duration transition pops without dividing by zero
    assert_eq!(tm.compute_eased_value(0), None);
    assert_eq!(tm.transition_checkpoint_value, Numeric::Integer(9));
}

#[test]
fn popping_past_queue_end_rests_on_last_target() {
    let mut cell: Property<Numeric> = Property::new(Numeric::from_int(100));
    cell.push_transition(EasingCurve::Linear, 10, Numeric::from_int(200), 0);
    let changed = cell.update_transition(11);
    assert!(changed);
    assert_eq!(*cell.get(), Numeric::Integer(200));
    // and stays unchanged thereafter
    let changed_again = cell.update_transition(12);
    assert!(!changed_again);
    assert_eq!(*cell.get(), Numeric::Integer(200));
}

#[test]
fn reset_snapshots_the_eased_value_and_empties_the_queue() {
    // two identical managers: one to observe the eased value, one to reset
    let mut observe: TransitionManager<Numeric> = TransitionManager::new(Numeric::from_int(100), 0);
    observe.push_transition(TransitionQueueEntry {
        duration_frames: 10,
        curve: EasingCurve::Linear,
        ending_value: Numeric::from_int(200),
    });
    let eased_before = observe.compute_eased_value(4).unwrap();

    let mut tm: TransitionManager<Numeric> = TransitionManager::new(Numeric::from_int(100), 0);
    tm.push_transition(TransitionQueueEntry {
        duration_frames: 10,
        curve: EasingCurve::Linear,
        ending_value: Numeric::from_int(200),
    });
    tm.reset_transitions(4);
    assert_eq!(tm.transition_checkpoint_value, eased_before);
    assert_eq!(tm.queue.len(), 0);
    assert_eq!(tm.origin_frames_elapsed, 4);
}

#[test]
fn reset_on_cell_keeps_value_visible() {
    let mut cell: Property<Numeric> = Property::new(Numeric::from_int(100));
    cell.push_transition(EasingCurve::Linear, 10, Numeric::from_int(200), 0);
    cell.reset_transitions(5);
    assert_eq!(*cell.get(), Numeric::Fixed(150_000));
}

#[test]
fn rectangle_width_scenario_over_ten_frames() {
    // a rectangle's width cell transitions linearly from 100 to 200 over 10
    // frames
    let mut width: Property<Option<Size>> =
        Property::new(Some(Size::Pixels(Numeric::from_int(100))));
    width.push_transition(
        EasingCurve::Linear,
        10,
        Some(Size::Pixels(Numeric::from_int(200))),
        0,
    );
    width.update_transition(0);
    let at0 = width.get().clone().unwrap();
    assert_eq!(at0.get_pixels(Numeric::from_int(0)).to_int(), 100);
    width.update_transition(5);
    let at5 = width.get().clone().unwrap();
    assert_eq!(at5.get_pixels(Numeric::from_int(0)).to_int(), 150);
    width.update_transition(10);
    let at10 = width.get().clone().unwrap();
    assert_eq!(at10.get_pixels(Numeric::from_int(0)).to_int(), 200);
    width.update_transition(12);
    let at12 = width.get().clone().unwrap();
    assert_eq!(at12.get_pixels(Numeric::from_int(0)).to_int(), 200);
}

#[test]
fn booleans_snap_instead_of_blending() {
    let mut cell: Property<bool> = Property::new(false);
    cell.push_transition(EasingCurve::Linear, 10, true, 0);
    cell.update_transition(5);
    assert_eq!(*cell.get(), false);
    // past the queue end, the target takes over
    cell.update_transition(11);
    assert_eq!(*cell.get(), true);
}
