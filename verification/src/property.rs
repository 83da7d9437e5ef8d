//! The reactive value cell. A cell holds the current resolved value, a dirty
//! flag for dependents, an optional expression binding recomputed by the
//! driver, and an optional queue of eased transitions. While a transition is
//! active it overrides expression recomputation.

use vstd::prelude::*;
use crate::easing::EasingCurve;
use crate::interpolation::Interpolatable;
use crate::transition::{
    eased_value_spec,
    entries_wf,
    fast_forward,
    TransitionManager,
    TransitionQueueEntry,
    MAX_DURATION,
};

verus! {

/// A value cell: current value, dirty flag, optional expression binding,
/// optional transition queue. Mutated by the driver (dirty propagation and
/// per-frame recomputation) or by an animation request.
#[derive(Clone)]
pub struct Property<T: Interpolatable> {
    /// The current resolved value.
    pub value: T,
    /// Set when the value changed and dependents must recompute.
    pub dirty: bool,
    /// When bound, the id under which the host's dispatch table supplies
    /// this cell's recomputed value.
    pub expression_id: Option<usize>,
    /// The active transition queue, if any; at most one per cell.
    pub transition: Option<TransitionManager<T>>,
}

impl<T: Interpolatable> Property<T> {
    /// Well-formedness: value and any queued transition state are admitted
    /// to interpolation.
    pub open spec fn wf(self) -> bool {
        &&& self.value.valid()
        &&& match self.transition {
            Option::Some(tm) => tm.wf(),
            Option::None => true,
        }
    }

    /// The pending transition entries (empty when no queue is attached).
    pub open spec fn tm_queue(self) -> Seq<TransitionQueueEntry<T>> {
        match self.transition {
            Option::Some(tm) => tm.queue@,
            Option::None => Seq::empty(),
        }
    }

    /// The checkpoint the current transition eases from; without a queue,
    /// the cell's own value.
    pub open spec fn tm_checkpoint(self) -> T {
        match self.transition {
            Option::Some(tm) => tm.transition_checkpoint_value,
            Option::None => self.value,
        }
    }

    /// The frame at which the current transition started.
    pub open spec fn tm_origin(self) -> int {
        match self.transition {
            Option::Some(tm) => tm.origin_frames_elapsed as int,
            Option::None => 0,
        }
    }

    pub open spec fn has_transition(self) -> bool {
        self.transition is Some
    }

    pub fn new(value: T) -> (r: Self)
        requires
            value.valid(),
        ensures
            r.wf(),
            r.value == value,
            !r.dirty,
            r.expression_id is None,
            !r.has_transition(),
    {
        Property { value, dirty: false, expression_id: Option::None, transition: Option::None }
    }

    /// The current resolved value; no side effect.
    pub fn get(&self) -> (r: &T)
        ensures
            r == &self.value,
    {
        &self.value
    }

    /// Clear any expression or transition binding, store the literal, and
    /// mark dependents dirty.
    pub fn set_literal(&mut self, value: T)
        requires
            value.valid(),
        ensures
            final(self).wf(),
            final(self).value == value,
            final(self).dirty,
            final(self).expression_id is None,
            !final(self).has_transition(),
    {
        self.value = value;
        self.dirty = true;
        self.expression_id = Option::None;
        self.transition = Option::None;
    }

    /// Bind the cell to a host expression; the driver recomputes it when
    /// inputs change. Value and transitions are untouched.
    pub fn bind_expression(&mut self, expression_id: usize)
        requires
            old(self).wf(),
        ensures
            final(self).wf(),
            final(self).expression_id == Option::Some(expression_id),
            final(self).value == old(self).value,
            final(self).dirty == old(self).dirty,
            final(self).transition == old(self).transition,
    {
        self.expression_id = Option::Some(expression_id);
    }

    /// Enqueue an eased transition chained after any already queued; a
    /// running transition is not interrupted. The first transition attaches
    /// a queue easing from the current value, starting now.
    pub fn push_transition(&mut self, curve: EasingCurve, duration_frames: u64, ending_value: T,
        current_time: u64)
        requires
            old(self).wf(),
            ending_value.valid(),
            duration_frames <= MAX_DURATION,
        ensures
            final(self).wf(),
            final(self).value == old(self).value,
            final(self).dirty == old(self).dirty,
            final(self).expression_id == old(self).expression_id,
            final(self).has_transition(),
            final(self).tm_queue() == old(self).tm_queue().push(
                TransitionQueueEntry { duration_frames, curve, ending_value },
            ),
            final(self).tm_checkpoint() == old(self).tm_checkpoint(),
            final(self).tm_origin() == (if old(self).has_transition() {
                old(self).tm_origin()
            } else {
                current_time as int
            }),
    {
        let entry = TransitionQueueEntry { duration_frames, curve, ending_value };
        let taken = self.transition.take();
        match taken {
            Option::Some(mut tm) => {
                tm.push_transition(entry);
                self.transition = Option::Some(tm);
            },
            Option::None => {
                let mut tm = TransitionManager::new(self.value.duplicate(), current_time);
                tm.push_transition(entry);
                self.transition = Option::Some(tm);
            },
        }
    }

    /// Snapshot the currently eased value as the new baseline and clear the
    /// pending queue; the cell's value becomes that snapshot.
    pub fn reset_transitions(&mut self, current_time: u64)
        requires
            old(self).wf(),
            old(self).has_transition() ==> old(self).tm_origin() <= current_time,
        ensures
            final(self).wf(),
            final(self).dirty == old(self).dirty,
            final(self).expression_id == old(self).expression_id,
            final(self).tm_queue().len() == 0,
            final(self).value == (if old(self).has_transition() {
                match eased_value_spec(
                    old(self).tm_queue(),
                    old(self).tm_checkpoint(),
                    old(self).tm_origin(),
                    current_time as int,
                ) {
                    Option::Some(v) => v,
                    Option::None => fast_forward(
                        old(self).tm_queue(),
                        old(self).tm_checkpoint(),
                        old(self).tm_origin(),
                        current_time as int,
                    ).1,
                }
            } else {
                old(self).value
            }),
    {
        let taken = self.transition.take();
        if let Option::Some(mut tm) = taken {
            tm.reset_transitions(current_time);
            self.value = tm.transition_checkpoint_value.duplicate();
            self.transition = Option::Some(tm);
        }
    }

    /// The cell's value after a frame update at `now`: the eased value while
    /// a transition is active; the last target once the queue has just been
    /// exhausted; unchanged otherwise.
    pub open spec fn eased_cell_value(self, now: int) -> T {
        if self.has_transition() {
            let ff = fast_forward(self.tm_queue(), self.tm_checkpoint(), self.tm_origin(), now);
            match eased_value_spec(self.tm_queue(), self.tm_checkpoint(), self.tm_origin(), now) {
                Option::Some(v) => v,
                Option::None => if ff.0.len() < self.tm_queue().len() {
                    ff.1
                } else {
                    self.value
                },
            }
        } else {
            self.value
        }
    }

    /// Per-frame transition step: fast-forward elapsed transitions and apply
    /// the eased value. Returns whether the value changed hands.
    pub fn update_transition(&mut self, frames_elapsed: u64) -> (changed: bool)
        requires
            old(self).wf(),
            old(self).has_transition() ==> old(self).tm_origin() <= frames_elapsed,
        ensures
            final(self).wf(),
            final(self).dirty == old(self).dirty,
            final(self).expression_id == old(self).expression_id,
            final(self).value == old(self).eased_cell_value(frames_elapsed as int),
            final(self).has_transition() == old(self).has_transition(),
            final(self).has_transition() ==> final(self).tm_origin() <= frames_elapsed,
            final(self).has_transition() ==> (
                final(self).tm_queue(),
                final(self).tm_checkpoint(),
                final(self).tm_origin(),
            ) == fast_forward(
                old(self).tm_queue(),
                old(self).tm_checkpoint(),
                old(self).tm_origin(),
                frames_elapsed as int,
            ),
    {
        let taken = self.transition.take();
        match taken {
            Option::Some(mut tm) => {
                let before: usize = tm.queue.len();
                let eased = tm.compute_eased_value(frames_elapsed);
                let changed: bool;
                match eased {
                    Option::Some(v) => {
                        self.value = v;
                        changed = true;
                    },
                    Option::None => {
                        if tm.queue.len() < before {
                            self.value = tm.transition_checkpoint_value.duplicate();
                            changed = true;
                        } else {
                            changed = false;
                        }
                    },
                }
                self.transition = Option::Some(tm);
                changed
            },
            Option::None => false,
        }
    }
}

/// A literal pins the cell: after `set_literal(v)`, while no transition is
/// queued, a frame update leaves the value untouched, so `get` reads back
/// exactly `v`.
pub proof fn lemma_literal_value_reads_back<T: Interpolatable>(p: Property<T>, v: T, now: int)
    requires
        p.value == v,
        !p.has_transition(),
    ensures
        p.eased_cell_value(now) == v,
{
}

} // verus!
