//! Per-cell transition queues. A manager holds an ordered queue of pending
//! eased transitions together with the checkpoint value the current
//! transition eases from and the frame count at which it started. Each frame
//! the manager fast-forwards past transitions whose duration has fully
//! elapsed — each pop advancing the checkpoint and the origin frame counter —
//! and then eases the remaining front transition at its local progress.

use vstd::prelude::*;
use vstd::arithmetic::div_mod::{lemma_div_is_ordered, lemma_div_multiples_vanish};
use crate::easing::{curve_multiplier_spec, EasingCurve, PROGRESS_ONE};
use crate::interpolation::Interpolatable;

verus! {

/// Longest admissible transition, in frames; keeps progress arithmetic in
/// machine range.
pub const MAX_DURATION: u64 = 1_000_000_000_000;

/// One pending transition: ease toward `ending_value` over
/// `duration_frames` frames under `curve`.
#[derive(Clone)]
pub struct TransitionQueueEntry<T> {
    pub duration_frames: u64,
    pub curve: EasingCurve,
    pub ending_value: T,
}

/// Entries a queue may hold: values admitted to interpolation, durations in
/// machine range.
pub open spec fn entries_wf<T: Interpolatable>(q: Seq<TransitionQueueEntry<T>>) -> bool {
    forall|i: int|
        0 <= i < q.len() ==> (#[trigger] q[i]).ending_value.valid() && q[i].duration_frames
            <= MAX_DURATION
}

/// The queue state after fast-forwarding to frame `now`: transitions whose
/// duration has fully elapsed (and zero-duration transitions, which complete
/// instantaneously) are popped, each pop advancing the checkpoint to that
/// transition's target and the origin by its duration. Returns the remaining
/// queue, the new checkpoint, and the new origin.
pub open spec fn fast_forward<T>(
    q: Seq<TransitionQueueEntry<T>>,
    cp: T,
    org: int,
    now: int,
) -> (Seq<TransitionQueueEntry<T>>, T, int)
    decreases q.len(),
{
    if q.len() == 0 {
        (q, cp, org)
    } else if now - org > q[0].duration_frames || q[0].duration_frames == 0 {
        fast_forward(q.drop_first(), q[0].ending_value, org + q[0].duration_frames, now)
    } else {
        (q, cp, org)
    }
}

/// The eased value at frame `now`: `None` when no transition remains after
/// fast-forwarding, else the front transition's curve applied at local
/// progress and interpolated from the checkpoint toward the target.
pub open spec fn eased_value_spec<T: Interpolatable>(
    q: Seq<TransitionQueueEntry<T>>,
    cp: T,
    org: int,
    now: int,
) -> Option<T> {
    let (q2, cp2, org2) = fast_forward(q, cp, org, now);
    if q2.len() == 0 {
        Option::None
    } else {
        let progress = (now - org2) * 1000 / (q2[0].duration_frames as int);
        Option::Some(
            cp2.interp_spec(q2[0].ending_value, curve_multiplier_spec(q2[0].curve, progress)),
        )
    }
}

/// The per-cell transition queue, with the checkpoint value the current
/// transition eases from and the frame at which it started.
#[derive(Clone)]
pub struct TransitionManager<T: Interpolatable> {
    /// Pending transitions, front first.
    pub queue: Vec<TransitionQueueEntry<T>>,
    /// The value the current transition eases from.
    pub transition_checkpoint_value: T,
    /// The frame at which the current transition started.
    pub origin_frames_elapsed: u64,
}

impl<T: Interpolatable> TransitionManager<T> {
    /// Well-formedness: the checkpoint and every queued target are admitted
    /// to interpolation, and durations are in machine range.
    pub open spec fn wf(self) -> bool {
        self.transition_checkpoint_value.valid() && entries_wf(self.queue@)
    }

    pub fn new(value: T, current_time: u64) -> (r: Self)
        requires
            value.valid(),
        ensures
            r.wf(),
            r.queue@.len() == 0,
            r.transition_checkpoint_value == value,
            r.origin_frames_elapsed == current_time,
    {
        TransitionManager {
            queue: Vec::new(),
            transition_checkpoint_value: value,
            origin_frames_elapsed: current_time,
        }
    }

    /// Enqueue a transition after any already queued; a running transition
    /// is never interrupted.
    pub fn push_transition(&mut self, transition: TransitionQueueEntry<T>)
        requires
            old(self).wf(),
            transition.ending_value.valid(),
            transition.duration_frames <= MAX_DURATION,
        ensures
            final(self).wf(),
            final(self).queue@ == old(self).queue@.push(transition),
            final(self).transition_checkpoint_value == old(self).transition_checkpoint_value,
            final(self).origin_frames_elapsed == old(self).origin_frames_elapsed,
    {
        self.queue.push(transition);
    }

    /// Snapshot the currently eased value as the new baseline checkpoint and
    /// clear the pending queue: a later read eases from where the reset saw
    /// the value, and nothing remains queued.
    pub fn reset_transitions(&mut self, current_time: u64)
        requires
            old(self).wf(),
            old(self).origin_frames_elapsed <= current_time,
        ensures
            final(self).wf(),
            final(self).queue@.len() == 0,
            final(self).origin_frames_elapsed == current_time,
            final(self).transition_checkpoint_value == (match eased_value_spec(
                old(self).queue@,
                old(self).transition_checkpoint_value,
                old(self).origin_frames_elapsed as int,
                current_time as int,
            ) {
                Option::Some(v) => v,
                Option::None => fast_forward(
                    old(self).queue@,
                    old(self).transition_checkpoint_value,
                    old(self).origin_frames_elapsed as int,
                    current_time as int,
                ).1,
            }),
    {
        let eased = self.compute_eased_value(current_time);
        if let Option::Some(v) = eased {
            self.transition_checkpoint_value = v;
        }
        self.queue.clear();
        self.origin_frames_elapsed = current_time;
    }

    /// Advance to frame `frames_elapsed` and return the eased value, or
    /// `None` when no transition remains. Fully elapsed transitions are
    /// popped; zero-duration transitions complete instantaneously, so the
    /// local progress is never a division by zero. Popping past the queue
    /// end leaves the last target as the checkpoint, unchanged thereafter.
    pub fn compute_eased_value(&mut self, frames_elapsed: u64) -> (r: Option<T>)
        requires
            old(self).wf(),
            old(self).origin_frames_elapsed <= frames_elapsed,
        ensures
            final(self).wf(),
            final(self).origin_frames_elapsed <= frames_elapsed,
            (match r {
                Option::Some(v) => v.valid(),
                Option::None => true,
            }),
            r == eased_value_spec(
                old(self).queue@,
                old(self).transition_checkpoint_value,
                old(self).origin_frames_elapsed as int,
                frames_elapsed as int,
            ),
            (
                final(self).queue@,
                final(self).transition_checkpoint_value,
                final(self).origin_frames_elapsed as int,
            ) == fast_forward(
                old(self).queue@,
                old(self).transition_checkpoint_value,
                old(self).origin_frames_elapsed as int,
                frames_elapsed as int,
            ),
    {
        while self.queue.len() > 0 && (frames_elapsed - self.origin_frames_elapsed
            > self.queue[0].duration_frames || self.queue[0].duration_frames == 0)
            invariant
                self.wf(),
                self.origin_frames_elapsed <= frames_elapsed,
                fast_forward(
                    self.queue@,
                    self.transition_checkpoint_value,
                    self.origin_frames_elapsed as int,
                    frames_elapsed as int,
                ) == fast_forward(
                    old(self).queue@,
                    old(self).transition_checkpoint_value,
                    old(self).origin_frames_elapsed as int,
                    frames_elapsed as int,
                ),
            decreases self.queue.len(),
        {
            let ghost prev_q = self.queue@;
            let entry = self.queue.remove(0);
            proof {
                assert(self.queue@ =~= prev_q.drop_first());
            }
            self.origin_frames_elapsed = self.origin_frames_elapsed + entry.duration_frames;
            self.transition_checkpoint_value = entry.ending_value;
        }
        if self.queue.len() == 0 {
            Option::None
        } else {
            let local: u64 = frames_elapsed - self.origin_frames_elapsed;
            let dur: u64 = self.queue[0].duration_frames;
            proof {
                lemma_div_is_ordered(local as int * 1000, dur as int * 1000, dur as int);
                lemma_div_multiples_vanish(1000, dur as int);
            }
            let progress: u64 = local * 1000 / dur;
            let m: i64 = self.queue[0].curve.multiplier(progress);
            let v = self.transition_checkpoint_value.interpolate(
                &self.queue[0].ending_value,
                m,
            );
            Option::Some(v)
        }
    }
}

} // verus!
