//! Type-erased per-node state: one closed coproduct holds any node kind's
//! concrete property structure behind a single handle. Access is
//! type-checked — asking for the wrong kind is rejected before any mutation
//! becomes visible — and a write replaces the whole value at once, so the
//! original is never left half-written.

use vstd::prelude::*;
use crate::color::Color;
use crate::numeric::Numeric;
use crate::property::Property;
use crate::size::Size;

verus! {

/// The closed set of node kinds this runtime expands.
#[derive(Clone, Copy, Debug, PartialEq, Eq, Structural)]
pub enum NodeKind {
    Group,
    Rectangle,
    Slot,
    Component,
}

/// Rejection of a node-state access: the handle holds another kind.
#[derive(Clone, Copy, Debug, PartialEq, Eq, Structural)]
pub enum StateError {
    TypeMismatch,
}

/// Properties of a group node, which only gathers children.
#[derive(Clone)]
pub struct GroupProperties {}

/// Properties of a component node; its projected slot children live on the
/// expanded node.
#[derive(Clone)]
pub struct ComponentProperties {}

/// Per-corner radii of a rectangle.
#[derive(Clone, Copy, Debug, PartialEq, Eq, Structural)]
pub struct RectangleCornerRadii {
    pub top_left: Numeric,
    pub top_right: Numeric,
    pub bottom_left: Numeric,
    pub bottom_right: Numeric,
}

/// Corner radii blend corner-wise.
impl crate::interpolation::Interpolatable for RectangleCornerRadii {
    open spec fn valid(self) -> bool {
        &&& self.top_left.in_range()
        &&& self.top_right.in_range()
        &&& self.bottom_left.in_range()
        &&& self.bottom_right.in_range()
    }

    open spec fn interp_spec(self, other: Self, m: int) -> Self {
        RectangleCornerRadii {
            top_left: self.top_left.interp_spec(other.top_left, m),
            top_right: self.top_right.interp_spec(other.top_right, m),
            bottom_left: self.bottom_left.interp_spec(other.bottom_left, m),
            bottom_right: self.bottom_right.interp_spec(other.bottom_right, m),
        }
    }

    fn interpolate(&self, other: &Self, m: i64) -> (r: Self) {
        RectangleCornerRadii {
            top_left: self.top_left.interpolate(&other.top_left, m),
            top_right: self.top_right.interpolate(&other.top_right, m),
            bottom_left: self.bottom_left.interpolate(&other.bottom_left, m),
            bottom_right: self.bottom_right.interpolate(&other.bottom_right, m),
        }
    }

    fn duplicate(&self) -> (r: Self) {
        *self
    }
}

/// Properties of a rectangle node. The fill cell holds a solid color:
/// gradient fills carry stop vectors, and a cell value must support an exact
/// verified copy, which a vector-bearing type cannot state here; gradient
/// descriptions and their stop normalization live beside the paint types for
/// the host to consume directly.
#[derive(Clone)]
pub struct RectangleProperties {
    pub fill: Property<Color>,
    pub stroke_color: Property<Color>,
    pub stroke_width: Property<Size>,
    pub corner_radii: Property<RectangleCornerRadii>,
}

/// Properties of a slot node: the index cell, plus the index and projected
/// node identity seen on the previous frame, used to decide whether the
/// children must be recomputed.
#[derive(Clone)]
pub struct SlotProperties {
    /// The slot's index into the containing component's flattened
    /// slot-children list; a literal or an expression.
    pub index: Property<Numeric>,
    /// The index resolved on the last update.
    pub last_index: usize,
    /// The identity of the node projected on the last update, if any.
    pub last_node_id: Option<u64>,
}

/// The type-erased node state: a tagged coproduct over the node kinds'
/// concrete property structures.
pub enum PropertiesCoproduct {
    Group(GroupProperties),
    Component(ComponentProperties),
    Rectangle(RectangleProperties),
    Slot(SlotProperties),
}

impl PropertiesCoproduct {
    /// The kind tag the handle carries.
    pub open spec fn kind(self) -> NodeKind {
        match self {
            PropertiesCoproduct::Group(_) => NodeKind::Group,
            PropertiesCoproduct::Component(_) => NodeKind::Component,
            PropertiesCoproduct::Rectangle(_) => NodeKind::Rectangle,
            PropertiesCoproduct::Slot(_) => NodeKind::Slot,
        }
    }

    pub fn tag(&self) -> (k: NodeKind)
        ensures
            k == self.kind(),
    {
        match self {
            PropertiesCoproduct::Group(_) => NodeKind::Group,
            PropertiesCoproduct::Component(_) => NodeKind::Component,
            PropertiesCoproduct::Rectangle(_) => NodeKind::Rectangle,
            PropertiesCoproduct::Slot(_) => NodeKind::Slot,
        }
    }

    /// Wrap a slot structure behind the type-erased handle.
    pub fn wrap_slot(v: SlotProperties) -> (r: PropertiesCoproduct)
        ensures
            r == PropertiesCoproduct::Slot(v),
    {
        PropertiesCoproduct::Slot(v)
    }

    /// Wrap a rectangle structure behind the type-erased handle.
    pub fn wrap_rectangle(v: RectangleProperties) -> (r: PropertiesCoproduct)
        ensures
            r == PropertiesCoproduct::Rectangle(v),
    {
        PropertiesCoproduct::Rectangle(v)
    }

    /// Wrap a group structure behind the type-erased handle.
    pub fn wrap_group(v: GroupProperties) -> (r: PropertiesCoproduct)
        ensures
            r == PropertiesCoproduct::Group(v),
    {
        PropertiesCoproduct::Group(v)
    }

    /// Borrow the slot structure; rejected without effect when the handle
    /// holds another kind.
    pub fn read_slot(&self) -> (r: Result<&SlotProperties, StateError>)
        ensures
            match r {
                Result::Ok(s) => *self == PropertiesCoproduct::Slot(*s),
                Result::Err(e) => e == StateError::TypeMismatch && self.kind() != NodeKind::Slot,
            },
    {
        match self {
            PropertiesCoproduct::Slot(s) => Result::Ok(s),
            _ => Result::Err(StateError::TypeMismatch),
        }
    }

    /// Replace the slot structure in one step. On a kind mismatch nothing is
    /// written and the handle is unchanged; otherwise the new value replaces
    /// the old atomically.
    pub fn write_slot(&mut self, v: SlotProperties) -> (r: Result<(), StateError>)
        ensures
            match r {
                Result::Ok(_) => old(self).kind() == NodeKind::Slot && *final(self)
                    == PropertiesCoproduct::Slot(v),
                Result::Err(e) => e == StateError::TypeMismatch && old(self).kind()
                    != NodeKind::Slot && *final(self) == *old(self),
            },
    {
        match self {
            PropertiesCoproduct::Slot(_) => {
                *self = PropertiesCoproduct::Slot(v);
                Result::Ok(())
            },
            _ => Result::Err(StateError::TypeMismatch),
        }
    }

    /// Borrow the rectangle structure; rejected without effect when the
    /// handle holds another kind.
    pub fn read_rectangle(&self) -> (r: Result<&RectangleProperties, StateError>)
        ensures
            match r {
                Result::Ok(s) => *self == PropertiesCoproduct::Rectangle(*s),
                Result::Err(e) => e == StateError::TypeMismatch && self.kind()
                    != NodeKind::Rectangle,
            },
    {
        match self {
            PropertiesCoproduct::Rectangle(s) => Result::Ok(s),
            _ => Result::Err(StateError::TypeMismatch),
        }
    }

    /// Replace the rectangle structure in one step; a kind mismatch writes
    /// nothing.
    pub fn write_rectangle(&mut self, v: RectangleProperties) -> (r: Result<(), StateError>)
        ensures
            match r {
                Result::Ok(_) => old(self).kind() == NodeKind::Rectangle && *final(self)
                    == PropertiesCoproduct::Rectangle(v),
                Result::Err(e) => e == StateError::TypeMismatch && old(self).kind()
                    != NodeKind::Rectangle && *final(self) == *old(self),
            },
    {
        match self {
            PropertiesCoproduct::Rectangle(_) => {
                *self = PropertiesCoproduct::Rectangle(v);
                Result::Ok(())
            },
            _ => Result::Err(StateError::TypeMismatch),
        }
    }

    /// Take the value out of the handle, leaving an empty group structure in
    /// its place; the swap-out half of a scoped access.
    pub fn take(&mut self) -> (r: PropertiesCoproduct)
        ensures
            r == *old(self),
            *final(self) == PropertiesCoproduct::Group(GroupProperties {}),
    {
        let mut out = PropertiesCoproduct::Group(GroupProperties {});
        core::mem::swap(&mut out, self);
        out
    }
}

/// A scoped mutate-and-writeback is exact: after a successful checked write
/// of a mutated slot structure (which `write_slot` guarantees leaves the
/// handle holding exactly that structure), every later independent read
/// observes exactly the mutated value — and on a handle of any other kind
/// the write is rejected with the handle untouched, so no partial mutation
/// is ever visible.
pub proof fn lemma_scoped_writeback_observed(after: PropertiesCoproduct, mutated: SlotProperties)
    requires
        after == PropertiesCoproduct::Slot(mutated),
    ensures
        after.kind() == NodeKind::Slot,
        forall|s: SlotProperties| after == PropertiesCoproduct::Slot(s) ==> s == mutated,
{
}

} // verus!
