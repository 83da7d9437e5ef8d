//! The static instance tree. An instance node is the immutable description
//! of one template position: its kind, its child instance nodes, factories
//! for its prototypical property state, and per-kind flags. Instances are
//! built once through the registry, never mutated, and may be shared
//! read-only across many expansions.

use vstd::prelude::*;
use crate::color::Color;
use crate::common::CommonProperties;
use crate::coproduct::{
    ComponentProperties,
    GroupProperties,
    NodeKind,
    PropertiesCoproduct,
    RectangleCornerRadii,
    RectangleProperties,
    SlotProperties,
};
use crate::interpolation::Interpolatable;
use crate::numeric::Numeric;
use crate::occlusion::Layer;
use crate::property::Property;
use crate::size::{Rotation, Size};
use crate::transform::Transform2D;

verus! {

/// Per-kind behavior flags of an instance node.
#[derive(Clone, Copy, Debug, PartialEq, Eq, Structural)]
pub struct InstanceFlags {
    /// The node does not itself count as a slot child; its children are
    /// flattened in its place.
    pub invisible_to_slot: bool,
    pub invisible_to_raycasting: bool,
    pub layer: Layer,
    pub is_component: bool,
}

/// The flags each node kind carries.
pub open spec fn flags_for(kind: NodeKind) -> InstanceFlags {
    match kind {
        NodeKind::Group => InstanceFlags {
            invisible_to_slot: true,
            invisible_to_raycasting: true,
            layer: Layer::DontCare,
            is_component: false,
        },
        NodeKind::Rectangle => InstanceFlags {
            invisible_to_slot: false,
            invisible_to_raycasting: false,
            layer: Layer::Canvas,
            is_component: false,
        },
        NodeKind::Slot => InstanceFlags {
            invisible_to_slot: false,
            invisible_to_raycasting: true,
            layer: Layer::DontCare,
            is_component: false,
        },
        NodeKind::Component => InstanceFlags {
            invisible_to_slot: false,
            invisible_to_raycasting: true,
            layer: Layer::DontCare,
            is_component: true,
        },
    }
}

/// Executable counterpart of `flags_for`.
pub fn make_flags(kind: NodeKind) -> (r: InstanceFlags)
    ensures
        r == flags_for(kind),
{
    match kind {
        NodeKind::Group => InstanceFlags {
            invisible_to_slot: true,
            invisible_to_raycasting: true,
            layer: Layer::DontCare,
            is_component: false,
        },
        NodeKind::Rectangle => InstanceFlags {
            invisible_to_slot: false,
            invisible_to_raycasting: false,
            layer: Layer::Canvas,
            is_component: false,
        },
        NodeKind::Slot => InstanceFlags {
            invisible_to_slot: false,
            invisible_to_raycasting: true,
            layer: Layer::DontCare,
            is_component: false,
        },
        NodeKind::Component => InstanceFlags {
            invisible_to_slot: false,
            invisible_to_raycasting: true,
            layer: Layer::DontCare,
            is_component: true,
        },
    }
}

/// A fresh value cell holding a literal: no binding, no transition, clean.
pub open spec fn fresh_cell<T: Interpolatable>(value: T) -> Property<T> {
    Property { value, dirty: false, expression_id: Option::None, transition: Option::None }
}

/// The factory for a node's prototypical kind-specific property state:
/// the initial values its cells hold on first expansion.
pub enum PropertiesFactory {
    Group,
    Component,
    Rectangle {
        fill: Color,
        stroke_color: Color,
        stroke_width: Size,
        corner_radii: RectangleCornerRadii,
    },
    Slot { index: Numeric },
}

impl PropertiesFactory {
    /// The node kind this factory builds state for.
    pub open spec fn kind(self) -> NodeKind {
        match self {
            PropertiesFactory::Group => NodeKind::Group,
            PropertiesFactory::Component => NodeKind::Component,
            PropertiesFactory::Rectangle { .. } => NodeKind::Rectangle,
            PropertiesFactory::Slot { .. } => NodeKind::Slot,
        }
    }

    /// Initial values admitted to interpolation.
    pub open spec fn wf(self) -> bool {
        match self {
            PropertiesFactory::Group => true,
            PropertiesFactory::Component => true,
            PropertiesFactory::Rectangle { fill, stroke_color, stroke_width, corner_radii } => {
                fill.wf() && stroke_color.wf() && stroke_width.in_range() && corner_radii.valid()
            },
            PropertiesFactory::Slot { index } => index.in_range(),
        }
    }

    /// The prototypical property state this factory yields.
    pub open spec fn make_spec(self) -> PropertiesCoproduct {
        match self {
            PropertiesFactory::Group => PropertiesCoproduct::Group(GroupProperties {}),
            PropertiesFactory::Component => PropertiesCoproduct::Component(
                ComponentProperties {},
            ),
            PropertiesFactory::Rectangle { fill, stroke_color, stroke_width, corner_radii } => {
                PropertiesCoproduct::Rectangle(
                    RectangleProperties {
                        fill: fresh_cell(fill),
                        stroke_color: fresh_cell(stroke_color),
                        stroke_width: fresh_cell(stroke_width),
                        corner_radii: fresh_cell(corner_radii),
                    },
                )
            },
            PropertiesFactory::Slot { index } => PropertiesCoproduct::Slot(
                SlotProperties {
                    index: fresh_cell(index),
                    last_index: 0,
                    last_node_id: Option::None,
                },
            ),
        }
    }

    /// Build fresh prototypical property state.
    pub fn make(&self) -> (r: PropertiesCoproduct)
        requires
            self.wf(),
        ensures
            r == self.make_spec(),
            r.kind() == self.kind(),
    {
        match self {
            PropertiesFactory::Group => PropertiesCoproduct::Group(GroupProperties {}),
            PropertiesFactory::Component => PropertiesCoproduct::Component(
                ComponentProperties {},
            ),
            PropertiesFactory::Rectangle { fill, stroke_color, stroke_width, corner_radii } => {
                PropertiesCoproduct::Rectangle(
                    RectangleProperties {
                        fill: Property::new(*fill),
                        stroke_color: Property::new(*stroke_color),
                        stroke_width: Property::new(*stroke_width),
                        corner_radii: Property::new(*corner_radii),
                    },
                )
            },
            PropertiesFactory::Slot { index } => PropertiesCoproduct::Slot(
                SlotProperties {
                    index: Property::new(*index),
                    last_index: 0,
                    last_node_id: Option::None,
                },
            ),
        }
    }
}

/// The factory for a node's default layout property state: the initial
/// values of the shared cells.
pub struct CommonPropertiesFactory {
    pub id: Option<String>,
    pub x: Option<Size>,
    pub y: Option<Size>,
    pub width: Option<Size>,
    pub height: Option<Size>,
    pub anchor_x: Option<Size>,
    pub anchor_y: Option<Size>,
    pub scale_x: Option<Size>,
    pub scale_y: Option<Size>,
    pub skew_x: Option<Rotation>,
    pub skew_y: Option<Rotation>,
    pub rotate: Option<Rotation>,
    pub transform: Option<Transform2D>,
}

impl CommonPropertiesFactory {
    /// Every carried value admitted to interpolation.
    pub open spec fn wf(self) -> bool {
        &&& self.x.valid()
        &&& self.y.valid()
        &&& self.width.valid()
        &&& self.height.valid()
        &&& self.anchor_x.valid()
        &&& self.anchor_y.valid()
        &&& self.scale_x.valid()
        &&& self.scale_y.valid()
        &&& self.skew_x.valid()
        &&& self.skew_y.valid()
        &&& self.rotate.valid()
    }

    /// All layout values unset.
    pub fn unset() -> (r: Self)
        ensures
            r.wf(),
            r.id is None,
            r.width is None,
            r.height is None,
            r.x is None,
            r.y is None,
    {
        CommonPropertiesFactory {
            id: Option::None,
            x: Option::None,
            y: Option::None,
            width: Option::None,
            height: Option::None,
            anchor_x: Option::None,
            anchor_y: Option::None,
            scale_x: Option::None,
            scale_y: Option::None,
            skew_x: Option::None,
            skew_y: Option::None,
            rotate: Option::None,
            transform: Option::None,
        }
    }

    /// Build fresh shared cells holding the factory's initial values.
    pub fn make(&self) -> (r: CommonProperties)
        requires
            self.wf(),
        ensures
            r.wf(),
            r.id == fresh_cell(self.id),
            r.x == fresh_cell(self.x),
            r.y == fresh_cell(self.y),
            r.width == fresh_cell(self.width),
            r.height == fresh_cell(self.height),
            r.anchor_x == fresh_cell(self.anchor_x),
            r.anchor_y == fresh_cell(self.anchor_y),
            r.scale_x == fresh_cell(self.scale_x),
            r.scale_y == fresh_cell(self.scale_y),
            r.skew_x == fresh_cell(self.skew_x),
            r.skew_y == fresh_cell(self.skew_y),
            r.rotate == fresh_cell(self.rotate),
            r.transform == fresh_cell(self.transform),
    {
        CommonProperties {
            id: Property::new(self.id.duplicate()),
            x: Property::new(self.x),
            y: Property::new(self.y),
            width: Property::new(self.width),
            height: Property::new(self.height),
            anchor_x: Property::new(self.anchor_x),
            anchor_y: Property::new(self.anchor_y),
            scale_x: Property::new(self.scale_x),
            scale_y: Property::new(self.scale_y),
            skew_x: Property::new(self.skew_x),
            skew_y: Property::new(self.skew_y),
            rotate: Property::new(self.rotate),
            transform: Property::new(self.transform.duplicate()),
        }
    }
}

/// Everything `instantiate` needs: the child instances (for a component,
/// its template), the usage-site slot children (components only), and the
/// two property factories.
pub struct InstantiationArgs {
    pub children: Vec<u64>,
    pub slot_children: Vec<u64>,
    pub properties_factory: PropertiesFactory,
    pub common_properties_factory: CommonPropertiesFactory,
}

/// Rejection of a static description at build time.
#[derive(Clone, Copy, Debug, PartialEq, Eq, Structural)]
pub enum BuildError {
    /// A child reference names an instance the registry does not hold yet.
    MalformedDescription,
}

/// One immutable tree-position description.
pub struct InstanceNode {
    pub instance_id: u64,
    pub kind: NodeKind,
    /// Child instances; for a component, its template.
    pub instance_children: Vec<u64>,
    /// For a component, the usage-site children projected into its slots.
    pub slot_children: Vec<u64>,
    pub properties_factory: PropertiesFactory,
    pub common_properties_factory: CommonPropertiesFactory,
    pub flags: InstanceFlags,
}

impl InstanceNode {
    /// Instance nodes reference only instances registered before them, so
    /// the static tree is acyclic by construction.
    pub open spec fn wf(self, id: int) -> bool {
        &&& self.instance_id == id
        &&& self.kind == self.properties_factory.kind()
        &&& self.flags == flags_for(self.kind)
        &&& self.properties_factory.wf()
        &&& self.common_properties_factory.wf()
        &&& forall|j: int|
            0 <= j < self.instance_children@.len() ==> (#[trigger] self.instance_children@[j])
                < id
        &&& forall|j: int|
            0 <= j < self.slot_children@.len() ==> (#[trigger] self.slot_children@[j]) < id
    }
}

/// The registry owning the static instance tree; instance ids are indexes
/// into it, minted by an explicit counter.
pub struct NodeRegistry {
    pub instances: Vec<InstanceNode>,
}

impl NodeRegistry {
    pub open spec fn wf(self) -> bool {
        forall|i: int|
            0 <= i < self.instances@.len() ==> (#[trigger] self.instances@[i]).wf(i)
    }

    pub fn new() -> (r: Self)
        ensures
            r.wf(),
            r.instances@.len() == 0,
    {
        NodeRegistry { instances: Vec::new() }
    }

    /// The id the next registered instance receives.
    pub fn mint_instance_id(&self) -> (r: u64)
        requires
            self.instances@.len() < 0xffff_ffff_ffff_ffff,
        ensures
            r == self.instances@.len(),
    {
        self.instances.len() as u64
    }

    /// Build an instance node from its static description. Fails exactly
    /// when the description is malformed: a child or slot-child reference
    /// names an instance that is not registered yet.
    pub fn instantiate(&mut self, args: InstantiationArgs) -> (r: Result<u64, BuildError>)
        requires
            old(self).wf(),
            old(self).instances@.len() < 0xffff_ffff_ffff_ffff,
            args.properties_factory.wf(),
            args.common_properties_factory.wf(),
        ensures
            final(self).wf(),
            match r {
                Result::Ok(id) => {
                    &&& id == old(self).instances@.len()
                    &&& final(self).instances@.len() == old(self).instances@.len() + 1
                    &&& final(self).instances@.subrange(0, old(self).instances@.len() as int)
                        == old(self).instances@
                    &&& final(self).instances@[id as int].kind == args.properties_factory.kind()
                    &&& final(self).instances@[id as int].instance_children@
                        == args.children@
                    &&& final(self).instances@[id as int].slot_children@ == args.slot_children@
                    &&& final(self).instances@[id as int].properties_factory
                        == args.properties_factory
                    &&& final(self).instances@[id as int].common_properties_factory
                        == args.common_properties_factory
                    &&& final(self).instances@[id as int].instance_id == id
                    &&& final(self).instances@[id as int].flags == flags_for(
                        args.properties_factory.kind(),
                    )
                    &&& (forall|j: int|
                        0 <= j < args.children@.len() ==> (#[trigger] args.children@[j]) < id)
                    &&& (forall|j: int|
                        0 <= j < args.slot_children@.len() ==> (#[trigger] args.slot_children@[j])
                            < id)
                },
                Result::Err(e) => {
                    &&& e == BuildError::MalformedDescription
                    &&& *final(self) == *old(self)
                    &&& ((exists|j: int|
                        0 <= j < args.children@.len() && (#[trigger] args.children@[j])
                            >= old(self).instances@.len()) || (exists|j: int|
                        0 <= j < args.slot_children@.len() && (#[trigger] args.slot_children@[j])
                            >= old(self).instances@.len()))
                },
            },
    {
        let id: u64 = self.instances.len() as u64;
        if !all_below(&args.children, id) || !all_below(&args.slot_children, id) {
            return Result::Err(BuildError::MalformedDescription);
        }
        let kind = args.properties_factory.tag_kind();
        let node = InstanceNode {
            instance_id: id,
            kind,
            instance_children: args.children,
            slot_children: args.slot_children,
            properties_factory: args.properties_factory,
            common_properties_factory: args.common_properties_factory,
            flags: make_flags(kind),
        };
        self.instances.push(node);
        proof {
            assert(self.instances@.subrange(0, old(self).instances@.len() as int) =~= old(
                self,
            ).instances@);
        }
        Result::Ok(id)
    }
}

/// Whether every id in the list lies below the bound.
fn all_below(ids: &Vec<u64>, bound: u64) -> (r: bool)
    ensures
        r <==> (forall|k: int| 0 <= k < ids@.len() ==> (#[trigger] ids@[k]) < bound),
{
    let mut j: usize = 0;
    while j < ids.len()
        invariant
            j <= ids@.len(),
            forall|k: int| 0 <= k < j ==> (#[trigger] ids@[k]) < bound,
        decreases ids@.len() - j,
    {
        if ids[j] >= bound {
            return false;
        }
        j = j + 1;
    }
    true
}

impl PropertiesFactory {
    /// The kind tag, executably.
    pub fn tag_kind(&self) -> (k: NodeKind)
        ensures
            k == self.kind(),
    {
        match self {
            PropertiesFactory::Group => NodeKind::Group,
            PropertiesFactory::Component => NodeKind::Component,
            PropertiesFactory::Rectangle { .. } => NodeKind::Rectangle,
            PropertiesFactory::Slot { .. } => NodeKind::Slot,
        }
    }
}

} // verus!
