//! The live node tree and the per-frame expansion driver. Expanded nodes
//! live in an arena addressed by stable integer id; parent, child and
//! containing-component relations are id references. A position cache keys
//! each tree position to its expanded node, so expansion is idempotent:
//! exactly one live expanded node exists per active (instance, position)
//! pair.

use vstd::prelude::*;
use crate::color::Color;
use crate::common::CommonProperties;
use crate::coproduct::{NodeKind, PropertiesCoproduct, RectangleCornerRadii};
use crate::instance::NodeRegistry;
use crate::interpolation::Interpolatable;
use crate::numeric::Numeric;
use crate::occlusion::Layer;
use crate::property::Property;
use crate::size::Size;
use crate::transform::Transform2D;
use crate::transition::fast_forward;

verus! {

/// A live node: the per-frame materialization of an instance node at one
/// tree position.
pub struct ExpandedNode {
    /// This node's arena id (its index).
    pub id: u64,
    /// The instance node this expansion materializes.
    pub instance_id: u64,
    /// The tree position: the child-index path from the root.
    pub id_path: Vec<u64>,
    /// Weak back-reference (by id) to the containing component's node.
    pub containing_component: Option<u64>,
    /// Type-erased kind-specific property state.
    pub properties: PropertiesCoproduct,
    /// Shared layout cells.
    pub common_properties: CommonProperties,
    /// Currently attached children, exclusively owned.
    pub children: Vec<u64>,
    /// For component nodes: the ordered flattened slot-children list.
    pub expanded_and_flattened_slot_children: Option<Vec<u64>>,
    pub invisible_to_raycasting: bool,
    pub layer: Layer,
}

/// The host's dispatch table for expression-bound cells: recomputed values,
/// keyed by expression id.
pub struct ExpressionTable {
    pub numeric_values: Vec<Numeric>,
    pub size_values: Vec<Size>,
    pub color_values: Vec<Color>,
}

impl ExpressionTable {
    pub open spec fn wf(self) -> bool {
        &&& forall|i: int|
            0 <= i < self.numeric_values@.len() ==> (#[trigger] self.numeric_values@[i]).in_range()
        &&& forall|i: int|
            0 <= i < self.size_values@.len() ==> (#[trigger] self.size_values@[i]).in_range()
        &&& forall|i: int|
            0 <= i < self.color_values@.len() ==> (#[trigger] self.color_values@[i]).wf()
    }

    /// The numeric value an expression id resolves to, if the table has it.
    pub open spec fn numeric_spec(self, id: int) -> Option<Numeric> {
        if 0 <= id < self.numeric_values@.len() {
            Option::Some(self.numeric_values@[id])
        } else {
            Option::None
        }
    }

    pub fn lookup_numeric(&self, id: usize) -> (r: Option<Numeric>)
        ensures
            r == self.numeric_spec(id as int),
    {
        if id < self.numeric_values.len() {
            Option::Some(self.numeric_values[id])
        } else {
            Option::None
        }
    }

    pub open spec fn size_spec(self, id: int) -> Option<Size> {
        if 0 <= id < self.size_values@.len() {
            Option::Some(self.size_values@[id])
        } else {
            Option::None
        }
    }

    pub fn lookup_size(&self, id: usize) -> (r: Option<Size>)
        ensures
            r == self.size_spec(id as int),
    {
        if id < self.size_values.len() {
            Option::Some(self.size_values[id])
        } else {
            Option::None
        }
    }

    pub open spec fn color_spec(self, id: int) -> Option<Color> {
        if 0 <= id < self.color_values@.len() {
            Option::Some(self.color_values@[id])
        } else {
            Option::None
        }
    }

    pub fn lookup_color(&self, id: usize) -> (r: Option<Color>)
        ensures
            r == self.color_spec(id as int),
    {
        if id < self.color_values.len() {
            Option::Some(self.color_values[id])
        } else {
            Option::None
        }
    }
}

/// An evaluation-time contract violation; it aborts the current frame's
/// walk.
#[derive(Clone, Copy, Debug, PartialEq, Eq, Structural)]
pub enum RuntimeError {
    /// A slot's index expression resolved to a negative value.
    NegativeSlotIndex,
    /// A slot sits outside any containing component.
    MissingContainingComponent,
    /// The walk exceeded its recursion budget (a cyclic dependency upstream).
    RecursionLimit,
    /// A node id did not resolve in the arena.
    UnknownNode,
    /// The expanded arena refused to grow past its headroom bound.
    CapacityExceeded,
}

/// Whether a node's kind-specific cells are well formed and their transition
/// origins lie at or before the current frame.
pub open spec fn props_wf(p: PropertiesCoproduct, now: int) -> bool {
    match p {
        PropertiesCoproduct::Group(_) => true,
        PropertiesCoproduct::Component(_) => true,
        PropertiesCoproduct::Rectangle(r) => {
            &&& r.fill.wf() && cell_origin_le(r.fill.tm_origin(), r.fill.has_transition(), now)
            &&& r.stroke_color.wf() && cell_origin_le(
                r.stroke_color.tm_origin(),
                r.stroke_color.has_transition(),
                now,
            )
            &&& r.stroke_width.wf() && cell_origin_le(
                r.stroke_width.tm_origin(),
                r.stroke_width.has_transition(),
                now,
            )
            &&& r.corner_radii.wf() && cell_origin_le(
                r.corner_radii.tm_origin(),
                r.corner_radii.has_transition(),
                now,
            )
        },
        PropertiesCoproduct::Slot(s) => {
            &&& s.index.wf()
            &&& cell_origin_le(s.index.tm_origin(), s.index.has_transition(), now)
        },
    }
}

/// A cell's transition origin lies at or before the current frame (or the
/// cell carries no transition).
pub open spec fn cell_origin_le(origin: int, has: bool, now: int) -> bool {
    has ==> origin <= now
}

/// Whether a node's shared cells are well formed with origins at or before
/// the current frame.
pub open spec fn common_wf(c: CommonProperties, now: int) -> bool {
    &&& c.wf()
    &&& cell_origin_le(c.id.tm_origin(), c.id.has_transition(), now)
    &&& cell_origin_le(c.x.tm_origin(), c.x.has_transition(), now)
    &&& cell_origin_le(c.y.tm_origin(), c.y.has_transition(), now)
    &&& cell_origin_le(c.width.tm_origin(), c.width.has_transition(), now)
    &&& cell_origin_le(c.height.tm_origin(), c.height.has_transition(), now)
    &&& cell_origin_le(c.anchor_x.tm_origin(), c.anchor_x.has_transition(), now)
    &&& cell_origin_le(c.anchor_y.tm_origin(), c.anchor_y.has_transition(), now)
    &&& cell_origin_le(c.scale_x.tm_origin(), c.scale_x.has_transition(), now)
    &&& cell_origin_le(c.scale_y.tm_origin(), c.scale_y.has_transition(), now)
    &&& cell_origin_le(c.skew_x.tm_origin(), c.skew_x.has_transition(), now)
    &&& cell_origin_le(c.skew_y.tm_origin(), c.skew_y.has_transition(), now)
    &&& cell_origin_le(c.rotate.tm_origin(), c.rotate.has_transition(), now)
    &&& cell_origin_le(c.transform.tm_origin(), c.transform.has_transition(), now)
}

/// The whole runtime state: the shared static instance tree, the expanded
/// arena, the position cache, the frame counter, and the host's expression
/// dispatch table.
pub struct RuntimeContext {
    pub registry: NodeRegistry,
    pub arena: Vec<ExpandedNode>,
    /// Tree position to expanded id; one entry per live position.
    pub position_cache: Vec<(Vec<u64>, u64)>,
    pub frames_elapsed: u64,
    pub expression_table: ExpressionTable,
}

/// The cached expanded id for a tree position, if the position is live
/// (the first matching entry decides).
pub open spec fn cache_lookup(cache: Seq<(Vec<u64>, u64)>, path: Seq<u64>) -> Option<u64>
    decreases cache.len(),
{
    if cache.len() == 0 {
        Option::None
    } else if cache[0].0@ == path {
        Option::Some(cache[0].1)
    } else {
        cache_lookup(cache.drop_first(), path)
    }
}

impl ExpandedNode {
    /// Arena-local well-formedness of one expanded node.
    pub open spec fn wf(self, id: int, arena_len: int, instances_len: int, now: int) -> bool {
        &&& self.id == id
        &&& self.instance_id < instances_len
        &&& props_wf(self.properties, now)
        &&& common_wf(self.common_properties, now)
        &&& forall|j: int|
            0 <= j < self.children@.len() ==> (#[trigger] self.children@[j]) < arena_len
        &&& (match self.containing_component {
            Option::Some(c) => c < arena_len,
            Option::None => true,
        })
        &&& (match self.expanded_and_flattened_slot_children {
            Option::Some(v) => forall|j: int|
                0 <= j < v@.len() ==> (#[trigger] v@[j]) < arena_len,
            Option::None => true,
        })
    }
}

impl RuntimeContext {
    pub open spec fn wf(self) -> bool {
        &&& self.registry.wf()
        &&& self.expression_table.wf()
        &&& forall|i: int|
            0 <= i < self.arena@.len() ==> (#[trigger] self.arena@[i]).wf(
                i,
                self.arena@.len() as int,
                self.registry.instances@.len() as int,
                self.frames_elapsed as int,
            )
        &&& forall|i: int|
            0 <= i < self.position_cache@.len() ==> (#[trigger] self.position_cache@[i]).1
                < self.arena@.len()
    }

    pub fn new(registry: NodeRegistry, expression_table: ExpressionTable) -> (r: Self)
        requires
            registry.wf(),
            expression_table.wf(),
        ensures
            r.wf(),
            r.arena@.len() == 0,
            r.position_cache@.len() == 0,
            r.frames_elapsed == 0,
            r.registry == registry,
            r.expression_table == expression_table,
    {
        RuntimeContext {
            registry,
            arena: Vec::new(),
            position_cache: Vec::new(),
            frames_elapsed: 0,
            expression_table,
        }
    }

    /// Find or create the expanded node for an instance at a tree position.
    /// A cache hit returns the live node untouched — expansion is idempotent
    /// — and a miss creates the node with its prototypical property state
    /// attached, exactly once.
    pub fn expand(&mut self, instance_id: u64, id_path: Vec<u64>, containing_component: Option<
        u64,
    >) -> (r: u64)
        requires
            old(self).wf(),
            instance_id < old(self).registry.instances@.len(),
            old(self).arena@.len() < 0xffff_ffff_ffff_ffff,
            (match containing_component {
                Option::Some(c) => c < old(self).arena@.len(),
                Option::None => true,
            }),
        ensures
            final(self).wf(),
            final(self).registry == old(self).registry,
            final(self).frames_elapsed == old(self).frames_elapsed,
            final(self).expression_table == old(self).expression_table,
            // a live position is reused: the arena and cache are untouched
            (match cache_lookup(old(self).position_cache@, id_path@) {
                Option::Some(id) => r == id && *final(self) == *old(self),
                Option::None => {
                    &&& r == old(self).arena@.len()
                    &&& final(self).arena@.len() == old(self).arena@.len() + 1
                    &&& final(self).arena@.subrange(0, old(self).arena@.len() as int) == old(
                        self,
                    ).arena@
                    &&& final(self).arena@[r as int].instance_id == instance_id
                    &&& final(self).arena@[r as int].id_path@ == id_path@
                    &&& final(self).arena@[r as int].containing_component == containing_component
                    &&& final(self).arena@[r as int].children@.len() == 0
                    &&& final(self).arena@[r as int].properties == old(
                        self,
                    ).registry.instances@[instance_id as int].properties_factory.make_spec()
                    &&& final(self).position_cache@ == old(self).position_cache@.push(
                        (id_path, r),
                    )
                },
            }),
            final(self).position_cache@.len() >= old(self).position_cache@.len(),
            final(self).position_cache@.subrange(0, old(self).position_cache@.len() as int) == old(
                self,
            ).position_cache@,
            cache_lookup(final(self).position_cache@, id_path@) is Some,
            r as int == expand_result(old(self).position_cache@, old(self).arena@.len() as int, id_path@),
            r < final(self).arena@.len(),
            (match cache_lookup(final(self).position_cache@, id_path@) {
                Option::Some(id) => r == id,
                Option::None => false,
            }),
    {
        let found = self.lookup_position(&id_path);
        match found {
            Option::Some(id) => {
                proof {
                    lemma_cache_lookup_in_range(
                        self.position_cache@,
                        id_path@,
                        self.arena@.len() as int,
                    );
                }
                id
            },
            Option::None => {
                let id: u64 = self.arena.len() as u64;
                let n: usize = self.registry.instances.len();
                proof {
                    assert(instance_id < n as u64);
                }
                let instance = &self.registry.instances[instance_id as usize];
                let properties = instance.properties_factory.make();
                let common_properties = instance.common_properties_factory.make();
                let flags = instance.flags;
                let is_component = flags.is_component;
                let node = ExpandedNode {
                    id,
                    instance_id,
                    id_path: copy_ids(&id_path),
                    containing_component,
                    properties,
                    common_properties,
                    children: Vec::new(),
                    expanded_and_flattened_slot_children: if is_component {
                        Option::Some(Vec::new())
                    } else {
                        Option::None
                    },
                    invisible_to_raycasting: flags.invisible_to_raycasting,
                    layer: flags.layer,
                };
                self.arena.push(node);
                self.position_cache.push((id_path, id));
                proof {
                    assert(self.arena@.subrange(0, old(self).arena@.len() as int) =~= old(
                        self,
                    ).arena@);
                    assert(self.position_cache@.subrange(
                        0,
                        old(self).position_cache@.len() as int,
                    ) =~= old(self).position_cache@);
                    lemma_cache_lookup_push(
                        old(self).position_cache@,
                        self.position_cache@,
                        id_path@,
                        id,
                    );
                }
                id
            },
        }
    }

    /// Linear search of the position cache.
    fn lookup_position(&self, path: &Vec<u64>) -> (r: Option<u64>)
        ensures
            r == cache_lookup(self.position_cache@, path@),
    {
        let mut i: usize = 0;
        proof {
            assert(self.position_cache@.skip(0) =~= self.position_cache@);
        }
        while i < self.position_cache.len()
            invariant
                i <= self.position_cache@.len(),
                cache_lookup(self.position_cache@, path@) == cache_lookup(
                    self.position_cache@.skip(i as int),
                    path@,
                ),
            decreases self.position_cache@.len() - i,
        {
            proof {
                assert(self.position_cache@.skip(i as int).drop_first() =~= self.position_cache@
                    .skip(i as int + 1));
                assert(self.position_cache@.skip(i as int)[0] == self.position_cache@[i as int]);
            }
            if vec_u64_eq(&self.position_cache[i].0, path) {
                return Option::Some(self.position_cache[i].1);
            }
            i = i + 1;
        }
        proof {
            assert(self.position_cache@.skip(self.position_cache@.len() as int).len() == 0);
        }
        Option::None
    }
}

/// The identity `expand` yields at a tree position: the cached id when the
/// position is live, else the next fresh arena id.
pub open spec fn expand_result(cache: Seq<(Vec<u64>, u64)>, arena_len: int, path: Seq<u64>) -> int {
    match cache_lookup(cache, path) {
        Option::Some(id) => id as int,
        Option::None => arena_len,
    }
}

/// Expansion is idempotent: once a position resolves in the cache (as it
/// does after any expansion), expanding the same instance at the same tree
/// position again — without an intervening structural change — yields the
/// same expanded-node identity, and `expand`'s contract adds that the whole
/// runtime state is left untouched on such a hit.
pub proof fn lemma_expand_idempotent(
    cache: Seq<(Vec<u64>, u64)>,
    arena_len: int,
    path: Seq<u64>,
    first: u64,
)
    requires
        cache_lookup(cache, path) == Option::Some(first),
    ensures
        expand_result(cache, arena_len, path) == first as int,
{
}

/// A lookup that hits yields an id below the arena bound the cache respects.
proof fn lemma_cache_lookup_in_range(cache: Seq<(Vec<u64>, u64)>, path: Seq<u64>, bound: int)
    requires
        forall|i: int| 0 <= i < cache.len() ==> (#[trigger] cache[i]).1 < bound,
        cache_lookup(cache, path) is Some,
    ensures
        (match cache_lookup(cache, path) {
            Option::Some(id) => id < bound,
            Option::None => true,
        }),
    decreases cache.len(),
{
    if cache.len() == 0 {
    } else if cache[0].0@ == path {
        assert(cache[0].1 < bound);
    } else {
        assert(forall|i: int|
            0 <= i < cache.drop_first().len() ==> (#[trigger] cache.drop_first()[i]).1 < bound);
        lemma_cache_lookup_in_range(cache.drop_first(), path, bound);
    }
}

/// Pushing a fresh position onto the cache makes exactly that position
/// resolve to the new id, and leaves every other lookup unchanged.
proof fn lemma_cache_lookup_push(
    before: Seq<(Vec<u64>, u64)>,
    after: Seq<(Vec<u64>, u64)>,
    path: Seq<u64>,
    id: u64,
)
    requires
        cache_lookup(before, path) is None,
        after.len() == before.len() + 1,
        after.subrange(0, before.len() as int) == before,
        after.last().0@ == path,
        after.last().1 == id,
    ensures
        cache_lookup(after, path) == Option::Some(id),
    decreases before.len(),
{
    if before.len() == 0 {
        assert(after[0].0@ == path);
    } else {
        assert(after[0] == before[0]);
        if before[0].0@ == path {
            assert(false);
        } else {
            assert(after.drop_first().subrange(0, before.drop_first().len() as int) =~= before
                .drop_first());
            assert(after.drop_first().last() == after.last());
            lemma_cache_lookup_push(
                before.drop_first(),
                after.drop_first(),
                path,
                id,
            );
        }
    }
}

/// A cache that extends another by appends preserves every lookup that
/// already resolved: the first matching entry is unchanged.
proof fn lemma_cache_lookup_prefix(before: Seq<(Vec<u64>, u64)>, after: Seq<(Vec<u64>, u64)>, path: Seq<u64>)
    requires
        after.len() >= before.len(),
        after.subrange(0, before.len() as int) == before,
        cache_lookup(before, path) is Some,
    ensures
        cache_lookup(after, path) == cache_lookup(before, path),
    decreases before.len(),
{
    if before.len() > 0 {
        assert(after[0] == before[0]);
        if before[0].0@ == path {
        } else {
            assert(after.drop_first().subrange(0, before.drop_first().len() as int) =~= before
                .drop_first());
            lemma_cache_lookup_prefix(before.drop_first(), after.drop_first(), path);
        }
    }
}

/// Prefix extension is transitive.
proof fn lemma_prefix_trans(a: Seq<(Vec<u64>, u64)>, b: Seq<(Vec<u64>, u64)>, c: Seq<(Vec<u64>, u64)>)
    requires
        b.len() >= a.len(),
        b.subrange(0, a.len() as int) == a,
        c.len() >= b.len(),
        c.subrange(0, b.len() as int) == b,
    ensures
        c.len() >= a.len(),
        c.subrange(0, a.len() as int) == a,
{
    assert(c.subrange(0, a.len() as int) =~= a);
}

/// Element-wise copy of an id list.
pub fn copy_ids(v: &Vec<u64>) -> (r: Vec<u64>)
    ensures
        r@ == v@,
{
    let mut r: Vec<u64> = Vec::new();
    let mut i: usize = 0;
    while i < v.len()
        invariant
            i <= v@.len(),
            r@ == v@.subrange(0, i as int),
        decreases v@.len() - i,
    {
        r.push(v[i]);
        proof {
            assert(r@ =~= v@.subrange(0, i as int + 1));
        }
        i = i + 1;
    }
    proof {
        assert(v@.subrange(0, v@.len() as int) =~= v@);
    }
    r
}

/// Element-wise equality of id lists.
fn vec_u64_eq(a: &Vec<u64>, b: &Vec<u64>) -> (r: bool)
    ensures
        r <==> a@ == b@,
{
    if a.len() != b.len() {
        proof {
            assert(a@ != b@);
        }
        return false;
    }
    let mut i: usize = 0;
    while i < a.len()
        invariant
            i <= a@.len(),
            a@.len() == b@.len(),
            forall|k: int| 0 <= k < i ==> a@[k] == b@[k],
        decreases a@.len() - i,
    {
        if a[i] != b[i] {
            proof {
                assert(a@[i as int] != b@[i as int]);
            }
            return false;
        }
        i = i + 1;
    }
    proof {
        assert(a@ =~= b@);
    }
    true
}


/// The value a cell shows after one frame tick: the eased value while a
/// transition is active; otherwise the host-recomputed expression value when
/// the cell is bound and the table supplies one; otherwise the transition
/// machinery's resting value (the last target right after exhaustion, else
/// the current value).
pub open spec fn ticked_value<T: Interpolatable>(c: Property<T>, expr: Option<T>, now: int) -> T {
    let ff = fast_forward(c.tm_queue(), c.tm_checkpoint(), c.tm_origin(), now);
    if c.has_transition() && ff.0.len() > 0 {
        c.eased_cell_value(now)
    } else {
        match expr {
            Option::Some(v) => v,
            Option::None => c.eased_cell_value(now),
        }
    }
}

/// One frame tick of a cell: fast-forward and apply its transition, then —
/// only while no transition remains active — apply the host-recomputed
/// expression value, since an active transition overrides expression
/// recomputation.
pub fn tick_cell<T: Interpolatable>(cell: &mut Property<T>, expr_value: Option<T>, now: u64)
    requires
        old(cell).wf(),
        old(cell).has_transition() ==> old(cell).tm_origin() <= now,
        (match expr_value {
            Option::Some(v) => v.valid(),
            Option::None => true,
        }),
    ensures
        final(cell).wf(),
        final(cell).expression_id == old(cell).expression_id,
        final(cell).has_transition() == old(cell).has_transition(),
        final(cell).has_transition() ==> final(cell).tm_origin() <= now,
        final(cell).value == ticked_value(*old(cell), expr_value, now as int),
{
    cell.update_transition(now);
    let active: bool = match &cell.transition {
        Option::Some(tm) => tm.queue.len() > 0,
        Option::None => false,
    };
    if !active {
        if let Option::Some(v) = expr_value {
            cell.value = v;
            cell.dirty = true;
        }
    }
}

/// The index a slot's cell currently resolves to (whole-number reading).
pub open spec fn slot_index_val(p: PropertiesCoproduct) -> int {
    match p {
        PropertiesCoproduct::Slot(s) => crate::numeric::tdiv(s.index.value.as_milli(), 1000),
        _ => 0,
    }
}

/// The flattened slot-children list of the node at `c`, empty when none is
/// attached.
pub open spec fn flattened_of(arena: Seq<ExpandedNode>, c: int) -> Seq<u64> {
    match arena[c].expanded_and_flattened_slot_children {
        Option::Some(v) => v@,
        Option::None => Seq::empty(),
    }
}

/// What a slot attaches for a resolved index against a flattened list: the
/// single projected node when the index is in range, nothing otherwise.
pub open spec fn slot_children_rule(list: Seq<u64>, idx: int) -> Seq<u64> {
    if 0 <= idx < list.len() {
        seq![list[idx]]
    } else {
        Seq::empty()
    }
}

/// A slot renders exactly one child precisely when its index lands inside
/// the containing component's flattened slot-children list, and that child
/// is exactly the listed node; any out-of-range index renders zero children.
pub proof fn lemma_slot_projects_exactly_in_range(list: Seq<u64>, idx: int)
    ensures
        slot_children_rule(list, idx).len() == (if 0 <= idx < list.len() {
            1int
        } else {
            0int
        }),
        0 <= idx < list.len() ==> slot_children_rule(list, idx) == seq![list[idx]],
{
}

/// The slot primitive: projects the Nth entry of the containing component's
/// flattened slot-children list instead of owning children of its own.
pub struct SlotInstance {}

impl SlotInstance {
    /// Register a slot instance node.
    pub fn instantiate(registry: &mut NodeRegistry, args: crate::instance::InstantiationArgs) -> (r:
        Result<u64, crate::instance::BuildError>)
        requires
            old(registry).wf(),
            old(registry).instances@.len() < 0xffff_ffff_ffff_ffff,
            args.properties_factory.wf(),
            args.common_properties_factory.wf(),
            args.properties_factory is Slot,
        ensures
            final(registry).wf(),
            (match r {
                Result::Ok(id) => {
                    &&& id == old(registry).instances@.len()
                    &&& final(registry).instances@.len() == old(registry).instances@.len() + 1
                    &&& final(registry).instances@.subrange(
                        0,
                        old(registry).instances@.len() as int,
                    ) == old(registry).instances@
                    &&& final(registry).instances@[id as int].instance_id == id
                    &&& final(registry).instances@[id as int].kind == NodeKind::Slot
                    &&& final(registry).instances@[id as int].instance_children@ == args.children@
                    &&& final(registry).instances@[id as int].slot_children@
                        == args.slot_children@
                    &&& final(registry).instances@[id as int].properties_factory
                        == args.properties_factory
                    &&& final(registry).instances@[id as int].common_properties_factory
                        == args.common_properties_factory
                    &&& final(registry).instances@[id as int].flags == crate::instance::flags_for(
                        NodeKind::Slot,
                    )
                    &&& (forall|j: int|
                        0 <= j < args.children@.len() ==> (#[trigger] args.children@[j]) < id)
                    &&& (forall|j: int|
                        0 <= j < args.slot_children@.len() ==> (#[trigger] args.slot_children@[j])
                            < id)
                },
                Result::Err(e) => {
                    &&& e == crate::instance::BuildError::MalformedDescription
                    &&& *final(registry) == *old(registry)
                    &&& ((exists|j: int|
                        0 <= j < args.children@.len() && (#[trigger] args.children@[j])
                            >= old(registry).instances@.len()) || (exists|j: int|
                        0 <= j < args.slot_children@.len() && (#[trigger] args.slot_children@[j])
                            >= old(registry).instances@.len()))
                },
            }),
    {
        registry.instantiate(args)
    }

    /// Read the slot's resolved index and the containing component's
    /// flattened list, then attach that single node as the slot's sole child
    /// when the index is in range — an out-of-range index yields zero
    /// children, a valid state. A negative index is an upstream expression
    /// defect and fails fast; so does a slot without a containing component.
    pub fn recompute_children(ctx: &mut RuntimeContext, node_id: u64) -> (r: Result<
        (),
        RuntimeError,
    >)
        requires
            old(ctx).wf(),
            node_id < old(ctx).arena@.len(),
            old(ctx).arena@[node_id as int].properties is Slot,
        ensures
            final(ctx).wf(),
            final(ctx).registry == old(ctx).registry,
            final(ctx).frames_elapsed == old(ctx).frames_elapsed,
            final(ctx).expression_table == old(ctx).expression_table,
            final(ctx).arena@.len() == old(ctx).arena@.len(),
            final(ctx).position_cache@ == old(ctx).position_cache@,
            (match r {
                Result::Ok(_) => {
                    let idx = slot_index_val(old(ctx).arena@[node_id as int].properties);
                    let c = old(ctx).arena@[node_id as int].containing_component;
                    &&& idx >= 0
                    &&& c is Some
                    &&& (match c {
                        Option::Some(ci) => final(ctx).arena@[node_id as int].children@
                            == slot_children_rule(flattened_of(old(ctx).arena@, ci as int), idx),
                        Option::None => false,
                    })
                    &&& (forall|k: int|
                        0 <= k < old(ctx).arena@.len() && k != node_id ==> final(ctx).arena@[k]
                            == old(ctx).arena@[k])
                    &&& final(ctx).arena@[node_id as int].properties == old(
                        ctx,
                    ).arena@[node_id as int].properties
                    &&& final(ctx).arena@[node_id as int].common_properties == old(
                        ctx,
                    ).arena@[node_id as int].common_properties
                    &&& final(ctx).arena@[node_id as int].instance_id == old(
                        ctx,
                    ).arena@[node_id as int].instance_id
                    &&& final(ctx).arena@[node_id as int].id_path@ == old(
                        ctx,
                    ).arena@[node_id as int].id_path@
                    &&& final(ctx).arena@[node_id as int].containing_component == old(
                        ctx,
                    ).arena@[node_id as int].containing_component
                    &&& final(ctx).arena@[node_id as int].expanded_and_flattened_slot_children
                        == old(ctx).arena@[node_id as int].expanded_and_flattened_slot_children
                },
                Result::Err(e) => {
                    &&& *final(ctx) == *old(ctx)
                    &&& (e == RuntimeError::NegativeSlotIndex <==> slot_index_val(
                        old(ctx).arena@[node_id as int].properties,
                    ) < 0)
                    &&& (e == RuntimeError::MissingContainingComponent <==> (slot_index_val(
                        old(ctx).arena@[node_id as int].properties,
                    ) >= 0 && old(ctx).arena@[node_id as int].containing_component is None))
                    &&& (e == RuntimeError::NegativeSlotIndex || e
                        == RuntimeError::MissingContainingComponent)
                },
            }),
    {
        let n: usize = ctx.arena.len();
        proof {
            assert(node_id < n as u64);
            assert(old(ctx).arena@[node_id as int].wf(
                node_id as int,
                old(ctx).arena@.len() as int,
                old(ctx).registry.instances@.len() as int,
                old(ctx).frames_elapsed as int,
            ));
        }
        let i: usize = node_id as usize;
        let idx_i64: i64 = match ctx.arena[i].properties.read_slot() {
            Result::Ok(s) => s.index.get().to_int(),
            Result::Err(_) => {
                return Result::Err(RuntimeError::UnknownNode);
            },
        };
        if idx_i64 < 0 {
            return Result::Err(RuntimeError::NegativeSlotIndex);
        }
        let idx: usize = idx_i64 as usize;
        let ci: u64 = match ctx.arena[i].containing_component {
            Option::Some(c) => c,
            Option::None => {
                return Result::Err(RuntimeError::MissingContainingComponent);
            },
        };
        let new_children: Vec<u64> = match &ctx.arena[ci as usize]
            .expanded_and_flattened_slot_children {
            Option::Some(list) => {
                if idx < list.len() {
                    let mut v: Vec<u64> = Vec::new();
                    v.push(list[idx]);
                    proof {
                        assert(v@ =~= seq![list@[idx as int]]);
                    }
                    v
                } else {
                    Vec::new()
                }
            },
            Option::None => Vec::new(),
        };
        let node = &mut ctx.arena[i];
        node.children = new_children;
        Result::Ok(())
    }
}

/// The whole-number index a slot's cell resolves to after this frame's tick:
/// the transition/expression-recomputed value, read as an integer.
pub open spec fn slot_ticked_index(ctx: RuntimeContext, i: int) -> int {
    match ctx.arena@[i].properties {
        PropertiesCoproduct::Slot(s) => {
            let expr = (match s.index.expression_id {
                Option::Some(eid) => ctx.expression_table.numeric_spec(eid as int),
                Option::None => Option::None,
            });
            crate::numeric::tdiv(
                ticked_value(s.index, expr, ctx.frames_elapsed as int).as_milli(),
                1000,
            )
        },
        _ => 0,
    }
}

/// Whether a slot must recompute its children this frame: its resolved index
/// changed, or the identity of the node found at that index changed versus
/// the last observed one — churn from unrelated sibling changes triggers
/// nothing.
pub open spec fn slot_update_decision(
    last_index: int,
    last_node_id: Option<u64>,
    curr_index: int,
    curr_node_id: Option<u64>,
) -> bool {
    last_index != curr_index || (match curr_node_id {
        Option::Some(v) => last_node_id != Option::Some(v),
        Option::None => false,
    })
}

impl SlotInstance {
    /// Per-frame slot update: recompute the index cell (transitions, then
    /// the bound expression), and recompute the children only when the
    /// resolved index or the identity of the projected node changed since
    /// the last frame. A negative resolved index fails fast.
    pub fn update(ctx: &mut RuntimeContext, node_id: u64) -> (r: Result<(), RuntimeError>)
        requires
            old(ctx).wf(),
            node_id < old(ctx).arena@.len(),
            old(ctx).arena@[node_id as int].properties is Slot,
        ensures
            final(ctx).wf(),
            final(ctx).registry == old(ctx).registry,
            final(ctx).frames_elapsed == old(ctx).frames_elapsed,
            final(ctx).expression_table == old(ctx).expression_table,
            final(ctx).arena@.len() == old(ctx).arena@.len(),
            final(ctx).position_cache@ == old(ctx).position_cache@,
            forall|k: int|
                0 <= k < old(ctx).arena@.len() && k != node_id ==> final(ctx).arena@[k] == old(
                    ctx,
                ).arena@[k],
            final(ctx).arena@[node_id as int].properties is Slot,
            final(ctx).arena@[node_id as int].instance_id == old(
                ctx,
            ).arena@[node_id as int].instance_id,
            (match r {
                Result::Ok(_) => {
                    let idx = slot_ticked_index(*old(ctx), node_id as int);
                    let c = old(ctx).arena@[node_id as int].containing_component;
                    &&& idx >= 0
                    &&& c is Some
                    &&& (match (
                        old(ctx).arena@[node_id as int].properties,
                        final(ctx).arena@[node_id as int].properties,
                    ) {
                        (PropertiesCoproduct::Slot(olds), PropertiesCoproduct::Slot(news)) => {
                            let list = flattened_of(
                                old(ctx).arena@,
                                (match c {
                                    Option::Some(ci) => ci as int,
                                    Option::None => 0,
                                }),
                            );
                            let curr_node = (if 0 <= idx < list.len() {
                                Option::Some(list[idx])
                            } else {
                                Option::None
                            });
                            &&& news.last_index == idx
                            &&& news.last_node_id == curr_node
                            &&& final(ctx).arena@[node_id as int].children@ == (
                            if slot_update_decision(
                                olds.last_index as int,
                                olds.last_node_id,
                                idx,
                                curr_node,
                            ) {
                                slot_children_rule(list, idx)
                            } else {
                                old(ctx).arena@[node_id as int].children@
                            })
                        },
                        _ => false,
                    })
                },
                Result::Err(e) => {
                    &&& (e == RuntimeError::NegativeSlotIndex ==> slot_ticked_index(
                        *old(ctx),
                        node_id as int,
                    ) < 0)
                    &&& (e == RuntimeError::MissingContainingComponent ==> old(
                        ctx,
                    ).arena@[node_id as int].containing_component is None)
                    &&& (e == RuntimeError::NegativeSlotIndex || e
                        == RuntimeError::MissingContainingComponent)
                },
            }),
    {
        let n: usize = ctx.arena.len();
        proof {
            assert(node_id < n as u64);
            assert(old(ctx).arena@[node_id as int].wf(
                node_id as int,
                old(ctx).arena@.len() as int,
                old(ctx).registry.instances@.len() as int,
                old(ctx).frames_elapsed as int,
            ));
        }
        let i: usize = node_id as usize;
        let props_taken = {
            let node = &mut ctx.arena[i];
            node.properties.take()
        };
        let mut s = match props_taken {
            PropertiesCoproduct::Slot(s) => s,
            other => {
                let node = &mut ctx.arena[i];
                node.properties = other;
                return Result::Err(RuntimeError::MissingContainingComponent);
            },
        };
        let expr: Option<Numeric> = match s.index.expression_id {
            Option::Some(eid) => ctx.expression_table.lookup_numeric(eid),
            Option::None => Option::None,
        };
        tick_cell(&mut s.index, expr, ctx.frames_elapsed);
        let curr_i64: i64 = s.index.get().to_int();
        proof {
            crate::numeric::lemma_tdiv_in_bounds(
                s.index.value.as_milli(),
                1000,
                1_000_000_000,
            );
        }
        if curr_i64 < 0 {
            let node = &mut ctx.arena[i];
            node.properties = PropertiesCoproduct::Slot(s);
            return Result::Err(RuntimeError::NegativeSlotIndex);
        }
        let curr: usize = curr_i64 as usize;
        let ci: u64 = match ctx.arena[i].containing_component {
            Option::Some(c) => c,
            Option::None => {
                let node = &mut ctx.arena[i];
                node.properties = PropertiesCoproduct::Slot(s);
                return Result::Err(RuntimeError::MissingContainingComponent);
            },
        };
        let curr_node_id: Option<u64> = match &ctx.arena[ci as usize]
            .expanded_and_flattened_slot_children {
            Option::Some(list) => {
                if curr < list.len() {
                    Option::Some(list[curr])
                } else {
                    Option::None
                }
            },
            Option::None => Option::None,
        };
        let update_child: bool = s.last_index != curr || (match curr_node_id {
            Option::Some(v) => (match s.last_node_id {
                Option::Some(l) => l != v,
                Option::None => true,
            }),
            Option::None => false,
        });
        s.last_index = curr;
        s.last_node_id = curr_node_id;
        {
            let node = &mut ctx.arena[i];
            node.properties = PropertiesCoproduct::Slot(s);
        }
        proof {
            assert(curr_i64 as int == slot_ticked_index(*old(ctx), node_id as int));
            assert(ctx.arena@[ci as int].expanded_and_flattened_slot_children == old(
                ctx,
            ).arena@[ci as int].expanded_and_flattened_slot_children);
            assert(flattened_of(ctx.arena@, ci as int) == flattened_of(old(ctx).arena@, ci as int));
            assert(slot_index_val(ctx.arena@[node_id as int].properties) == curr_i64 as int);
        }
        if update_child {
            Self::recompute_children(ctx, node_id)
        } else {
            Result::Ok(())
        }
    }
}

/// Headroom bound on the expanded arena; structural recomputation refuses
/// to grow past it.
pub const ARENA_CAPACITY: usize = 1_000_000_000;

/// One frame tick of an optional-size cell: the bound expression's
/// recomputed value arrives wrapped in `Some`.
pub fn tick_opt_size_cell(cell: &mut Property<Option<Size>>, table: &ExpressionTable, now: u64)
    requires
        old(cell).wf(),
        table.wf(),
        old(cell).has_transition() ==> old(cell).tm_origin() <= now,
    ensures
        final(cell).wf(),
        final(cell).expression_id == old(cell).expression_id,
        final(cell).has_transition() == old(cell).has_transition(),
        final(cell).has_transition() ==> final(cell).tm_origin() <= now,
        final(cell).value == ticked_value(
            *old(cell),
            (match old(cell).expression_id {
                Option::Some(eid) => (match table.size_spec(eid as int) {
                    Option::Some(v) => Option::Some(Option::Some(v)),
                    Option::None => Option::None,
                }),
                Option::None => Option::None,
            }),
            now as int,
        ),
{
    let expr: Option<Option<Size>> = match cell.expression_id {
        Option::Some(eid) => match table.lookup_size(eid) {
            Option::Some(v) => Option::Some(Option::Some(v)),
            Option::None => Option::None,
        },
        Option::None => Option::None,
    };
    tick_cell(cell, expr, now);
}

/// One frame tick of a node's shared layout cells: every cell advances its
/// transition; the position and size cells additionally take their bound
/// expressions' recomputed values.
pub fn tick_common(c: &mut CommonProperties, table: &ExpressionTable, now: u64)
    requires
        common_wf(*old(c), now as int),
        table.wf(),
    ensures
        common_wf(*final(c), now as int),
        final(c).width.value == ticked_value(
            old(c).width,
            (match old(c).width.expression_id {
                Option::Some(eid) => (match table.size_spec(eid as int) {
                    Option::Some(v) => Option::Some(Option::Some(v)),
                    Option::None => Option::None,
                }),
                Option::None => Option::None,
            }),
            now as int,
        ),
        final(c).height.value == ticked_value(
            old(c).height,
            (match old(c).height.expression_id {
                Option::Some(eid) => (match table.size_spec(eid as int) {
                    Option::Some(v) => Option::Some(Option::Some(v)),
                    Option::None => Option::None,
                }),
                Option::None => Option::None,
            }),
            now as int,
        ),
        final(c).x.value == ticked_value(
            old(c).x,
            (match old(c).x.expression_id {
                Option::Some(eid) => (match table.size_spec(eid as int) {
                    Option::Some(v) => Option::Some(Option::Some(v)),
                    Option::None => Option::None,
                }),
                Option::None => Option::None,
            }),
            now as int,
        ),
        final(c).y.value == ticked_value(
            old(c).y,
            (match old(c).y.expression_id {
                Option::Some(eid) => (match table.size_spec(eid as int) {
                    Option::Some(v) => Option::Some(Option::Some(v)),
                    Option::None => Option::None,
                }),
                Option::None => Option::None,
            }),
            now as int,
        ),
        final(c).anchor_x.value == ticked_value(
            old(c).anchor_x,
            (match old(c).anchor_x.expression_id {
                Option::Some(eid) => (match table.size_spec(eid as int) {
                    Option::Some(v) => Option::Some(Option::Some(v)),
                    Option::None => Option::None,
                }),
                Option::None => Option::None,
            }),
            now as int,
        ),
        final(c).anchor_y.value == ticked_value(
            old(c).anchor_y,
            (match old(c).anchor_y.expression_id {
                Option::Some(eid) => (match table.size_spec(eid as int) {
                    Option::Some(v) => Option::Some(Option::Some(v)),
                    Option::None => Option::None,
                }),
                Option::None => Option::None,
            }),
            now as int,
        ),
        final(c).scale_x.value == ticked_value(
            old(c).scale_x,
            (match old(c).scale_x.expression_id {
                Option::Some(eid) => (match table.size_spec(eid as int) {
                    Option::Some(v) => Option::Some(Option::Some(v)),
                    Option::None => Option::None,
                }),
                Option::None => Option::None,
            }),
            now as int,
        ),
        final(c).scale_y.value == ticked_value(
            old(c).scale_y,
            (match old(c).scale_y.expression_id {
                Option::Some(eid) => (match table.size_spec(eid as int) {
                    Option::Some(v) => Option::Some(Option::Some(v)),
                    Option::None => Option::None,
                }),
                Option::None => Option::None,
            }),
            now as int,
        ),
        final(c).skew_x.value == ticked_value(old(c).skew_x, Option::None, now as int),
        final(c).skew_y.value == ticked_value(old(c).skew_y, Option::None, now as int),
        final(c).rotate.value == ticked_value(old(c).rotate, Option::None, now as int),
        final(c).transform.value == ticked_value(old(c).transform, Option::None, now as int),
        final(c).id == old(c).id,
{
    tick_opt_size_cell(&mut c.x, table, now);
    tick_opt_size_cell(&mut c.y, table, now);
    tick_opt_size_cell(&mut c.width, table, now);
    tick_opt_size_cell(&mut c.height, table, now);
    tick_opt_size_cell(&mut c.anchor_x, table, now);
    tick_opt_size_cell(&mut c.anchor_y, table, now);
    tick_opt_size_cell(&mut c.scale_x, table, now);
    tick_opt_size_cell(&mut c.scale_y, table, now);
    tick_cell(&mut c.skew_x, Option::None, now);
    tick_cell(&mut c.skew_y, Option::None, now);
    tick_cell(&mut c.rotate, Option::None, now);
    tick_cell(&mut c.transform, Option::None, now);
}

impl RuntimeContext {
    /// Tick the shared layout cells of one node.
    fn tick_node_common(&mut self, node_id: u64)
        requires
            old(self).wf(),
            node_id < old(self).arena@.len(),
        ensures
            final(self).wf(),
            final(self).registry == old(self).registry,
            final(self).frames_elapsed == old(self).frames_elapsed,
            final(self).expression_table == old(self).expression_table,
            final(self).arena@.len() == old(self).arena@.len(),
            final(self).position_cache@ == old(self).position_cache@,
            forall|k: int|
                0 <= k < old(self).arena@.len() && k != node_id ==> final(self).arena@[k] == old(
                    self,
                ).arena@[k],
            final(self).arena@[node_id as int].children@ == old(
                self,
            ).arena@[node_id as int].children@,
            final(self).arena@[node_id as int].properties == old(
                self,
            ).arena@[node_id as int].properties,
            final(self).arena@[node_id as int].instance_id == old(
                self,
            ).arena@[node_id as int].instance_id,
            final(self).arena@[node_id as int].id_path@ == old(
                self,
            ).arena@[node_id as int].id_path@,
            final(self).arena@[node_id as int].containing_component == old(
                self,
            ).arena@[node_id as int].containing_component,
            final(self).arena@[node_id as int].expanded_and_flattened_slot_children == old(
                self,
            ).arena@[node_id as int].expanded_and_flattened_slot_children,
            final(self).arena@[node_id as int].common_properties.width.value == ticked_value(
                old(self).arena@[node_id as int].common_properties.width,
                (match old(self).arena@[node_id as int].common_properties.width.expression_id {
                    Option::Some(eid) => (match old(self).expression_table.size_spec(eid as int) {
                        Option::Some(v) => Option::Some(Option::Some(v)),
                        Option::None => Option::None,
                    }),
                    Option::None => Option::None,
                }),
                old(self).frames_elapsed as int,
            ),
    {
        let n: usize = self.arena.len();
        proof {
            assert(node_id < n as u64);
            assert(old(self).arena@[node_id as int].wf(
                node_id as int,
                old(self).arena@.len() as int,
                old(self).registry.instances@.len() as int,
                old(self).frames_elapsed as int,
            ));
        }
        let i: usize = node_id as usize;
        let mut common = {
            let mut tmp = CommonProperties::default();
            let node = &mut self.arena[i];
            core::mem::swap(&mut tmp, &mut node.common_properties);
            tmp
        };
        let now = self.frames_elapsed;
        tick_common(&mut common, &self.expression_table, now);
        let node = &mut self.arena[i];
        node.common_properties = common;
    }
}

/// Gathers a set of children under one node: useful for composing
/// transforms and simplifying render trees.
pub struct GroupInstance {}

/// A component node: owns a template and receives usage-site children,
/// which it flattens for projection into its slots.
pub struct ComponentInstance {}

/// A basic 2D vector rectangle, drawn to fill the bounds given by its size
/// cells.
pub struct RectangleInstance {}

impl GroupInstance {
    /// Register a group instance node.
    pub fn instantiate(registry: &mut NodeRegistry, args: crate::instance::InstantiationArgs) -> (r:
        Result<u64, crate::instance::BuildError>)
        requires
            old(registry).wf(),
            old(registry).instances@.len() < 0xffff_ffff_ffff_ffff,
            args.properties_factory.wf(),
            args.common_properties_factory.wf(),
            args.properties_factory is Group,
        ensures
            final(registry).wf(),
            (match r {
                Result::Ok(id) => {
                    &&& id == old(registry).instances@.len()
                    &&& final(registry).instances@.len() == old(registry).instances@.len() + 1
                    &&& final(registry).instances@.subrange(
                        0,
                        old(registry).instances@.len() as int,
                    ) == old(registry).instances@
                    &&& final(registry).instances@[id as int].instance_id == id
                    &&& final(registry).instances@[id as int].kind == NodeKind::Group
                    &&& final(registry).instances@[id as int].instance_children@ == args.children@
                    &&& final(registry).instances@[id as int].slot_children@
                        == args.slot_children@
                    &&& final(registry).instances@[id as int].properties_factory
                        == args.properties_factory
                    &&& final(registry).instances@[id as int].common_properties_factory
                        == args.common_properties_factory
                    &&& final(registry).instances@[id as int].flags == crate::instance::flags_for(
                        NodeKind::Group,
                    )
                    &&& (forall|j: int|
                        0 <= j < args.children@.len() ==> (#[trigger] args.children@[j]) < id)
                    &&& (forall|j: int|
                        0 <= j < args.slot_children@.len() ==> (#[trigger] args.slot_children@[j])
                            < id)
                },
                Result::Err(e) => {
                    &&& e == crate::instance::BuildError::MalformedDescription
                    &&& *final(registry) == *old(registry)
                    &&& ((exists|j: int|
                        0 <= j < args.children@.len() && (#[trigger] args.children@[j])
                            >= old(registry).instances@.len()) || (exists|j: int|
                        0 <= j < args.slot_children@.len() && (#[trigger] args.slot_children@[j])
                            >= old(registry).instances@.len()))
                },
            }),
    {
        registry.instantiate(args)
    }

    /// Find or create this node's expansion at a tree position.
    pub fn expand(ctx: &mut RuntimeContext, instance_id: u64, id_path: Vec<u64>,
        containing_component: Option<u64>) -> (r: u64)
        requires
            old(ctx).wf(),
            instance_id < old(ctx).registry.instances@.len(),
            old(ctx).arena@.len() < 0xffff_ffff_ffff_ffff,
            (match containing_component {
                Option::Some(c) => c < old(ctx).arena@.len(),
                Option::None => true,
            }),
        ensures
            final(ctx).wf(),
            final(ctx).registry == old(ctx).registry,
            final(ctx).frames_elapsed == old(ctx).frames_elapsed,
            final(ctx).expression_table == old(ctx).expression_table,
            // a live position is reused untouched: no node is created and no
            // state is re-initialized; a fresh position gets exactly one new
            // node carrying its factories' prototypical state
            (match cache_lookup(old(ctx).position_cache@, id_path@) {
                Option::Some(id) => r == id && *final(ctx) == *old(ctx),
                Option::None => {
                    &&& r == old(ctx).arena@.len()
                    &&& final(ctx).arena@.len() == old(ctx).arena@.len() + 1
                    &&& final(ctx).arena@.subrange(0, old(ctx).arena@.len() as int) == old(
                        ctx,
                    ).arena@
                    &&& final(ctx).arena@[r as int].instance_id == instance_id
                    &&& final(ctx).arena@[r as int].id_path@ == id_path@
                    &&& final(ctx).arena@[r as int].containing_component == containing_component
                    &&& final(ctx).arena@[r as int].children@.len() == 0
                    &&& final(ctx).arena@[r as int].properties == old(
                        ctx,
                    ).registry.instances@[instance_id as int].properties_factory.make_spec()
                    &&& final(ctx).position_cache@ == old(ctx).position_cache@.push((id_path, r))
                },
            }),
            final(ctx).position_cache@.len() >= old(ctx).position_cache@.len(),
            final(ctx).position_cache@.subrange(0, old(ctx).position_cache@.len() as int) == old(
                ctx,
            ).position_cache@,
            cache_lookup(final(ctx).position_cache@, id_path@) is Some,
            r as int == expand_result(
                old(ctx).position_cache@,
                old(ctx).arena@.len() as int,
                id_path@,
            ),
            r < final(ctx).arena@.len(),
            (match cache_lookup(final(ctx).position_cache@, id_path@) {
                Option::Some(id) => r == id,
                Option::None => false,
            }),
    {
        ctx.expand(instance_id, id_path, containing_component)
    }

    /// Attach children: expand each child instance of this node's instance
    /// at its child-index position, and make those the node's children.
    pub fn recompute_children(ctx: &mut RuntimeContext, node_id: u64) -> (r: Result<
        (),
        RuntimeError,
    >)
        requires
            old(ctx).wf(),
            node_id < old(ctx).arena@.len(),
        ensures
            final(ctx).wf(),
            final(ctx).registry == old(ctx).registry,
            final(ctx).frames_elapsed == old(ctx).frames_elapsed,
            final(ctx).expression_table == old(ctx).expression_table,
            final(ctx).arena@.len() >= old(ctx).arena@.len(),
            final(ctx).position_cache@.len() >= old(ctx).position_cache@.len(),
            final(ctx).position_cache@.subrange(0, old(ctx).position_cache@.len() as int) == old(
                ctx,
            ).position_cache@,
            forall|k: int|
                0 <= k < old(ctx).arena@.len() && k != node_id ==> final(ctx).arena@[k] == old(
                    ctx,
                ).arena@[k],
            final(ctx).arena@[node_id as int].properties == old(
                ctx,
            ).arena@[node_id as int].properties,
            final(ctx).arena@[node_id as int].common_properties == old(
                ctx,
            ).arena@[node_id as int].common_properties,
            final(ctx).arena@[node_id as int].instance_id == old(
                ctx,
            ).arena@[node_id as int].instance_id,
            final(ctx).arena@[node_id as int].id_path@ == old(ctx).arena@[node_id as int].id_path@,
            final(ctx).arena@[node_id as int].containing_component == old(
                ctx,
            ).arena@[node_id as int].containing_component,
            final(ctx).arena@[node_id as int].expanded_and_flattened_slot_children == old(
                ctx,
            ).arena@[node_id as int].expanded_and_flattened_slot_children,
            // structural recomputation either succeeds in full — child j is
            // the cached expansion of instance-child j at this node's path
            // extended by j — or refuses to grow past the arena headroom
            r is Err <==> (old(ctx).arena@.len() >= ARENA_CAPACITY as int || old(
                ctx,
            ).registry.instances@[old(ctx).arena@[node_id as int].instance_id as int]
                .instance_children@.len() >= ARENA_CAPACITY as int),
            (match r {
                Result::Ok(_) => {
                    let base = old(ctx).arena@[node_id as int].id_path@;
                    let kids = old(ctx).registry.instances@[old(
                        ctx,
                    ).arena@[node_id as int].instance_id as int].instance_children@;
                    &&& final(ctx).arena@[node_id as int].children@.len() == kids.len()
                    &&& (forall|j: int|
                        0 <= j < kids.len() ==> cache_lookup(
                            final(ctx).position_cache@,
                            base.push(j as u64),
                        ) == Option::Some(
                            #[trigger] final(ctx).arena@[node_id as int].children@[j],
                        ))
                },
                Result::Err(e) => e == RuntimeError::CapacityExceeded && *final(ctx) == *old(ctx),
            }),
    {
        let n: usize = ctx.arena.len();
        proof {
            assert(node_id < n as u64);
            assert(old(ctx).arena@[node_id as int].wf(
                node_id as int,
                old(ctx).arena@.len() as int,
                old(ctx).registry.instances@.len() as int,
                old(ctx).frames_elapsed as int,
            ));
        }
        let i: usize = node_id as usize;
        let inst_id: u64 = ctx.arena[i].instance_id;
        let rn: usize = ctx.registry.instances.len();
        proof {
            assert(inst_id < rn as u64);
            assert(old(ctx).registry.instances@[inst_id as int].wf(inst_id as int));
        }
        let kids = copy_ids(&ctx.registry.instances[inst_id as usize].instance_children);
        let base_path = copy_ids(&ctx.arena[i].id_path);
        let is_component: bool = match ctx.arena[i].properties.tag() {
            NodeKind::Component => true,
            _ => false,
        };
        let containing: Option<u64> = if is_component {
            Option::Some(node_id)
        } else {
            ctx.arena[i].containing_component
        };
        if ctx.arena.len() >= ARENA_CAPACITY || kids.len() >= ARENA_CAPACITY {
            return Result::Err(RuntimeError::CapacityExceeded);
        }
        proof {
            assert forall|k: int| 0 <= k < kids@.len() implies (#[trigger] kids@[k]) < rn as int by {
                assert(old(ctx).registry.instances@[inst_id as int].wf(inst_id as int));
                assert(old(ctx).registry.instances@[inst_id as int].instance_children@[k]
                    < inst_id);
            }
        }
        let mut new_children: Vec<u64> = Vec::new();
        let mut j: usize = 0;
        while j < kids.len()
            invariant
                j <= kids@.len(),
                kids@.len() < ARENA_CAPACITY as int,
                rn as int == old(ctx).registry.instances@.len(),
                ctx.wf(),
                ctx.registry == old(ctx).registry,
                ctx.frames_elapsed == old(ctx).frames_elapsed,
                ctx.expression_table == old(ctx).expression_table,
                ctx.arena@.len() >= old(ctx).arena@.len(),
                ctx.arena@.len() <= old(ctx).arena@.len() + j,
                old(ctx).arena@.len() < ARENA_CAPACITY as int,
                node_id < ctx.arena@.len(),
                (match containing {
                    Option::Some(c) => c < ctx.arena@.len(),
                    Option::None => true,
                }),
                forall|k: int| 0 <= k < kids@.len() ==> (#[trigger] kids@[k]) < rn as int,
                new_children@.len() == j,
                forall|k: int|
                    0 <= k < j ==> (#[trigger] new_children@[k]) < ctx.arena@.len(),
                base_path@ == old(ctx).arena@[node_id as int].id_path@,
                kids@ == old(ctx).registry.instances@[old(
                    ctx,
                ).arena@[node_id as int].instance_id as int].instance_children@,
                forall|k: int|
                    0 <= k < old(ctx).arena@.len() ==> ctx.arena@[k] == old(ctx).arena@[k],
                ctx.position_cache@.len() >= old(ctx).position_cache@.len(),
                ctx.position_cache@.subrange(0, old(ctx).position_cache@.len() as int) == old(
                    ctx,
                ).position_cache@,
                forall|k: int|
                    0 <= k < j ==> cache_lookup(
                        ctx.position_cache@,
                        base_path@.push(k as u64),
                    ) == Option::Some(#[trigger] new_children@[k]),
            decreases kids@.len() - j,
        {
            let mut path = copy_ids(&base_path);
            path.push(j as u64);
            proof {
                assert(ctx.arena@.len() < ARENA_CAPACITY as int + ARENA_CAPACITY as int);
            }
            let ghost cache_before = ctx.position_cache@;
            let ghost arena_before = ctx.arena@;
            let ghost children_before = new_children@;
            let cid = ctx.expand(kids[j], path, containing);
            new_children.push(cid);
            proof {
                lemma_prefix_trans(
                    old(ctx).position_cache@,
                    cache_before,
                    ctx.position_cache@,
                );
                assert forall|k: int|
                    0 <= k < j + 1 implies cache_lookup(
                    ctx.position_cache@,
                    base_path@.push(k as u64),
                ) == Option::Some(#[trigger] new_children@[k]) by {
                    if k < j {
                        assert(new_children@[k] == children_before[k]);
                        assert(cache_lookup(cache_before, base_path@.push(k as u64))
                            == Option::Some(children_before[k]));
                        lemma_cache_lookup_prefix(
                            cache_before,
                            ctx.position_cache@,
                            base_path@.push(k as u64),
                        );
                    }
                }
                assert(ctx.arena@.subrange(0, arena_before.len() as int) =~= arena_before);
                assert forall|k: int|
                    0 <= k < old(ctx).arena@.len() implies ctx.arena@[k] == old(ctx).arena@[k] by {
                    assert(ctx.arena@.subrange(0, arena_before.len() as int)[k] == ctx.arena@[k]);
                }
            }
            j = j + 1;
        }
        let node = &mut ctx.arena[i];
        node.children = new_children;
        Result::Ok(())
    }

    /// Per-frame update: recompute the shared cells; attach the static
    /// children once (their set never changes after that).
    pub fn update(ctx: &mut RuntimeContext, node_id: u64) -> (r: Result<(), RuntimeError>)
        requires
            old(ctx).wf(),
            node_id < old(ctx).arena@.len(),
        ensures
            final(ctx).wf(),
            final(ctx).registry == old(ctx).registry,
            final(ctx).frames_elapsed == old(ctx).frames_elapsed,
            final(ctx).expression_table == old(ctx).expression_table,
            final(ctx).arena@.len() >= old(ctx).arena@.len(),
            node_id < final(ctx).arena@.len(),
            final(ctx).position_cache@.len() >= old(ctx).position_cache@.len(),
            final(ctx).position_cache@.subrange(0, old(ctx).position_cache@.len() as int) == old(
                ctx,
            ).position_cache@,
            forall|k: int|
                0 <= k < old(ctx).arena@.len() && k != node_id ==> final(ctx).arena@[k] == old(
                    ctx,
                ).arena@[k],
            final(ctx).arena@[node_id as int].properties == old(
                ctx,
            ).arena@[node_id as int].properties,
            final(ctx).arena@[node_id as int].instance_id == old(
                ctx,
            ).arena@[node_id as int].instance_id,
            final(ctx).arena@[node_id as int].id_path@ == old(ctx).arena@[node_id as int].id_path@,
            final(ctx).arena@[node_id as int].containing_component == old(
                ctx,
            ).arena@[node_id as int].containing_component,
            final(ctx).arena@[node_id as int].expanded_and_flattened_slot_children == old(
                ctx,
            ).arena@[node_id as int].expanded_and_flattened_slot_children,
            // the shared cells are recomputed before any structural work
            final(ctx).arena@[node_id as int].common_properties.width.value == ticked_value(
                old(ctx).arena@[node_id as int].common_properties.width,
                (match old(ctx).arena@[node_id as int].common_properties.width.expression_id {
                    Option::Some(eid) => (match old(ctx).expression_table.size_spec(eid as int) {
                        Option::Some(v) => Option::Some(Option::Some(v)),
                        Option::None => Option::None,
                    }),
                    Option::None => Option::None,
                }),
                old(ctx).frames_elapsed as int,
            ),
            // the template is attached exactly when the pass succeeds
            (match r {
                Result::Ok(_) => final(ctx).arena@[node_id as int].children@.len() == old(
                    ctx,
                ).registry.instances@[old(ctx).arena@[node_id as int].instance_id as int]
                    .instance_children@.len(),
                Result::Err(e) => e == RuntimeError::CapacityExceeded,
            }),
            r is Err <==> (old(ctx).arena@[node_id as int].children@.len() != old(
                ctx,
            ).registry.instances@[old(ctx).arena@[node_id as int].instance_id as int]
                .instance_children@.len() && (old(ctx).arena@.len() >= ARENA_CAPACITY as int || old(
                ctx,
            ).registry.instances@[old(ctx).arena@[node_id as int].instance_id as int]
                .instance_children@.len() >= ARENA_CAPACITY as int)),
            r is Err ==> final(ctx).arena@[node_id as int].children@ == old(
                ctx,
            ).arena@[node_id as int].children@,
    {
        ctx.tick_node_common(node_id);
        let n: usize = ctx.arena.len();
        proof {
            assert(node_id < n as u64);
            assert(ctx.arena@[node_id as int].wf(
                node_id as int,
                ctx.arena@.len() as int,
                ctx.registry.instances@.len() as int,
                ctx.frames_elapsed as int,
            ));
        }
        let i: usize = node_id as usize;
        let inst_id: u64 = ctx.arena[i].instance_id;
        let rn: usize = ctx.registry.instances.len();
        proof {
            assert(inst_id < rn as u64);
        }
        let want: usize = ctx.registry.instances[inst_id as usize].instance_children.len();
        if ctx.arena[i].children.len() != want {
            Self::recompute_children(ctx, node_id)
        } else {
            Result::Ok(())
        }
    }
}

/// Recursion budget for slot-children flattening and the frame walk.
pub const WALK_DEPTH: u64 = 64;

/// Whether a live node counts as a slot child itself; nodes invisible to
/// slot flattening are replaced by their children.
pub open spec fn visible_to_slot(ctx: RuntimeContext, id: int) -> bool {
    !crate::instance::flags_for(
        ctx.registry.instances@[ctx.arena@[id].instance_id as int].kind,
    ).invisible_to_slot
}

/// What slot flattening reads of each live node: its attached children and
/// its instance. A node's other fields play no part, so flattening is
/// insensitive to them.
pub open spec fn flatten_view(arena: Seq<ExpandedNode>) -> Seq<(Seq<u64>, u64)> {
    Seq::new(arena.len(), |i: int| (arena[i].children@, arena[i].instance_id))
}

/// Whether a live node counts as a slot child by its instance's flags.
pub open spec fn node_visible(arena: Seq<(Seq<u64>, u64)>, instances: Seq<crate::instance::InstanceNode>, id: int) -> bool {
    !instances[arena[id].1 as int].flags.invisible_to_slot
}

/// The flattening of one node into an accumulated slot-children list: the
/// node itself when it counts as a slot child, else its children in its
/// place — or nothing when the depth budget or the capacity bound runs out.
pub open spec fn flatten_one_spec(
    arena: Seq<(Seq<u64>, u64)>,
    instances: Seq<crate::instance::InstanceNode>,
    id: u64,
    depth: int,
    acc: Seq<u64>,
) -> Option<Seq<u64>>
    decreases depth, 0int, 0int,
{
    if node_visible(arena, instances, id as int) {
        if acc.len() >= ARENA_CAPACITY as int * 2 {
            Option::None
        } else {
            Option::Some(acc.push(id))
        }
    } else if depth <= 0 {
        Option::None
    } else {
        flatten_list_spec(arena, instances, arena[id as int].0, depth - 1, acc)
    }
}

/// The flattening of a list of nodes, left to right.
pub open spec fn flatten_list_spec(
    arena: Seq<(Seq<u64>, u64)>,
    instances: Seq<crate::instance::InstanceNode>,
    ids: Seq<u64>,
    depth: int,
    acc: Seq<u64>,
) -> Option<Seq<u64>>
    decreases depth, ids.len(), 1int,
{
    if ids.len() == 0 {
        Option::Some(acc)
    } else {
        match flatten_one_spec(arena, instances, ids[0], depth, acc) {
            Option::Some(acc2) => flatten_list_spec(
                arena,
                instances,
                ids.drop_first(),
                depth,
                acc2,
            ),
            Option::None => Option::None,
        }
    }
}


/// Append one node to a flattened slot-children list: the node itself when
/// it counts as a slot child, else its children, flattened in its place.
fn flatten_one(ctx: &RuntimeContext, id: u64, depth: u64, out: &mut Vec<u64>) -> (r: Result<
    (),
    RuntimeError,
>)
    requires
        ctx.wf(),
        id < ctx.arena@.len(),
        old(out)@.len() <= ARENA_CAPACITY as int * 2,
    ensures
        (match r {
            Result::Ok(_) => {
                &&& final(out)@.len() >= old(out)@.len()
                &&& final(out)@.len() <= ARENA_CAPACITY as int * 2
                &&& final(out)@.subrange(0, old(out)@.len() as int) == old(out)@
                &&& (forall|k: int|
                    old(out)@.len() <= k < final(out)@.len() ==> (#[trigger] final(out)@[k])
                        < ctx.arena@.len())
                &&& (visible_to_slot(*ctx, id as int) ==> final(out)@ == old(out)@.push(id))
            },
            Result::Err(e) => e == RuntimeError::RecursionLimit || e
                == RuntimeError::CapacityExceeded,
        }),
        (match r {
            Result::Ok(_) => flatten_one_spec(
                flatten_view(ctx.arena@),
                ctx.registry.instances@,
                id,
                depth as int,
                old(out)@,
            ) == Option::Some(final(out)@),
            Result::Err(_) => flatten_one_spec(
                flatten_view(ctx.arena@),
                ctx.registry.instances@,
                id,
                depth as int,
                old(out)@,
            ) is None,
        }),
    decreases depth,
{
    let an: usize = ctx.arena.len();
    proof {
        assert(id < an as u64);
    }
    let inst_id: u64 = ctx.arena[id as usize].instance_id;
    proof {
        assert(ctx.arena@[id as int].wf(
            id as int,
            ctx.arena@.len() as int,
            ctx.registry.instances@.len() as int,
            ctx.frames_elapsed as int,
        ));
        assert(inst_id < ctx.registry.instances@.len());
    }
    let rn: usize = ctx.registry.instances.len();
    proof {
        assert(inst_id < rn as u64);
    }
    let invisible: bool = ctx.registry.instances[inst_id as usize].flags.invisible_to_slot;
    proof {
        assert(ctx.registry.instances@[inst_id as int].wf(inst_id as int));
        assert(ctx.registry.instances@[inst_id as int].flags == crate::instance::flags_for(
            ctx.registry.instances@[inst_id as int].kind,
        ));
    }
    if !invisible {
        if out.len() >= ARENA_CAPACITY * 2 {
            return Result::Err(RuntimeError::CapacityExceeded);
        }
        out.push(id);
        proof {
            assert(final(out)@.subrange(0, old(out)@.len() as int) =~= old(out)@);
        }
        return Result::Ok(());
    }
    if depth == 0 {
        return Result::Err(RuntimeError::RecursionLimit);
    }
    let kids = copy_ids(&ctx.arena[id as usize].children);
    let ghost entry = out@;
    proof {
        assert(kids@.skip(0) =~= kids@);
    }
    let mut j: usize = 0;
    while j < kids.len()
        invariant
            ctx.wf(),
            j <= kids@.len(),
            forall|k: int| 0 <= k < kids@.len() ==> (#[trigger] kids@[k]) < ctx.arena@.len(),
            out@.len() >= entry.len(),
            out@.len() <= ARENA_CAPACITY as int * 2,
            out@.subrange(0, entry.len() as int) == entry,
            forall|k: int|
                entry.len() <= k < out@.len() ==> (#[trigger] out@[k]) < ctx.arena@.len(),
            entry.len() <= ARENA_CAPACITY as int * 2,
            depth >= 1,
            id < ctx.arena@.len(),
            entry == old(out)@,
            !node_visible(flatten_view(ctx.arena@), ctx.registry.instances@, id as int),
            kids@ == ctx.arena@[id as int].children@,
            flatten_list_spec(
                flatten_view(ctx.arena@),
                ctx.registry.instances@,
                kids@.skip(j as int),
                depth as int - 1,
                out@,
            ) == flatten_list_spec(
                flatten_view(ctx.arena@),
                ctx.registry.instances@,
                kids@,
                depth as int - 1,
                entry,
            ),
        decreases kids@.len() - j,
    {
        let ghost before = out@;
        let rr = flatten_one(ctx, kids[j], depth - 1, out);
        proof {
            assert(kids@.skip(j as int)[0] == kids@[j as int]);
            assert(kids@.skip(j as int).drop_first() =~= kids@.skip(j as int + 1));
        }
        if let Result::Err(e) = rr {
            proof {
                assert(flatten_list_spec(
                    flatten_view(ctx.arena@),
                    ctx.registry.instances@,
                    kids@.skip(j as int),
                    depth as int - 1,
                    before,
                ) is None);
                assert(flatten_list_spec(
                    flatten_view(ctx.arena@),
                    ctx.registry.instances@,
                    kids@,
                    depth as int - 1,
                    entry,
                ) is None);
                assert(entry == old(out)@);
                assert(!node_visible(flatten_view(ctx.arena@), ctx.registry.instances@, id as int));
                assert(flatten_one_spec(
                    flatten_view(ctx.arena@),
                    ctx.registry.instances@,
                    id,
                    depth as int,
                    old(out)@,
                ) == flatten_list_spec(
                    flatten_view(ctx.arena@),
                    ctx.registry.instances@,
                    flatten_view(ctx.arena@)[id as int].0,
                    depth as int - 1,
                    old(out)@,
                ));
                assert(flatten_one_spec(
                    flatten_view(ctx.arena@),
                    ctx.registry.instances@,
                    id,
                    depth as int,
                    old(out)@,
                ) is None);
            }
            return Result::Err(e);
        }
        proof {
            assert(flatten_list_spec(
                flatten_view(ctx.arena@),
                ctx.registry.instances@,
                kids@.skip(j as int),
                depth as int - 1,
                before,
            ) == flatten_list_spec(
                flatten_view(ctx.arena@),
                ctx.registry.instances@,
                kids@.skip(j as int + 1),
                depth as int - 1,
                out@,
            ));
            assert(out@.subrange(0, entry.len() as int) =~= entry);
            assert forall|k: int|
                entry.len() <= k < out@.len() implies (#[trigger] out@[k]) < ctx.arena@.len() by {
                if k < before.len() {
                    assert(out@.subrange(0, before.len() as int)[k] == before[k]);
                }
            }
        }
        j = j + 1;
    }
    proof {
        assert(out@.subrange(0, entry.len() as int) == entry);
        assert(kids@.skip(kids@.len() as int).len() == 0);
        assert(entry == old(out)@);
        assert(!node_visible(flatten_view(ctx.arena@), ctx.registry.instances@, id as int));
        assert(flatten_one_spec(
            flatten_view(ctx.arena@),
            ctx.registry.instances@,
            id,
            depth as int,
            old(out)@,
        ) == Option::Some(out@));
    }
    Result::Ok(())
}

/// Flatten a list of expanded nodes into the ordered slot-children list:
/// nodes invisible to slot are replaced by their children, recursively.
/// When every listed node itself counts as a slot child, the flattened list
/// is exactly the input list.
pub fn flatten_slot_children(ctx: &RuntimeContext, ids: &Vec<u64>) -> (r: Result<
    Vec<u64>,
    RuntimeError,
>)
    requires
        ctx.wf(),
        forall|k: int| 0 <= k < ids@.len() ==> (#[trigger] ids@[k]) < ctx.arena@.len(),
    ensures
        (match r {
            Result::Ok(v) => {
                &&& (forall|k: int|
                    0 <= k < v@.len() ==> (#[trigger] v@[k]) < ctx.arena@.len())
                &&& ((forall|k: int|
                    0 <= k < ids@.len() ==> visible_to_slot(*ctx, (#[trigger] ids@[k]) as int))
                    ==> v@ == ids@)
                &&& flatten_list_spec(
                    flatten_view(ctx.arena@),
                    ctx.registry.instances@,
                    ids@,
                    WALK_DEPTH as int,
                    Seq::empty(),
                ) == Option::Some(v@)
            },
            Result::Err(e) => (e == RuntimeError::RecursionLimit || e
                == RuntimeError::CapacityExceeded) && flatten_list_spec(
                flatten_view(ctx.arena@),
                ctx.registry.instances@,
                ids@,
                WALK_DEPTH as int,
                Seq::empty(),
            ) is None,
        }),
        r is Ok <==> flatten_list_spec(
            flatten_view(ctx.arena@),
            ctx.registry.instances@,
            ids@,
            WALK_DEPTH as int,
            Seq::empty(),
        ) is Some,
{
    let mut out: Vec<u64> = Vec::new();
    proof {
        assert(ids@.skip(0) =~= ids@);
    }
    let mut j: usize = 0;
    while j < ids.len()
        invariant
            ctx.wf(),
            j <= ids@.len(),
            forall|k: int| 0 <= k < ids@.len() ==> (#[trigger] ids@[k]) < ctx.arena@.len(),
            forall|k: int| 0 <= k < out@.len() ==> (#[trigger] out@[k]) < ctx.arena@.len(),
            out@.len() <= ARENA_CAPACITY as int * 2,
            (forall|kk: int|
                0 <= kk < j ==> visible_to_slot(*ctx, (#[trigger] ids@[kk]) as int)) ==> out@
                == ids@.subrange(0, j as int),
            flatten_list_spec(
                flatten_view(ctx.arena@),
                ctx.registry.instances@,
                ids@.skip(j as int),
                WALK_DEPTH as int,
                out@,
            ) == flatten_list_spec(
                flatten_view(ctx.arena@),
                ctx.registry.instances@,
                ids@,
                WALK_DEPTH as int,
                Seq::empty(),
            ),
        decreases ids@.len() - j,
    {
        let ghost before = out@;
        let rr = flatten_one(ctx, ids[j], WALK_DEPTH, &mut out);
        proof {
            assert(ids@.skip(j as int)[0] == ids@[j as int]);
            assert(ids@.skip(j as int).drop_first() =~= ids@.skip(j as int + 1));
        }
        if let Result::Err(e) = rr {
            proof {
                assert(flatten_list_spec(
                    flatten_view(ctx.arena@),
                    ctx.registry.instances@,
                    ids@.skip(j as int),
                    WALK_DEPTH as int,
                    before,
                ) is None);
            }
            return Result::Err(e);
        }
        proof {
            assert forall|k: int|
                0 <= k < out@.len() implies (#[trigger] out@[k]) < ctx.arena@.len() by {
                if k < before.len() {
                    assert(out@.subrange(0, before.len() as int)[k] == before[k]);
                }
            }
            if forall|kk: int|
                0 <= kk < j + 1 ==> visible_to_slot(*ctx, (#[trigger] ids@[kk]) as int) {
                assert(visible_to_slot(*ctx, ids@[j as int] as int));
                assert(before == ids@.subrange(0, j as int));
                assert(out@ =~= ids@.subrange(0, j as int + 1));
            }
        }
        j = j + 1;
    }
    proof {
        assert(ids@.subrange(0, ids@.len() as int) =~= ids@);
        assert(ids@.skip(ids@.len() as int).len() == 0);
    }
    Result::Ok(out)
}

impl ComponentInstance {
    /// Register a component instance node; its `children` are its template
    /// and its `slot_children` the usage-site nodes projected into its
    /// slots.
    pub fn instantiate(registry: &mut NodeRegistry, args: crate::instance::InstantiationArgs) -> (r:
        Result<u64, crate::instance::BuildError>)
        requires
            old(registry).wf(),
            old(registry).instances@.len() < 0xffff_ffff_ffff_ffff,
            args.properties_factory.wf(),
            args.common_properties_factory.wf(),
            args.properties_factory is Component,
        ensures
            final(registry).wf(),
            (match r {
                Result::Ok(id) => {
                    &&& id == old(registry).instances@.len()
                    &&& final(registry).instances@.len() == old(registry).instances@.len() + 1
                    &&& final(registry).instances@.subrange(
                        0,
                        old(registry).instances@.len() as int,
                    ) == old(registry).instances@
                    &&& final(registry).instances@[id as int].instance_id == id
                    &&& final(registry).instances@[id as int].kind == NodeKind::Component
                    &&& final(registry).instances@[id as int].instance_children@ == args.children@
                    &&& final(registry).instances@[id as int].slot_children@
                        == args.slot_children@
                    &&& final(registry).instances@[id as int].properties_factory
                        == args.properties_factory
                    &&& final(registry).instances@[id as int].common_properties_factory
                        == args.common_properties_factory
                    &&& final(registry).instances@[id as int].flags == crate::instance::flags_for(
                        NodeKind::Component,
                    )
                    &&& (forall|j: int|
                        0 <= j < args.children@.len() ==> (#[trigger] args.children@[j]) < id)
                    &&& (forall|j: int|
                        0 <= j < args.slot_children@.len() ==> (#[trigger] args.slot_children@[j])
                            < id)
                },
                Result::Err(e) => {
                    &&& e == crate::instance::BuildError::MalformedDescription
                    &&& *final(registry) == *old(registry)
                    &&& ((exists|j: int|
                        0 <= j < args.children@.len() && (#[trigger] args.children@[j])
                            >= old(registry).instances@.len()) || (exists|j: int|
                        0 <= j < args.slot_children@.len() && (#[trigger] args.slot_children@[j])
                            >= old(registry).instances@.len()))
                },
            }),
    {
        registry.instantiate(args)
    }

    /// Per-frame update: recompute the shared cells; attach the template
    /// once; expand the usage-site slot children (in the outer component's
    /// scope), walk their subtrees so their own structure is current, and
    /// rebuild the flattened slot-children list.
    pub fn update(ctx: &mut RuntimeContext, node_id: u64, depth: u64) -> (r: Result<
        (),
        RuntimeError,
    >)
        requires
            old(ctx).wf(),
            node_id < old(ctx).arena@.len(),
            depth >= 1,
        ensures
            final(ctx).wf(),
            final(ctx).registry == old(ctx).registry,
            final(ctx).frames_elapsed == old(ctx).frames_elapsed,
            final(ctx).expression_table == old(ctx).expression_table,
            final(ctx).arena@.len() >= old(ctx).arena@.len(),
            node_id < final(ctx).arena@.len(),
            final(ctx).position_cache@.len() >= old(ctx).position_cache@.len(),
            final(ctx).position_cache@.subrange(0, old(ctx).position_cache@.len() as int) == old(
                ctx,
            ).position_cache@,
            forall|k: int|
                0 <= k < old(ctx).arena@.len() && template_attached(*old(ctx), k)
                    ==> template_attached(*final(ctx), k),
            r is Ok ==> template_attached(*final(ctx), node_id as int),
            // on success the usage-site slot children are expanded — the
            // cache resolves each of their positions — and the node's
            // flattened list is exactly their flattening
            (match r {
                Result::Ok(_) => {
                    let base = old(ctx).arena@[node_id as int].id_path@;
                    let inst = old(ctx).arena@[node_id as int].instance_id as int;
                    let tl = old(ctx).registry.instances@[inst].instance_children@.len() as int;
                    let n = old(ctx).registry.instances@[inst].slot_children@.len() as int;
                    &&& (forall|j: int|
                        0 <= j < n ==> cache_lookup(
                            final(ctx).position_cache@,
                            #[trigger] base.push((tl + j) as u64),
                        ) is Some)
                    &&& (match final(ctx).arena@[node_id as int]
                        .expanded_and_flattened_slot_children {
                        Option::Some(v) => flatten_list_spec(
                            flatten_view(final(ctx).arena@),
                            final(ctx).registry.instances@,
                            slot_positions_expanded(final(ctx).position_cache@, base, tl, n),
                            WALK_DEPTH as int,
                            Seq::empty(),
                        ) == Option::Some(v@),
                        Option::None => false,
                    })
                },
                Result::Err(_) => true,
            }),
        decreases depth, 0int,
    {
        GroupInstance::update(ctx, node_id)?;
        let ghost mid1 = *ctx;
        proof {
            assert forall|k: int|
                0 <= k < old(ctx).arena@.len() && template_attached(*old(ctx), k) implies
                template_attached(*ctx, k) by {
                if k != node_id {
                    assert(ctx.arena@[k] == old(ctx).arena@[k]);
                }
            }
            assert(template_attached(*ctx, node_id as int));
        }
        let n: usize = ctx.arena.len();
        proof {
            assert(node_id < n as u64);
            assert(ctx.arena@[node_id as int].wf(
                node_id as int,
                ctx.arena@.len() as int,
                ctx.registry.instances@.len() as int,
                ctx.frames_elapsed as int,
            ));
        }
        let i: usize = node_id as usize;
        let inst_id: u64 = ctx.arena[i].instance_id;
        let rn: usize = ctx.registry.instances.len();
        proof {
            assert(inst_id < rn as u64);
            assert(ctx.registry.instances@[inst_id as int].wf(inst_id as int));
        }
        let slot_insts = copy_ids(&ctx.registry.instances[inst_id as usize].slot_children);
        let template_len_usize: usize = ctx.registry.instances[inst_id as usize]
            .instance_children.len();
        if template_len_usize >= ARENA_CAPACITY {
            return Result::Err(RuntimeError::CapacityExceeded);
        }
        let template_len: u64 = template_len_usize as u64;
        let base_path = copy_ids(&ctx.arena[i].id_path);
        let outer: Option<u64> = ctx.arena[i].containing_component;
        if ctx.arena.len() >= ARENA_CAPACITY || slot_insts.len() >= ARENA_CAPACITY {
            return Result::Err(RuntimeError::CapacityExceeded);
        }
        proof {
            assert forall|k: int|
                0 <= k < slot_insts@.len() implies (#[trigger] slot_insts@[k]) < rn as int by {
                assert(ctx.registry.instances@[inst_id as int].wf(inst_id as int));
                assert(ctx.registry.instances@[inst_id as int].slot_children@[k] < inst_id);
            }
        }
        let ghost base_len = ctx.arena@.len();
        let mut expanded_slots: Vec<u64> = Vec::new();
        let mut j: usize = 0;
        while j < slot_insts.len()
            invariant
                j <= slot_insts@.len(),
                slot_insts@.len() < ARENA_CAPACITY as int,
                rn as int == old(ctx).registry.instances@.len(),
                ctx.wf(),
                ctx.registry == old(ctx).registry,
                ctx.frames_elapsed == old(ctx).frames_elapsed,
                ctx.expression_table == old(ctx).expression_table,
                ctx.arena@.len() >= old(ctx).arena@.len(),
                ctx.arena@.len() <= base_len + j,
                base_len < ARENA_CAPACITY as int,
                template_len < ARENA_CAPACITY as u64,
                node_id < ctx.arena@.len(),
                (match outer {
                    Option::Some(c) => c < ctx.arena@.len(),
                    Option::None => true,
                }),
                forall|k: int|
                    0 <= k < slot_insts@.len() ==> (#[trigger] slot_insts@[k]) < rn as int,
                expanded_slots@.len() == j,
                forall|k: int|
                    0 <= k < j ==> (#[trigger] expanded_slots@[k]) < ctx.arena@.len(),
                ctx.arena@.len() >= mid1.arena@.len(),
                forall|k: int| 0 <= k < mid1.arena@.len() ==> ctx.arena@[k] == mid1.arena@[k],
                old(ctx).arena@.len() <= mid1.arena@.len(),
                node_id < old(ctx).arena@.len(),
                forall|k: int|
                    0 <= k < old(ctx).arena@.len() && template_attached(*old(ctx), k)
                        ==> template_attached(*ctx, k),
                template_attached(*ctx, node_id as int),
                ctx.position_cache@.len() >= mid1.position_cache@.len(),
                ctx.position_cache@.subrange(0, mid1.position_cache@.len() as int)
                    == mid1.position_cache@,
                ctx.position_cache@.len() >= old(ctx).position_cache@.len(),
                ctx.position_cache@.subrange(0, old(ctx).position_cache@.len() as int) == old(
                    ctx,
                ).position_cache@,
                forall|k: int|
                    0 <= k < j ==> cache_lookup(
                        ctx.position_cache@,
                        base_path@.push((template_len as int + k) as u64),
                    ) == Option::Some(#[trigger] expanded_slots@[k]),
            decreases slot_insts@.len() - j,
        {
            let mut path = copy_ids(&base_path);
            path.push(template_len + j as u64);
            let ghost cache_before = ctx.position_cache@;
            let ghost arena_before = ctx.arena@;
            let ghost slots_before = expanded_slots@;
            let cid = ctx.expand(slot_insts[j], path, outer);
            expanded_slots.push(cid);
            proof {
                lemma_prefix_trans(mid1.position_cache@, cache_before, ctx.position_cache@);
                lemma_prefix_trans(
                    old(ctx).position_cache@,
                    cache_before,
                    ctx.position_cache@,
                );
                assert(path@ == base_path@.push((template_len as int + j) as u64));
                assert forall|k: int|
                    0 <= k < j + 1 implies cache_lookup(
                    ctx.position_cache@,
                    base_path@.push((template_len as int + k) as u64),
                ) == Option::Some(#[trigger] expanded_slots@[k]) by {
                    if k < j {
                        assert(expanded_slots@[k] == slots_before[k]);
                        assert(cache_lookup(
                            cache_before,
                            base_path@.push((template_len as int + k) as u64),
                        ) == Option::Some(slots_before[k]));
                        lemma_cache_lookup_prefix(
                            cache_before,
                            ctx.position_cache@,
                            base_path@.push((template_len as int + k) as u64),
                        );
                    }
                }
                assert(ctx.arena@.subrange(0, arena_before.len() as int) =~= arena_before);
                assert forall|k: int|
                    0 <= k < mid1.arena@.len() implies ctx.arena@[k] == mid1.arena@[k] by {
                    assert(ctx.arena@.subrange(0, arena_before.len() as int)[k] == ctx.arena@[k]);
                }
                assert forall|k: int|
                    0 <= k < old(ctx).arena@.len() && template_attached(*old(ctx), k) implies
                    template_attached(*ctx, k) by {
                    assert(ctx.arena@[k] == mid1.arena@[k]);
                }
                assert(node_id < old(ctx).arena@.len());
                assert(ctx.arena@[node_id as int] == mid1.arena@[node_id as int]);
                assert(template_attached(*ctx, node_id as int));
            }
            j = j + 1;
        }
        // bring each supplied subtree up to date before flattening, so the
        // flattened list sees this frame's structure
        let ghost mid2 = *ctx;
        let mut j: usize = 0;
        while j < expanded_slots.len()
            invariant
                j <= expanded_slots@.len(),
                ctx.wf(),
                ctx.registry == old(ctx).registry,
                ctx.frames_elapsed == old(ctx).frames_elapsed,
                ctx.expression_table == old(ctx).expression_table,
                ctx.arena@.len() >= old(ctx).arena@.len(),
                node_id < ctx.arena@.len(),
                forall|k: int|
                    0 <= k < expanded_slots@.len() ==> (#[trigger] expanded_slots@[k])
                        < ctx.arena@.len(),
                depth >= 1,
                ctx.arena@.len() >= mid2.arena@.len(),
                node_id < old(ctx).arena@.len(),
                ctx.position_cache@.len() >= mid2.position_cache@.len(),
                ctx.position_cache@.subrange(0, mid2.position_cache@.len() as int)
                    == mid2.position_cache@,
                ctx.position_cache@.len() >= old(ctx).position_cache@.len(),
                ctx.position_cache@.subrange(0, old(ctx).position_cache@.len() as int) == old(
                    ctx,
                ).position_cache@,
                forall|k: int|
                    0 <= k < expanded_slots@.len() ==> cache_lookup(
                        ctx.position_cache@,
                        base_path@.push((template_len as int + k) as u64),
                    ) == Option::Some(#[trigger] expanded_slots@[k]),
                forall|k: int|
                    0 <= k < mid2.arena@.len() && template_attached(mid2, k)
                        ==> template_attached(*ctx, k),
                forall|k: int|
                    0 <= k < old(ctx).arena@.len() && template_attached(*old(ctx), k)
                        ==> template_attached(*ctx, k),
                mid2.arena@.len() >= old(ctx).arena@.len(),
                template_attached(*ctx, node_id as int),
            decreases depth, 0int, expanded_slots@.len() - j,
        {
            let ghost cache_before = ctx.position_cache@;
            let ghost ctx_before = *ctx;
            let rr = ctx.update_subtree(expanded_slots[j], depth - 1);
            if let Result::Err(e) = rr {
                return Result::Err(e);
            }
            proof {
                lemma_prefix_trans(mid2.position_cache@, cache_before, ctx.position_cache@);
                lemma_prefix_trans(
                    old(ctx).position_cache@,
                    cache_before,
                    ctx.position_cache@,
                );
                assert forall|k: int|
                    0 <= k < expanded_slots@.len() implies cache_lookup(
                    ctx.position_cache@,
                    base_path@.push((template_len as int + k) as u64),
                ) == Option::Some(#[trigger] expanded_slots@[k]) by {
                    assert(cache_lookup(
                        cache_before,
                        base_path@.push((template_len as int + k) as u64),
                    ) == Option::Some(expanded_slots@[k]));
                    lemma_cache_lookup_prefix(
                        cache_before,
                        ctx.position_cache@,
                        base_path@.push((template_len as int + k) as u64),
                    );
                }
                assert forall|k: int|
                    0 <= k < mid2.arena@.len() && template_attached(mid2, k) implies
                    template_attached(*ctx, k) by {
                    assert(template_attached(ctx_before, k));
                    assert(k < ctx_before.arena@.len());
                }
                assert forall|k: int|
                    0 <= k < old(ctx).arena@.len() && template_attached(*old(ctx), k) implies
                    template_attached(*ctx, k) by {
                    assert(template_attached(ctx_before, k));
                    assert(k < ctx_before.arena@.len());
                }
                assert(node_id < ctx_before.arena@.len());
                assert(template_attached(ctx_before, node_id as int));
            }
            j = j + 1;
        }
        let flattened = match flatten_slot_children(ctx, &expanded_slots) {
            Result::Ok(v) => v,
            Result::Err(e) => {
                return Result::Err(e);
            },
        };
        let ghost base = old(ctx).arena@[node_id as int].id_path@;
        let ghost tl = old(ctx).registry.instances@[old(
            ctx,
        ).arena@[node_id as int].instance_id as int].instance_children@.len() as int;
        let ghost nn = old(ctx).registry.instances@[old(
            ctx,
        ).arena@[node_id as int].instance_id as int].slot_children@.len() as int;
        proof {
            assert(base_path@ == base);
            assert(template_len as int == tl);
            assert(slot_insts@.len() == nn);
            assert(expanded_slots@.len() == nn);
            assert forall|jj: int|
                0 <= jj < nn implies cache_lookup(
                ctx.position_cache@,
                #[trigger] base.push((tl + jj) as u64),
            ) is Some by {
                assert(cache_lookup(ctx.position_cache@, base_path@.push((template_len as int
                    + jj) as u64)) == Option::Some(expanded_slots@[jj]));
            }
            assert(expanded_slots@ =~= slot_positions_expanded(
                ctx.position_cache@,
                base,
                tl,
                nn,
            ));
        }
        let ghost mid3 = *ctx;
        let node = &mut ctx.arena[i];
        node.expanded_and_flattened_slot_children = Option::Some(flattened);
        proof {
            assert forall|k: int|
                0 <= k < old(ctx).arena@.len() && template_attached(*old(ctx), k) implies
                template_attached(*ctx, k) by {
                assert(template_attached(mid3, k));
                if k != node_id {
                    assert(ctx.arena@[k] == mid3.arena@[k]);
                } else {
                    assert(ctx.arena@[k].children@ == mid3.arena@[k].children@);
                    assert(ctx.arena@[k].properties == mid3.arena@[k].properties);
                }
            }
            assert(ctx.arena@[node_id as int].children@ == mid3.arena@[node_id as int].children@);
            assert(ctx.arena@[node_id as int].properties == mid3.arena@[node_id as int].properties);
            assert(template_attached(*ctx, node_id as int));
            assert(flatten_view(ctx.arena@) =~= flatten_view(mid3.arena@));
            assert(ctx.position_cache@ == mid3.position_cache@);
            assert(flatten_list_spec(
                flatten_view(ctx.arena@),
                ctx.registry.instances@,
                slot_positions_expanded(ctx.position_cache@, base, tl, nn),
                WALK_DEPTH as int,
                Seq::empty(),
            ) == Option::Some(flattened@));
        }
        Result::Ok(())
    }
}

impl RectangleInstance {
    /// Register a rectangle instance node.
    pub fn instantiate(registry: &mut NodeRegistry, args: crate::instance::InstantiationArgs) -> (r:
        Result<u64, crate::instance::BuildError>)
        requires
            old(registry).wf(),
            old(registry).instances@.len() < 0xffff_ffff_ffff_ffff,
            args.properties_factory.wf(),
            args.common_properties_factory.wf(),
            args.properties_factory is Rectangle,
        ensures
            final(registry).wf(),
            (match r {
                Result::Ok(id) => {
                    &&& id == old(registry).instances@.len()
                    &&& final(registry).instances@.len() == old(registry).instances@.len() + 1
                    &&& final(registry).instances@.subrange(
                        0,
                        old(registry).instances@.len() as int,
                    ) == old(registry).instances@
                    &&& final(registry).instances@[id as int].instance_id == id
                    &&& final(registry).instances@[id as int].kind == NodeKind::Rectangle
                    &&& final(registry).instances@[id as int].instance_children@ == args.children@
                    &&& final(registry).instances@[id as int].slot_children@
                        == args.slot_children@
                    &&& final(registry).instances@[id as int].properties_factory
                        == args.properties_factory
                    &&& final(registry).instances@[id as int].common_properties_factory
                        == args.common_properties_factory
                    &&& final(registry).instances@[id as int].flags == crate::instance::flags_for(
                        NodeKind::Rectangle,
                    )
                    &&& (forall|j: int|
                        0 <= j < args.children@.len() ==> (#[trigger] args.children@[j]) < id)
                    &&& (forall|j: int|
                        0 <= j < args.slot_children@.len() ==> (#[trigger] args.slot_children@[j])
                            < id)
                },
                Result::Err(e) => {
                    &&& e == crate::instance::BuildError::MalformedDescription
                    &&& *final(registry) == *old(registry)
                    &&& ((exists|j: int|
                        0 <= j < args.children@.len() && (#[trigger] args.children@[j])
                            >= old(registry).instances@.len()) || (exists|j: int|
                        0 <= j < args.slot_children@.len() && (#[trigger] args.slot_children@[j])
                            >= old(registry).instances@.len()))
                },
            }),
    {
        registry.instantiate(args)
    }

    /// Find or create this node's expansion at a tree position.
    pub fn expand(ctx: &mut RuntimeContext, instance_id: u64, id_path: Vec<u64>,
        containing_component: Option<u64>) -> (r: u64)
        requires
            old(ctx).wf(),
            instance_id < old(ctx).registry.instances@.len(),
            old(ctx).arena@.len() < 0xffff_ffff_ffff_ffff,
            (match containing_component {
                Option::Some(c) => c < old(ctx).arena@.len(),
                Option::None => true,
            }),
        ensures
            final(ctx).wf(),
            final(ctx).registry == old(ctx).registry,
            final(ctx).frames_elapsed == old(ctx).frames_elapsed,
            final(ctx).expression_table == old(ctx).expression_table,
            // a live position is reused untouched: no node is created and no
            // state is re-initialized; a fresh position gets exactly one new
            // node carrying its factories' prototypical state
            (match cache_lookup(old(ctx).position_cache@, id_path@) {
                Option::Some(id) => r == id && *final(ctx) == *old(ctx),
                Option::None => {
                    &&& r == old(ctx).arena@.len()
                    &&& final(ctx).arena@.len() == old(ctx).arena@.len() + 1
                    &&& final(ctx).arena@.subrange(0, old(ctx).arena@.len() as int) == old(
                        ctx,
                    ).arena@
                    &&& final(ctx).arena@[r as int].instance_id == instance_id
                    &&& final(ctx).arena@[r as int].id_path@ == id_path@
                    &&& final(ctx).arena@[r as int].containing_component == containing_component
                    &&& final(ctx).arena@[r as int].children@.len() == 0
                    &&& final(ctx).arena@[r as int].properties == old(
                        ctx,
                    ).registry.instances@[instance_id as int].properties_factory.make_spec()
                    &&& final(ctx).position_cache@ == old(ctx).position_cache@.push((id_path, r))
                },
            }),
            final(ctx).position_cache@.len() >= old(ctx).position_cache@.len(),
            final(ctx).position_cache@.subrange(0, old(ctx).position_cache@.len() as int) == old(
                ctx,
            ).position_cache@,
            cache_lookup(final(ctx).position_cache@, id_path@) is Some,
            r as int == expand_result(
                old(ctx).position_cache@,
                old(ctx).arena@.len() as int,
                id_path@,
            ),
            r < final(ctx).arena@.len(),
            (match cache_lookup(final(ctx).position_cache@, id_path@) {
                Option::Some(id) => r == id,
                Option::None => false,
            }),
    {
        ctx.expand(instance_id, id_path, containing_component)
    }

    /// Per-frame property pass: advance each cell's transitions and bound
    /// expressions — the rectangle's own cells and its shared layout cells.
    pub fn expand_node_and_compute_properties(ctx: &mut RuntimeContext, node_id: u64)
        requires
            old(ctx).wf(),
            node_id < old(ctx).arena@.len(),
            old(ctx).arena@[node_id as int].properties is Rectangle,
        ensures
            final(ctx).wf(),
            final(ctx).registry == old(ctx).registry,
            final(ctx).frames_elapsed == old(ctx).frames_elapsed,
            final(ctx).expression_table == old(ctx).expression_table,
            final(ctx).arena@.len() == old(ctx).arena@.len(),
            final(ctx).position_cache@ == old(ctx).position_cache@,
            forall|k: int|
                0 <= k < old(ctx).arena@.len() && k != node_id ==> final(ctx).arena@[k] == old(
                    ctx,
                ).arena@[k],
            final(ctx).arena@[node_id as int].children@ == old(
                ctx,
            ).arena@[node_id as int].children@,
            final(ctx).arena@[node_id as int].instance_id == old(
                ctx,
            ).arena@[node_id as int].instance_id,
            (match (
                old(ctx).arena@[node_id as int].properties,
                final(ctx).arena@[node_id as int].properties,
            ) {
                (PropertiesCoproduct::Rectangle(oldr), PropertiesCoproduct::Rectangle(newr)) => {
                    &&& newr.fill.value == ticked_value(
                        oldr.fill,
                        (match oldr.fill.expression_id {
                            Option::Some(eid) => old(ctx).expression_table.color_spec(eid as int),
                            Option::None => Option::None,
                        }),
                        old(ctx).frames_elapsed as int,
                    )
                    &&& newr.stroke_color.value == ticked_value(
                        oldr.stroke_color,
                        (match oldr.stroke_color.expression_id {
                            Option::Some(eid) => old(ctx).expression_table.color_spec(eid as int),
                            Option::None => Option::None,
                        }),
                        old(ctx).frames_elapsed as int,
                    )
                    &&& newr.stroke_width.value == ticked_value(
                        oldr.stroke_width,
                        (match oldr.stroke_width.expression_id {
                            Option::Some(eid) => old(ctx).expression_table.size_spec(eid as int),
                            Option::None => Option::None,
                        }),
                        old(ctx).frames_elapsed as int,
                    )
                    &&& newr.corner_radii.value == ticked_value(
                        oldr.corner_radii,
                        Option::None,
                        old(ctx).frames_elapsed as int,
                    )
                },
                _ => false,
            }),
    {
        let n: usize = ctx.arena.len();
        proof {
            assert(node_id < n as u64);
            assert(old(ctx).arena@[node_id as int].wf(
                node_id as int,
                old(ctx).arena@.len() as int,
                old(ctx).registry.instances@.len() as int,
                old(ctx).frames_elapsed as int,
            ));
        }
        let i: usize = node_id as usize;
        let now = ctx.frames_elapsed;
        let props_taken = {
            let node = &mut ctx.arena[i];
            node.properties.take()
        };
        let mut rp = match props_taken {
            PropertiesCoproduct::Rectangle(rp) => rp,
            other => {
                let node = &mut ctx.arena[i];
                node.properties = other;
                return;
            },
        };
        let fill_expr: Option<Color> = match rp.fill.expression_id {
            Option::Some(eid) => ctx.expression_table.lookup_color(eid),
            Option::None => Option::None,
        };
        tick_cell(&mut rp.fill, fill_expr, now);
        let sc_expr: Option<Color> = match rp.stroke_color.expression_id {
            Option::Some(eid) => ctx.expression_table.lookup_color(eid),
            Option::None => Option::None,
        };
        tick_cell(&mut rp.stroke_color, sc_expr, now);
        let sw_expr: Option<Size> = match rp.stroke_width.expression_id {
            Option::Some(eid) => ctx.expression_table.lookup_size(eid),
            Option::None => Option::None,
        };
        tick_cell(&mut rp.stroke_width, sw_expr, now);
        tick_cell(&mut rp.corner_radii, Option::None, now);
        let node = &mut ctx.arena[i];
        node.properties = PropertiesCoproduct::Rectangle(rp);
        ctx.tick_node_common(node_id);
    }
}

/// The expanded ids the position cache holds for a component's usage-site
/// slot children: position j lives at the component's path extended by the
/// template length plus j.
pub open spec fn slot_positions_expanded(
    cache: Seq<(Vec<u64>, u64)>,
    base: Seq<u64>,
    offset: int,
    n: int,
) -> Seq<u64> {
    Seq::new(
        n as nat,
        |j: int|
            match cache_lookup(cache, base.push((offset + j) as u64)) {
                Option::Some(id) => id,
                Option::None => 0,
            },
    )
}

/// Whether a group or component node has its template attached: its child
/// count equals its instance's child count (vacuous for other kinds).
pub open spec fn template_attached(ctx: RuntimeContext, k: int) -> bool {
    (ctx.arena@[k].properties.kind() == NodeKind::Group || ctx.arena@[k].properties.kind()
        == NodeKind::Component) ==> ctx.arena@[k].children@.len()
        == ctx.registry.instances@[ctx.arena@[k].instance_id as int].instance_children@.len()
}

impl RuntimeContext {
    /// The host advanced one frame; every cell's transition origin stays at
    /// or before the new frame counter.
    pub fn advance_frame(&mut self)
        requires
            old(self).wf(),
            old(self).frames_elapsed < 0xffff_ffff_ffff_ffff,
        ensures
            final(self).wf(),
            final(self).frames_elapsed == old(self).frames_elapsed + 1,
            final(self).registry == old(self).registry,
            final(self).arena@ == old(self).arena@,
            final(self).position_cache@ == old(self).position_cache@,
            final(self).expression_table == old(self).expression_table,
    {
        proof {
            assert forall|i: int|
                0 <= i < self.arena@.len() implies (#[trigger] self.arena@[i]).wf(
                i,
                self.arena@.len() as int,
                self.registry.instances@.len() as int,
                self.frames_elapsed as int + 1,
            ) by {
                assert(self.arena@[i].wf(
                    i,
                    self.arena@.len() as int,
                    self.registry.instances@.len() as int,
                    self.frames_elapsed as int,
                ));
            }
        }
        self.frames_elapsed = self.frames_elapsed + 1;
    }

    /// One synchronous top-down pass over a subtree: recompute the node's
    /// cells and structure (its own `update` runs before its
    /// `recompute_children`), then walk the children it has attached — a
    /// child is never updated before its parent attached it. The depth
    /// budget bounds recursion, so a cyclic structure fails fast instead of
    /// hanging.
    pub fn update_subtree(&mut self, node_id: u64, depth: u64) -> (r: Result<(), RuntimeError>)
        requires
            old(self).wf(),
            node_id < old(self).arena@.len(),
        ensures
            final(self).wf(),
            final(self).registry == old(self).registry,
            final(self).frames_elapsed == old(self).frames_elapsed,
            final(self).expression_table == old(self).expression_table,
            final(self).arena@.len() >= old(self).arena@.len(),
            final(self).position_cache@.len() >= old(self).position_cache@.len(),
            final(self).position_cache@.subrange(0, old(self).position_cache@.len() as int) == old(
                self,
            ).position_cache@,
            // the walk never detaches a template: a group or component whose
            // children matched its instance's keeps that
            forall|k: int|
                0 <= k < old(self).arena@.len() && template_attached(*old(self), k)
                    ==> template_attached(*final(self), k),
            // and on success this node's own update has run: its template is
            // attached before its children are walked
            r is Ok ==> template_attached(*final(self), node_id as int),
        decreases depth, 1int,
    {
        if depth == 0 {
            return Result::Err(RuntimeError::RecursionLimit);
        }
        let n: usize = self.arena.len();
        proof {
            assert(node_id < n as u64);
        }
        let i: usize = node_id as usize;
        let kind: NodeKind = self.arena[i].properties.tag();
        match kind {
            NodeKind::Slot => {
                let rr = SlotInstance::update(self, node_id);
                if let Result::Err(e) = rr {
                    return Result::Err(e);
                }
            },
            NodeKind::Group => {
                let rr = GroupInstance::update(self, node_id);
                if let Result::Err(e) = rr {
                    return Result::Err(e);
                }
            },
            NodeKind::Component => {
                let rr = ComponentInstance::update(self, node_id, depth);
                if let Result::Err(e) = rr {
                    return Result::Err(e);
                }
            },
            NodeKind::Rectangle => {
                RectangleInstance::expand_node_and_compute_properties(self, node_id);
            },
        }
        let n2: usize = self.arena.len();
        proof {
            assert(node_id < n2 as u64);
            assert(self.arena@[node_id as int].wf(
                node_id as int,
                self.arena@.len() as int,
                self.registry.instances@.len() as int,
                self.frames_elapsed as int,
            ));
        }
        let ghost mid = *self;
        proof {
            assert(template_attached(*self, node_id as int));
        }
        let kids = copy_ids(&self.arena[i].children);
        let mut j: usize = 0;
        while j < kids.len()
            invariant
                j <= kids@.len(),
                self.wf(),
                self.registry == old(self).registry,
                self.frames_elapsed == old(self).frames_elapsed,
                self.expression_table == old(self).expression_table,
                self.arena@.len() >= old(self).arena@.len(),
                self.arena@.len() >= mid.arena@.len(),
                mid.arena@.len() >= old(self).arena@.len(),
                forall|k: int| 0 <= k < kids@.len() ==> (#[trigger] kids@[k]) < self.arena@.len(),
                depth >= 1,
                node_id < mid.arena@.len(),
                self.position_cache@.len() >= old(self).position_cache@.len(),
                self.position_cache@.subrange(0, old(self).position_cache@.len() as int) == old(
                    self,
                ).position_cache@,
                forall|k: int|
                    0 <= k < old(self).arena@.len() && template_attached(*old(self), k)
                        ==> template_attached(*self, k),
                template_attached(*self, node_id as int),
            decreases kids@.len() - j,
        {
            let ghost cache_before = self.position_cache@;
            let ghost before = *self;
            let rr = self.update_subtree(kids[j], depth - 1);
            if let Result::Err(e) = rr {
                return Result::Err(e);
            }
            proof {
                lemma_prefix_trans(
                    old(self).position_cache@,
                    cache_before,
                    self.position_cache@,
                );
                assert forall|k: int|
                    0 <= k < old(self).arena@.len() && template_attached(*old(self), k) implies
                    template_attached(*self, k) by {
                    assert(template_attached(before, k));
                    assert(k < before.arena@.len());
                }
                assert(node_id < before.arena@.len());
                assert(template_attached(before, node_id as int));
            }
            j = j + 1;
        }
        Result::Ok(())
    }
}

/// One drawing instruction for the host's paint sink: fill the node's
/// rounded-rect geometry, or stroke its outline. All quantities are resolved
/// milli readings against the current frame's bounds; `transform` is the
/// node's transform chain unrolled root to leaf, for the host's affine
/// assembly.
pub enum PaintCommand {
    Fill {
        width: Numeric,
        height: Numeric,
        corner_radii: RectangleCornerRadii,
        color: Color,
        transform: Vec<Transform2D>,
    },
    Stroke {
        width: Numeric,
        height: Numeric,
        stroke_width: Numeric,
        color: Color,
        transform: Vec<Transform2D>,
    },
}

/// The unrolled transform chain of a node's transform cell: empty when the
/// cell is unset.
pub open spec fn transform_chain_spec(v: Option<Transform2D>) -> Seq<Transform2D> {
    match v {
        Option::Some(t) => t.chain_spec(),
        Option::None => Seq::empty(),
    }
}

/// Unroll an optional transform into its composition list.
fn unroll_transform(v: &Option<Transform2D>) -> (r: Vec<Transform2D>)
    ensures
        r@ == transform_chain_spec(*v),
{
    match v {
        Option::Some(t) => t.flatten(),
        Option::None => Vec::new(),
    }
}

/// The milli reading of an optional size against a bound — the bound itself
/// when the size is unset — restricted to the admitted value band.
pub open spec fn resolved_size(v: Option<Size>, bound: Numeric) -> int {
    crate::numeric::clamp_milli(
        match v {
            Option::Some(sz) => sz.resolved_milli(bound.as_milli()),
            Option::None => bound.as_milli(),
        },
    )
}

/// Resolve an optional size cell value against a bound, clamped into the
/// admitted band.
fn resolve_clamped(v: &Option<Size>, bound: Numeric) -> (r: Numeric)
    requires
        (match *v {
            Option::Some(sz) => sz.in_range(),
            Option::None => true,
        }),
        bound.in_range(),
    ensures
        r.as_milli() == resolved_size(*v, bound),
        r.in_range(),
{
    match v {
        Option::Some(sz) => {
            let q: Numeric = sz.get_pixels(bound);
            match q {
                Numeric::Integer(i) => {
                    let wide: i128 = (i as i128) * 1000;
                    let m: i64 = if wide < -(crate::numeric::VAL_LIMIT as i128) {
                        -crate::numeric::VAL_LIMIT
                    } else if wide > crate::numeric::VAL_LIMIT as i128 {
                        crate::numeric::VAL_LIMIT
                    } else {
                        wide as i64
                    };
                    Numeric::Fixed(m)
                },
                Numeric::Fixed(m) => Numeric::Fixed(crate::numeric::clamp_val(m)),
            }
        },
        Option::None => Numeric::Fixed(bound.to_milli()),
    }
}

impl RectangleInstance {
    /// Prepare a rectangle's paint: one fill over its resolved bounds, and a
    /// stroke exactly when the stroke width resolves positive — the host
    /// performs the commands on its own back end.
    pub fn handle_render(ctx: &RuntimeContext, node_id: u64, bounds: (Numeric, Numeric)) -> (r:
        Vec<PaintCommand>)
        requires
            ctx.wf(),
            node_id < ctx.arena@.len(),
            ctx.arena@[node_id as int].properties is Rectangle,
            bounds.0.in_range(),
            bounds.1.in_range(),
        ensures
            (match ctx.arena@[node_id as int].properties {
                PropertiesCoproduct::Rectangle(p) => {
                    let w = resolved_size(
                        ctx.arena@[node_id as int].common_properties.width.value,
                        bounds.0,
                    );
                    let h = resolved_size(
                        ctx.arena@[node_id as int].common_properties.height.value,
                        bounds.1,
                    );
                    let sw = p.stroke_width.value.resolved_milli(w);
                    &&& r@.len() == (if sw > 0 {
                        2int
                    } else {
                        1int
                    })
                    &&& (match r@[0] {
                        PaintCommand::Fill { width, height, corner_radii, color, transform } => {
                            &&& width.as_milli() == w
                            &&& height.as_milli() == h
                            &&& corner_radii == p.corner_radii.value
                            &&& color == p.fill.value
                            &&& transform@ == transform_chain_spec(
                                ctx.arena@[node_id as int].common_properties.transform.value,
                            )
                        },
                        _ => false,
                    })
                    &&& (sw > 0 ==> (match r@[1] {
                        PaintCommand::Stroke { width, height, stroke_width, color, transform } => {
                            &&& width.as_milli() == w
                            &&& height.as_milli() == h
                            &&& stroke_width.as_milli() == sw
                            &&& color == p.stroke_color.value
                            &&& transform@ == transform_chain_spec(
                                ctx.arena@[node_id as int].common_properties.transform.value,
                            )
                        },
                        _ => false,
                    }))
                },
                _ => false,
            }),
    {
        let n: usize = ctx.arena.len();
        proof {
            assert(node_id < n as u64);
            assert(ctx.arena@[node_id as int].wf(
                node_id as int,
                ctx.arena@.len() as int,
                ctx.registry.instances@.len() as int,
                ctx.frames_elapsed as int,
            ));
        }
        let i: usize = node_id as usize;
        let node = &ctx.arena[i];
        let width: Numeric = resolve_clamped(node.common_properties.width.get(), bounds.0);
        let height: Numeric = resolve_clamped(node.common_properties.height.get(), bounds.1);
        let mut commands: Vec<PaintCommand> = Vec::new();
        match &node.properties {
            PropertiesCoproduct::Rectangle(p) => {
                commands.push(PaintCommand::Fill {
                    width,
                    height,
                    corner_radii: *p.corner_radii.get(),
                    color: *p.fill.get(),
                    transform: unroll_transform(node.common_properties.transform.get()),
                });
                let sw: Numeric = p.stroke_width.get().get_pixels(width);
                let positive: bool = match sw {
                    Numeric::Integer(v) => v > 0,
                    Numeric::Fixed(m) => m > 0,
                };
                if positive {
                    commands.push(PaintCommand::Stroke {
                        width,
                        height,
                        stroke_width: sw,
                        color: *p.stroke_color.get(),
                        transform: unroll_transform(node.common_properties.transform.get()),
                    });
                }
            },
            _ => {},
        }
        commands
    }
}

} // verus!
