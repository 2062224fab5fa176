//! Rigid-body and collider bookkeeping.
//!
//! The world owns two generation-checked arenas, one for rigid bodies and one
//! for colliders.  A handle pairs a slot index with the generation the slot
//! had when the entry was created; removing an entry bumps the slot
//! generation, so a stale handle can never alias a later entry that reuses
//! the same slot.

use vstd::prelude::*;
use crate::transform::{Transform, Vec3};

verus! {

/// Generation-checked reference to a rigid-body slot.
#[derive(Clone, Copy, Debug, PartialEq, Eq, Structural)]
pub struct RigidBodyHandle {
    pub index: usize,
    pub generation: u64,
}

/// Generation-checked reference to a collider slot.
#[derive(Clone, Copy, Debug, PartialEq, Eq, Structural)]
pub struct ColliderHandle {
    pub index: usize,
    pub generation: u64,
}

/// A 32-group collision mask.  Combine groups with [`CollisionGroups::union`].
#[derive(Clone, Copy, Debug, PartialEq, Eq, Structural)]
pub struct CollisionGroups {
    pub bits: u32,
}

impl CollisionGroups {
    /// The mask holding exactly group `n`, for `n` between 1 and 32.
    pub fn group(n: u32) -> (r: CollisionGroups)
        requires
            1 <= n <= 32,
        ensures
            r.bits == (1u32 << ((n - 1) as u32)),
    {
        CollisionGroups { bits: 1u32 << (n - 1) }
    }

    /// The union of two masks.
    pub fn union(self, other: CollisionGroups) -> (r: CollisionGroups)
        ensures
            r.bits == (self.bits | other.bits),
    {
        CollisionGroups { bits: self.bits | other.bits }
    }
}

/// Two collision masks interact iff each side's membership meets the other
/// side's filter.
pub open spec fn spec_interaction_allowed(
    a_membership: u32,
    a_filter: u32,
    b_membership: u32,
    b_filter: u32,
) -> bool {
    (a_membership & b_filter) != 0 && (b_membership & a_filter) != 0
}

/// Decides whether two colliders' group masks let them register contacts or
/// ray hits against each other.
pub fn interaction_allowed(
    a_membership: CollisionGroups,
    a_filter: CollisionGroups,
    b_membership: CollisionGroups,
    b_filter: CollisionGroups,
) -> (r: bool)
    ensures
        r == spec_interaction_allowed(a_membership.bits, a_filter.bits, b_membership.bits, b_filter.bits),
{
    (a_membership.bits & b_filter.bits) != 0 && (b_membership.bits & a_filter.bits) != 0
}

/// The interaction rule does not depend on which collider is named first.
pub proof fn lemma_interaction_symmetric(am: u32, af: u32, bm: u32, bf: u32)
    ensures
        spec_interaction_allowed(am, af, bm, bf) == spec_interaction_allowed(bm, bf, am, af),
{
}

/// The four rigid-body kinds, each optionally carrying a collider request.
pub enum BodyType {
    Fixed(Option<BodyColliderType>),
    Dynamic(Option<BodyColliderType>),
    VelocityKinematic(Option<BodyColliderType>),
    PositionKinematic(Option<BodyColliderType>),
}

/// A collider shape request, dimensions in fixed-point milli-units.
pub enum BodyColliderType {
    /// Radius.
    Ball(i64),
    /// Half-extents along x, y and z.
    Cuboid(i64, i64, i64),
    /// Radius, then full height.
    Capsule(i64, i64),
    /// Radius, then full height.
    Cylinder(i64, i64),
    /// Vertex positions, then triangle indices.
    TriangleMesh(Vec<[i64; 3]>, Vec<[u32; 3]>),
}

/// A render-only collider descriptor: shape dimensions plus the last world
/// position and rotation it was synced to, and a sensor flag.
#[derive(Clone, Copy, Debug, PartialEq, Eq, Structural)]
pub enum RenderColliderType {
    /// Position, rotation, radius, sensor flag.
    Ball(Option<Vec3>, Option<Vec3>, i64, bool),
    /// Position, rotation, half-extents, sensor flag.
    Cuboid(Option<Vec3>, Option<Vec3>, i64, i64, i64, bool),
    /// Position, rotation, radius, height, sensor flag.
    Capsule(Option<Vec3>, Option<Vec3>, i64, i64, bool),
    /// Position, rotation, radius, height, sensor flag.
    Cylinder(Option<Vec3>, Option<Vec3>, i64, i64, bool),
}

/// The value of a render collider after its position and rotation are
/// overwritten.
pub open spec fn spec_render_collider_with_transform(
    c: RenderColliderType,
    position: Vec3,
    rotation: Vec3,
) -> RenderColliderType {
    match c {
        RenderColliderType::Ball(_, _, r, s) => RenderColliderType::Ball(
            Some(position),
            Some(rotation),
            r,
            s,
        ),
        RenderColliderType::Cuboid(_, _, x, y, z, s) => RenderColliderType::Cuboid(
            Some(position),
            Some(rotation),
            x,
            y,
            z,
            s,
        ),
        RenderColliderType::Capsule(_, _, r, h, s) => RenderColliderType::Capsule(
            Some(position),
            Some(rotation),
            r,
            h,
            s,
        ),
        RenderColliderType::Cylinder(_, _, r, h, s) => RenderColliderType::Cylinder(
            Some(position),
            Some(rotation),
            r,
            h,
            s,
        ),
    }
}

impl RenderColliderType {
    /// Overwrites the stored position and rotation, keeping the shape.
    pub fn set_transform(&mut self, position: Vec3, rotation: Vec3)
        ensures
            *final(self) == spec_render_collider_with_transform(*old(self), position, rotation),
    {
        match self {
            RenderColliderType::Ball(col_pos, col_rot, _, _) => {
                *col_pos = Some(position);
                *col_rot = Some(rotation);
            },
            RenderColliderType::Cuboid(col_pos, col_rot, _, _, _, _) => {
                *col_pos = Some(position);
                *col_rot = Some(rotation);
            },
            RenderColliderType::Capsule(col_pos, col_rot, _, _, _) => {
                *col_pos = Some(position);
                *col_rot = Some(rotation);
            },
            RenderColliderType::Cylinder(col_pos, col_rot, _, _, _) => {
                *col_pos = Some(position);
                *col_rot = Some(rotation);
            },
        }
    }
}

/// A ray to draw for debugging, in fixed-point world units.
#[derive(Clone, Copy, Debug, PartialEq, Eq, Structural)]
pub struct RenderRay {
    pub origin: Vec3,
    pub direction: Vec3,
}

/// The handles an entity keeps for its physics state.
#[derive(Clone, Copy, Debug, PartialEq, Eq, Structural)]
pub struct ObjectBodyParameters {
    pub rigid_body_handle: Option<RigidBodyHandle>,
    pub collider_handle: Option<ColliderHandle>,
    pub render_collider_type: Option<RenderColliderType>,
}

impl ObjectBodyParameters {
    /// A bundle with no body, collider or render collider.
    pub fn empty() -> (r: ObjectBodyParameters)
        ensures
            r == (ObjectBodyParameters {
                rigid_body_handle: None,
                collider_handle: None,
                render_collider_type: None,
            }),
    {
        ObjectBodyParameters { rigid_body_handle: None, collider_handle: None, render_collider_type: None }
    }

    /// Replaces the render-only collider descriptor.
    pub fn set_render_collider(&mut self, render_collider: Option<RenderColliderType>)
        ensures
            *final(self) == (ObjectBodyParameters {
                render_collider_type: render_collider,
                ..*old(self)
            }),
    {
        self.render_collider_type = render_collider;
    }
}

/// A rigid-body kind without its collider request.
#[derive(Clone, Copy, Debug, PartialEq, Eq, Structural)]
pub enum RigidBodyKind {
    Fixed,
    Dynamic,
    VelocityKinematic,
    PositionKinematic,
}

/// The simulated state of one rigid body.
#[derive(Clone, Copy, Debug, PartialEq, Eq, Structural)]
pub struct RigidBodyRecord {
    pub kind: RigidBodyKind,
    /// World position in milli-units.
    pub position: Vec3,
    /// World rotation in milli-degrees.
    pub rotation: Vec3,
    /// Additional mass in milli-units.
    pub mass: i64,
    /// Identifier of the owning entity.
    pub user_data: u128,
    /// The collider attached to this body, if any.
    pub collider: Option<ColliderHandle>,
}

/// The stored state of one collider.
pub struct ColliderRecord {
    pub shape: BodyColliderType,
    pub membership: CollisionGroups,
    pub filter: CollisionGroups,
    pub parent: RigidBodyHandle,
}

/// One rigid-body arena slot: its current generation and its occupant.
pub struct BodySlot {
    pub generation: u64,
    pub body: Option<RigidBodyRecord>,
}

/// One collider arena slot.
pub struct ColliderSlot {
    pub generation: u64,
    pub collider: Option<ColliderRecord>,
}

/// The physics world: both arenas plus the step counter.
pub struct PhysicsWorld {
    bodies: Vec<BodySlot>,
    colliders: Vec<ColliderSlot>,
    steps: u64,
}

impl PhysicsWorld {
    /// The rigid-body slots, for specification purposes.
    pub closed spec fn body_slots(self) -> Seq<BodySlot> {
        self.bodies@
    }

    /// The collider slots, for specification purposes.
    pub closed spec fn collider_slots(self) -> Seq<ColliderSlot> {
        self.colliders@
    }

    /// How many simulation steps have been taken.
    pub closed spec fn spec_steps(self) -> u64 {
        self.steps
    }

    /// A body handle is valid when its slot still carries the same generation
    /// and is occupied.
    pub open spec fn body_handle_valid(self, h: RigidBodyHandle) -> bool {
        &&& h.index < self.body_slots().len()
        &&& self.body_slots()[h.index as int].generation == h.generation
        &&& self.body_slots()[h.index as int].body is Some
    }

    /// The record a valid body handle refers to.
    pub open spec fn body_record(self, h: RigidBodyHandle) -> RigidBodyRecord {
        self.body_slots()[h.index as int].body->0
    }

    /// A body handle is retired once its slot generation has moved past it;
    /// no later operation can ever make it valid again.
    pub open spec fn body_handle_retired(self, h: RigidBodyHandle) -> bool {
        &&& h.index < self.body_slots().len()
        &&& self.body_slots()[h.index as int].generation > h.generation
    }

    /// A collider handle is valid when its slot still carries the same
    /// generation and is occupied.
    pub open spec fn collider_handle_valid(self, h: ColliderHandle) -> bool {
        &&& h.index < self.collider_slots().len()
        &&& self.collider_slots()[h.index as int].generation == h.generation
        &&& self.collider_slots()[h.index as int].collider is Some
    }

    /// The record a valid collider handle refers to.
    pub open spec fn collider_record(self, h: ColliderHandle) -> ColliderRecord {
        self.collider_slots()[h.index as int].collider->0
    }

    /// A collider handle is retired once its slot generation has moved past
    /// it.
    pub open spec fn collider_handle_retired(self, h: ColliderHandle) -> bool {
        &&& h.index < self.collider_slots().len()
        &&& self.collider_slots()[h.index as int].generation > h.generation
    }

    /// Occupied slots always have room to bump their generation on removal.
    pub open spec fn wf(self) -> bool {
        &&& forall|i: int|
            0 <= i < self.body_slots().len() && self.body_slots()[i].body is Some
                ==> (#[trigger] self.body_slots()[i].generation) < u64::MAX
        &&& forall|i: int|
            0 <= i < self.collider_slots().len() && self.collider_slots()[i].collider is Some
                ==> (#[trigger] self.collider_slots()[i].generation) < u64::MAX
    }

    /// An empty world.
    pub fn new() -> (r: PhysicsWorld)
        ensures
            r.body_slots().len() == 0,
            r.collider_slots().len() == 0,
            r.spec_steps() == 0,
            r.wf(),
    {
        PhysicsWorld { bodies: Vec::new(), colliders: Vec::new(), steps: 0 }
    }
}

/// Slot counts never shrink and slot generations never decrease; this is
/// what keeps retired handles retired forever.
pub open spec fn arena_evolves(pre: PhysicsWorld, post: PhysicsWorld) -> bool {
    &&& pre.body_slots().len() <= post.body_slots().len()
    &&& forall|i: int|
        0 <= i < pre.body_slots().len()
            ==> (#[trigger] post.body_slots()[i].generation) >= pre.body_slots()[i].generation
    &&& pre.collider_slots().len() <= post.collider_slots().len()
    &&& forall|i: int|
        0 <= i < pre.collider_slots().len()
            ==> (#[trigger] post.collider_slots()[i].generation) >= pre.collider_slots()[i].generation
}

/// A retired handle is never a valid one.
pub proof fn lemma_retired_body_handle_not_valid(w: PhysicsWorld, h: RigidBodyHandle)
    requires
        w.body_handle_retired(h),
    ensures
        !w.body_handle_valid(h),
{
}

/// Arena evolution preserves retirement of body handles.
pub proof fn lemma_evolves_preserves_body_retired(
    pre: PhysicsWorld,
    post: PhysicsWorld,
    h: RigidBodyHandle,
)
    requires
        arena_evolves(pre, post),
        pre.body_handle_retired(h),
    ensures
        post.body_handle_retired(h),
{
}

/// Arena evolution preserves retirement of collider handles.
pub proof fn lemma_evolves_preserves_collider_retired(
    pre: PhysicsWorld,
    post: PhysicsWorld,
    h: ColliderHandle,
)
    requires
        arena_evolves(pre, post),
        pre.collider_handle_retired(h),
    ensures
        post.collider_handle_retired(h),
{
}

/// Arena evolution composes.
pub proof fn lemma_evolves_transitive(a: PhysicsWorld, b: PhysicsWorld, c: PhysicsWorld)
    requires
        arena_evolves(a, b),
        arena_evolves(b, c),
    ensures
        arena_evolves(a, c),
{
}

/// Advances the simulation one step.  The numeric integration itself is the
/// physics backend's task; the world records that a step happened and keeps
/// every handle and record intact.
pub fn update(world: &mut PhysicsWorld)
    ensures
        final(world).body_slots() == old(world).body_slots(),
        final(world).collider_slots() == old(world).collider_slots(),
        final(world).spec_steps() == if old(world).spec_steps() < u64::MAX {
            old(world).spec_steps() + 1
        } else {
            u64::MAX as int
        },
        old(world).wf() ==> final(world).wf(),
{
    if world.steps < u64::MAX {
        world.steps = world.steps + 1;
    }
}

/// Finds the first reusable body slot: free, with generation headroom.
fn find_free_body_slot(world: &PhysicsWorld) -> (r: Option<usize>)
    ensures
        match r {
            Some(i) => i < world.body_slots().len() && world.body_slots()[i as int].body is None
                && world.body_slots()[i as int].generation < u64::MAX,
            None => true,
        },
{
    let n = world.bodies.len();
    for i in 0..n
        invariant
            n == world.body_slots().len(),
    {
        if world.bodies[i].body.is_none() && world.bodies[i].generation < u64::MAX {
            return Some(i);
        }
    }
    None
}

/// Finds the first reusable collider slot.
fn find_free_collider_slot(world: &PhysicsWorld) -> (r: Option<usize>)
    ensures
        match r {
            Some(i) => i < world.collider_slots().len()
                && world.collider_slots()[i as int].collider is None
                && world.collider_slots()[i as int].generation < u64::MAX,
            None => true,
        },
{
    let n = world.colliders.len();
    for i in 0..n
        invariant
            n == world.collider_slots().len(),
    {
        if world.colliders[i].collider.is_none() && world.colliders[i].generation < u64::MAX {
            return Some(i);
        }
    }
    None
}

/// Inserts a body record, reusing a free slot when one exists.
fn insert_body(world: &mut PhysicsWorld, record: RigidBodyRecord) -> (h: RigidBodyHandle)
    requires
        old(world).wf(),
    ensures
        final(world).wf(),
        arena_evolves(*old(world), *final(world)),
        final(world).body_handle_valid(h),
        final(world).body_record(h) == record,
        final(world).collider_slots() == old(world).collider_slots(),
        final(world).spec_steps() == old(world).spec_steps(),
        !old(world).body_handle_valid(h),
        forall|h2: RigidBodyHandle|
            old(world).body_handle_valid(h2) ==> #[trigger] final(world).body_handle_valid(h2)
                && final(world).body_record(h2) == old(world).body_record(h2),
        forall|h2: RigidBodyHandle|
            old(world).body_handle_retired(h2) ==> #[trigger] final(world).body_handle_retired(h2),
{
    match find_free_body_slot(world) {
        Some(i) => {
            let generation = world.bodies[i].generation;
            world.bodies[i] = BodySlot { generation, body: Some(record) };
            RigidBodyHandle { index: i, generation }
        },
        None => {
            let i = world.bodies.len();
            world.bodies.push(BodySlot { generation: 0, body: Some(record) });
            RigidBodyHandle { index: i, generation: 0 }
        },
    }
}

/// Inserts a collider record, reusing a free slot when one exists.
fn insert_collider(world: &mut PhysicsWorld, record: ColliderRecord) -> (h: ColliderHandle)
    requires
        old(world).wf(),
    ensures
        final(world).wf(),
        arena_evolves(*old(world), *final(world)),
        final(world).collider_handle_valid(h),
        final(world).collider_record(h) == record,
        final(world).body_slots() == old(world).body_slots(),
        final(world).spec_steps() == old(world).spec_steps(),
        !old(world).collider_handle_valid(h),
        forall|h2: ColliderHandle|
            old(world).collider_handle_valid(h2) ==> #[trigger] final(world).collider_handle_valid(h2)
                && final(world).collider_record(h2) == old(world).collider_record(h2),
        forall|h2: ColliderHandle|
            old(world).collider_handle_retired(h2)
                ==> #[trigger] final(world).collider_handle_retired(h2),
{
    match find_free_collider_slot(world) {
        Some(i) => {
            let generation = world.colliders[i].generation;
            world.colliders[i] = ColliderSlot { generation, collider: Some(record) };
            ColliderHandle { index: i, generation }
        },
        None => {
            let i = world.colliders.len();
            world.colliders.push(ColliderSlot { generation: 0, collider: Some(record) });
            ColliderHandle { index: i, generation: 0 }
        },
    }
}

/// The kind carried by a body-type request.
pub open spec fn spec_body_kind(t: BodyType) -> RigidBodyKind {
    match t {
        BodyType::Fixed(_) => RigidBodyKind::Fixed,
        BodyType::Dynamic(_) => RigidBodyKind::Dynamic,
        BodyType::VelocityKinematic(_) => RigidBodyKind::VelocityKinematic,
        BodyType::PositionKinematic(_) => RigidBodyKind::PositionKinematic,
    }
}

/// The collider request carried by a body-type request.
pub open spec fn spec_body_collider(t: BodyType) -> Option<BodyColliderType> {
    match t {
        BodyType::Fixed(c) => c,
        BodyType::Dynamic(c) => c,
        BodyType::VelocityKinematic(c) => c,
        BodyType::PositionKinematic(c) => c,
    }
}

/// The body record a creation request yields, before any collider is linked.
pub open spec fn spec_initial_record(
    kind: RigidBodyKind,
    transform: Option<Transform>,
    mass: i64,
    id: u128,
) -> RigidBodyRecord {
    RigidBodyRecord {
        kind,
        position: match transform {
            Some(t) => t.position,
            None => Vec3 { x: 0, y: 0, z: 0 },
        },
        rotation: match transform {
            Some(t) => t.rotation,
            None => Vec3 { x: 0, y: 0, z: 0 },
        },
        mass,
        user_data: id,
        collider: None,
    }
}

/// The membership or filter mask a creation request falls back to: group 1.
pub open spec fn spec_groups_or_default(g: Option<CollisionGroups>) -> CollisionGroups {
    match g {
        Some(groups) => groups,
        None => CollisionGroups { bits: 1u32 },
    }
}

/// Creates a rigid body, and a collider when the body type requests one.
/// Returns the handle bundle for the new body.  Creation never fails.
pub fn new_rigid_body(
    world: &mut PhysicsWorld,
    body_type: BodyType,
    transform: Option<Transform>,
    mass: i64,
    id: u128,
    membership_groups: Option<CollisionGroups>,
    filter_groups: Option<CollisionGroups>,
) -> (r: ObjectBodyParameters)
    requires
        old(world).wf(),
    ensures
        final(world).wf(),
        arena_evolves(*old(world), *final(world)),
        final(world).spec_steps() == old(world).spec_steps(),
        r.render_collider_type is None,
        r.rigid_body_handle is Some,
        final(world).body_handle_valid(r.rigid_body_handle->0),
        final(world).body_record(r.rigid_body_handle->0) == (RigidBodyRecord {
            collider: r.collider_handle,
            ..spec_initial_record(spec_body_kind(body_type), transform, mass, id)
        }),
        match spec_body_collider(body_type) {
            Some(shape) => {
                &&& r.collider_handle is Some
                &&& final(world).collider_handle_valid(r.collider_handle->0)
                &&& final(world).collider_record(r.collider_handle->0) == (ColliderRecord {
                    shape,
                    membership: spec_groups_or_default(membership_groups),
                    filter: spec_groups_or_default(filter_groups),
                    parent: r.rigid_body_handle->0,
                })
            },
            None => {
                &&& r.collider_handle is None
                &&& final(world).collider_slots() == old(world).collider_slots()
            },
        },
        forall|h2: RigidBodyHandle|
            old(world).body_handle_valid(h2) ==> #[trigger] final(world).body_handle_valid(h2)
                && final(world).body_record(h2) == old(world).body_record(h2),
        forall|h2: RigidBodyHandle|
            old(world).body_handle_retired(h2) ==> #[trigger] final(world).body_handle_retired(h2),
        forall|h2: ColliderHandle|
            old(world).collider_handle_valid(h2) ==> #[trigger] final(world).collider_handle_valid(h2)
                && final(world).collider_record(h2) == old(world).collider_record(h2),
        forall|h2: ColliderHandle|
            old(world).collider_handle_retired(h2)
                ==> #[trigger] final(world).collider_handle_retired(h2),
{
    let ghost pre = *old(world);
    let kind = match &body_type {
        BodyType::Fixed(_) => RigidBodyKind::Fixed,
        BodyType::Dynamic(_) => RigidBodyKind::Dynamic,
        BodyType::VelocityKinematic(_) => RigidBodyKind::VelocityKinematic,
        BodyType::PositionKinematic(_) => RigidBodyKind::PositionKinematic,
    };
    let collider_option = match body_type {
        BodyType::Fixed(c) => c,
        BodyType::Dynamic(c) => c,
        BodyType::VelocityKinematic(c) => c,
        BodyType::PositionKinematic(c) => c,
    };
    let (position, rotation) = match transform {
        Some(t) => (t.position, t.rotation),
        None => (Vec3 { x: 0, y: 0, z: 0 }, Vec3 { x: 0, y: 0, z: 0 }),
    };
    let record = RigidBodyRecord { kind, position, rotation, mass, user_data: id, collider: None };
    let body_handle = insert_body(world, record);
    match collider_option {
        Some(shape) => {
            let ghost mid = *world;
            let membership = match membership_groups {
                Some(groups) => groups,
                None => CollisionGroups { bits: 1u32 },
            };
            let filter = match filter_groups {
                Some(groups) => groups,
                None => CollisionGroups { bits: 1u32 },
            };
            let collider_record = ColliderRecord {
                shape,
                membership,
                filter,
                parent: body_handle,
            };
            let collider_handle = insert_collider(world, collider_record);
            let ghost mid2 = *world;
            link_collider(world, body_handle, collider_handle);
            proof {
                lemma_evolves_transitive(pre, mid, mid2);
                lemma_evolves_transitive(pre, mid2, *world);
                assert forall|h2: RigidBodyHandle| pre.body_handle_valid(h2) implies world.body_handle_valid(
                    h2,
                ) && world.body_record(h2) == pre.body_record(h2) by {
                    assert(mid.body_handle_valid(h2) && mid.body_record(h2) == pre.body_record(h2));
                    assert(mid2.body_handle_valid(h2) && mid2.body_record(h2) == pre.body_record(h2));
                    assert(h2 != body_handle);
                }
                assert forall|ch2: ColliderHandle| pre.collider_handle_valid(ch2)
                    implies world.collider_handle_valid(ch2) && world.collider_record(ch2)
                    == pre.collider_record(ch2) by {
                    assert(mid.collider_handle_valid(ch2) && mid.collider_record(ch2)
                        == pre.collider_record(ch2));
                    assert(mid2.collider_handle_valid(ch2) && mid2.collider_record(ch2)
                        == pre.collider_record(ch2));
                }
            }
            ObjectBodyParameters {
                rigid_body_handle: Some(body_handle),
                collider_handle: Some(collider_handle),
                render_collider_type: None,
            }
        },
        None => {
            ObjectBodyParameters {
                rigid_body_handle: Some(body_handle),
                collider_handle: None,
                render_collider_type: None,
            }
        },
    }
}

/// Writes the collider link of a valid body record.
fn link_collider(world: &mut PhysicsWorld, h: RigidBodyHandle, ch: ColliderHandle)
    requires
        old(world).wf(),
        old(world).body_handle_valid(h),
    ensures
        final(world).wf(),
        arena_evolves(*old(world), *final(world)),
        final(world).collider_slots() == old(world).collider_slots(),
        final(world).spec_steps() == old(world).spec_steps(),
        final(world).body_handle_valid(h),
        final(world).body_record(h) == (RigidBodyRecord { collider: Some(ch), ..old(world).body_record(h) }),
        forall|h2: RigidBodyHandle|
            old(world).body_handle_valid(h2) && h2 != h
                ==> #[trigger] final(world).body_handle_valid(h2)
                    && final(world).body_record(h2) == old(world).body_record(h2),
        forall|h2: RigidBodyHandle|
            old(world).body_handle_retired(h2) ==> #[trigger] final(world).body_handle_retired(h2),
{
    let i = h.index;
    let generation = world.bodies[i].generation;
    let record = match world.bodies[i].body {
        Some(record) => record,
        None => {
            proof {
                assert(false);
            }
            RigidBodyRecord {
                kind: RigidBodyKind::Fixed,
                position: Vec3 { x: 0, y: 0, z: 0 },
                rotation: Vec3 { x: 0, y: 0, z: 0 },
                mass: 0,
                user_data: 0,
                collider: None,
            }
        },
    };
    world.bodies[i] = BodySlot {
        generation,
        body: Some(RigidBodyRecord { collider: Some(ch), ..record }),
    };
}

/// Removes the rigid body a bundle refers to, cascading to its attached
/// collider, and clears the bundle's handles.  Removing an absent or stale
/// handle leaves the world unchanged.
pub fn remove_rigid_body(world: &mut PhysicsWorld, body_parameters: &mut ObjectBodyParameters)
    requires
        old(world).wf(),
    ensures
        final(world).wf(),
        arena_evolves(*old(world), *final(world)),
        final(world).spec_steps() == old(world).spec_steps(),
        final(body_parameters).rigid_body_handle is None,
        final(body_parameters).collider_handle is None,
        final(body_parameters).render_collider_type == old(body_parameters).render_collider_type,
        match old(body_parameters).rigid_body_handle {
            Some(h) => {
                if old(world).body_handle_valid(h) {
                    &&& final(world).body_handle_retired(h)
                    &&& !final(world).body_handle_valid(h)
                    &&& match old(world).body_record(h).collider {
                        Some(ch) => old(world).collider_handle_valid(ch)
                            ==> final(world).collider_handle_retired(ch)
                                && !final(world).collider_handle_valid(ch),
                        None => final(world).collider_slots() == old(world).collider_slots(),
                    }
                    &&& forall|h2: RigidBodyHandle|
                        old(world).body_handle_valid(h2) && h2 != h
                            ==> #[trigger] final(world).body_handle_valid(h2)
                                && final(world).body_record(h2) == old(world).body_record(h2)
                    &&& forall|ch2: ColliderHandle|
                        old(world).collider_handle_valid(ch2) && Some(ch2)
                            != old(world).body_record(h).collider
                            ==> #[trigger] final(world).collider_handle_valid(ch2)
                                && final(world).collider_record(ch2) == old(world).collider_record(
                                ch2,
                            )
                } else {
                    *final(world) == *old(world)
                }
            },
            None => *final(world) == *old(world),
        },
        forall|h2: RigidBodyHandle|
            old(world).body_handle_retired(h2) ==> #[trigger] final(world).body_handle_retired(h2),
        forall|ch2: ColliderHandle|
            old(world).collider_handle_retired(ch2)
                ==> #[trigger] final(world).collider_handle_retired(ch2),
{
    if let Some(h) = body_parameters.rigid_body_handle {
        let i = h.index;
        if i < world.bodies.len() && world.bodies[i].generation == h.generation
            && world.bodies[i].body.is_some() {
            let collider_link = match world.bodies[i].body {
                Some(record) => record.collider,
                None => None,
            };
            let generation = world.bodies[i].generation;
            world.bodies[i] = BodySlot { generation: generation + 1, body: None };
            if let Some(ch) = collider_link {
                let j = ch.index;
                if j < world.colliders.len() && world.colliders[j].generation == ch.generation
                    && world.colliders[j].collider.is_some() {
                    let collider_generation = world.colliders[j].generation;
                    world.colliders[j] = ColliderSlot {
                        generation: collider_generation + 1,
                        collider: None,
                    };
                }
            }
        }
    }
    body_parameters.rigid_body_handle = None;
    body_parameters.collider_handle = None;
}

/// The position a bundle's body currently has, when the handle is present
/// and valid.
pub open spec fn spec_get_body_position(
    world: PhysicsWorld,
    body_parameters: ObjectBodyParameters,
) -> Option<Vec3> {
    match body_parameters.rigid_body_handle {
        Some(h) => if world.body_handle_valid(h) {
            Some(world.body_record(h).position)
        } else {
            None
        },
        None => None,
    }
}

/// The rotation a bundle's body currently has, when the handle is present
/// and valid.
pub open spec fn spec_get_body_rotation(
    world: PhysicsWorld,
    body_parameters: ObjectBodyParameters,
) -> Option<Vec3> {
    match body_parameters.rigid_body_handle {
        Some(h) => if world.body_handle_valid(h) {
            Some(world.body_record(h).rotation)
        } else {
            None
        },
        None => None,
    }
}

/// Looks up the world position of a bundle's body.  Absent and stale handles
/// report `None`, never another body's state.
pub fn get_body_position(world: &PhysicsWorld, body_parameters: ObjectBodyParameters) -> (r: Option<
    Vec3,
>)
    ensures
        r == spec_get_body_position(*world, body_parameters),
{
    if let Some(h) = body_parameters.rigid_body_handle {
        let i = h.index;
        if i < world.bodies.len() && world.bodies[i].generation == h.generation {
            match world.bodies[i].body {
                Some(record) => Some(record.position),
                None => None,
            }
        } else {
            None
        }
    } else {
        None
    }
}

/// Looks up the world rotation of a bundle's body.
pub fn get_body_rotation(world: &PhysicsWorld, body_parameters: ObjectBodyParameters) -> (r: Option<
    Vec3,
>)
    ensures
        r == spec_get_body_rotation(*world, body_parameters),
{
    if let Some(h) = body_parameters.rigid_body_handle {
        let i = h.index;
        if i < world.bodies.len() && world.bodies[i].generation == h.generation {
            match world.bodies[i].body {
                Some(record) => Some(record.rotation),
                None => None,
            }
        } else {
            None
        }
    } else {
        None
    }
}

/// Looks up position and rotation together.
pub fn get_body_transformations(
    world: &PhysicsWorld,
    body_parameters: ObjectBodyParameters,
) -> (r: Option<(Vec3, Vec3)>)
    ensures
        r == match spec_get_body_position(*world, body_parameters) {
            Some(p) => Some((p, spec_get_body_rotation(*world, body_parameters)->0)),
            None => None::<(Vec3, Vec3)>,
        },
{
    if let Some(h) = body_parameters.rigid_body_handle {
        let i = h.index;
        if i < world.bodies.len() && world.bodies[i].generation == h.generation {
            match world.bodies[i].body {
                Some(record) => Some((record.position, record.rotation)),
                None => None,
            }
        } else {
            None
        }
    } else {
        None
    }
}

/// The world after a bundle's body position is overwritten; unchanged when
/// the handle is absent or stale.
pub open spec fn spec_set_position_ok(
    pre: PhysicsWorld,
    post: PhysicsWorld,
    body_parameters: ObjectBodyParameters,
    position: Vec3,
) -> bool {
    match body_parameters.rigid_body_handle {
        Some(h) => if pre.body_handle_valid(h) {
            &&& post.body_handle_valid(h)
            &&& post.body_record(h) == (RigidBodyRecord { position, ..pre.body_record(h) })
            &&& forall|h2: RigidBodyHandle|
                pre.body_handle_valid(h2) && h2 != h ==> #[trigger] post.body_handle_valid(h2)
                    && post.body_record(h2) == pre.body_record(h2)
        } else {
            post == pre
        },
        None => post == pre,
    }
}

/// Overwrites a body's position.  Stale and absent handles are ignored.
pub fn set_body_position(
    world: &mut PhysicsWorld,
    body_parameters: ObjectBodyParameters,
    position: Vec3,
)
    requires
        old(world).wf(),
    ensures
        final(world).wf(),
        arena_evolves(*old(world), *final(world)),
        final(world).collider_slots() == old(world).collider_slots(),
        final(world).spec_steps() == old(world).spec_steps(),
        spec_set_position_ok(*old(world), *final(world), body_parameters, position),
        forall|h2: RigidBodyHandle|
            old(world).body_handle_retired(h2) ==> #[trigger] final(world).body_handle_retired(h2),
{
    if let Some(h) = body_parameters.rigid_body_handle {
        let i = h.index;
        if i < world.bodies.len() && world.bodies[i].generation == h.generation {
            let generation = world.bodies[i].generation;
            match world.bodies[i].body {
                Some(record) => {
                    world.bodies[i] = BodySlot {
                        generation,
                        body: Some(RigidBodyRecord { position, ..record }),
                    };
                },
                None => {},
            }
        }
    }
}

/// The world after a bundle's body rotation is overwritten.
pub open spec fn spec_set_rotation_ok(
    pre: PhysicsWorld,
    post: PhysicsWorld,
    body_parameters: ObjectBodyParameters,
    rotation: Vec3,
) -> bool {
    match body_parameters.rigid_body_handle {
        Some(h) => if pre.body_handle_valid(h) {
            &&& post.body_handle_valid(h)
            &&& post.body_record(h) == (RigidBodyRecord { rotation, ..pre.body_record(h) })
            &&& forall|h2: RigidBodyHandle|
                pre.body_handle_valid(h2) && h2 != h ==> #[trigger] post.body_handle_valid(h2)
                    && post.body_record(h2) == pre.body_record(h2)
        } else {
            post == pre
        },
        None => post == pre,
    }
}

/// Overwrites a body's rotation, given in fixed-point Euler degrees.
pub fn set_body_rotation(
    world: &mut PhysicsWorld,
    body_parameters: ObjectBodyParameters,
    rotation_deg: Vec3,
)
    requires
        old(world).wf(),
    ensures
        final(world).wf(),
        arena_evolves(*old(world), *final(world)),
        final(world).collider_slots() == old(world).collider_slots(),
        final(world).spec_steps() == old(world).spec_steps(),
        spec_set_rotation_ok(*old(world), *final(world), body_parameters, rotation_deg),
        forall|h2: RigidBodyHandle|
            old(world).body_handle_retired(h2) ==> #[trigger] final(world).body_handle_retired(h2),
{
    if let Some(h) = body_parameters.rigid_body_handle {
        let i = h.index;
        if i < world.bodies.len() && world.bodies[i].generation == h.generation {
            let generation = world.bodies[i].generation;
            match world.bodies[i].body {
                Some(record) => {
                    world.bodies[i] = BodySlot {
                        generation,
                        body: Some(RigidBodyRecord { rotation: rotation_deg, ..record }),
                    };
                },
                None => {},
            }
        }
    }
}

/// Overwrites a body's position and rotation together.
pub fn set_body_transformations(
    world: &mut PhysicsWorld,
    body_parameters: ObjectBodyParameters,
    position: Vec3,
    rotation: Vec3,
)
    requires
        old(world).wf(),
    ensures
        final(world).wf(),
        arena_evolves(*old(world), *final(world)),
        final(world).collider_slots() == old(world).collider_slots(),
        final(world).spec_steps() == old(world).spec_steps(),
        match body_parameters.rigid_body_handle {
            Some(h) => if old(world).body_handle_valid(h) {
                final(world).body_handle_valid(h) && final(world).body_record(h)
                    == (RigidBodyRecord { position, rotation, ..old(world).body_record(h) })
                    && forall|h2: RigidBodyHandle|
                    old(world).body_handle_valid(h2) && h2 != h
                        ==> #[trigger] final(world).body_handle_valid(h2)
                            && final(world).body_record(h2) == old(world).body_record(h2)
            } else {
                *final(world) == *old(world)
            },
            None => *final(world) == *old(world),
        },
        forall|h2: RigidBodyHandle|
            old(world).body_handle_retired(h2) ==> #[trigger] final(world).body_handle_retired(h2),
{
    if let Some(h) = body_parameters.rigid_body_handle {
        let i = h.index;
        if i < world.bodies.len() && world.bodies[i].generation == h.generation {
            let generation = world.bodies[i].generation;
            match world.bodies[i].body {
                Some(record) => {
                    world.bodies[i] = BodySlot {
                        generation,
                        body: Some(RigidBodyRecord { position, rotation, ..record }),
                    };
                },
                None => {},
            }
        }
    }
}

/// A pending collider description: the shape and the interaction masks it
/// will be created with.
pub struct ColliderBuilder {
    pub shape: BodyColliderType,
    pub membership: CollisionGroups,
    pub filter: CollisionGroups,
}

/// Bundles a collider request with its interaction masks.
pub fn collider_type_to_collider_builder(
    collider: BodyColliderType,
    membership_groups: CollisionGroups,
    filter_groups: CollisionGroups,
) -> (r: ColliderBuilder)
    ensures
        r.shape == collider,
        r.membership == membership_groups,
        r.filter == filter_groups,
{
    ColliderBuilder { shape: collider, membership: membership_groups, filter: filter_groups }
}

/// The render-only descriptor matching a collider request; triangle meshes
/// have no render descriptor.
pub open spec fn spec_render_collider_of(
    collider: BodyColliderType,
    is_sensor: bool,
) -> Option<RenderColliderType> {
    match collider {
        BodyColliderType::Ball(radius) => Some(
            RenderColliderType::Ball(None, None, radius, is_sensor),
        ),
        BodyColliderType::Cuboid(x, y, z) => Some(
            RenderColliderType::Cuboid(None, None, x, y, z, is_sensor),
        ),
        BodyColliderType::Capsule(radius, height) => Some(
            RenderColliderType::Capsule(None, None, radius, height, is_sensor),
        ),
        BodyColliderType::Cylinder(radius, height) => Some(
            RenderColliderType::Cylinder(None, None, radius, height, is_sensor),
        ),
        BodyColliderType::TriangleMesh(_, _) => None,
    }
}

/// Derives the render-only collider descriptor for a collider request.
pub fn collider_type_to_render_collider(
    collider: &BodyColliderType,
    is_sensor: bool,
) -> (r: Option<RenderColliderType>)
    ensures
        r == spec_render_collider_of(*collider, is_sensor),
{
    match collider {
        BodyColliderType::Ball(radius) => Some(
            RenderColliderType::Ball(None, None, *radius, is_sensor),
        ),
        BodyColliderType::Cuboid(x, y, z) => Some(
            RenderColliderType::Cuboid(None, None, *x, *y, *z, is_sensor),
        ),
        BodyColliderType::Capsule(radius, height) => Some(
            RenderColliderType::Capsule(None, None, *radius, *height, is_sensor),
        ),
        BodyColliderType::Cylinder(radius, height) => Some(
            RenderColliderType::Cylinder(None, None, *radius, *height, is_sensor),
        ),
        BodyColliderType::TriangleMesh(_, _) => None,
    }
}


/// The number of rigid-body slots the arena currently holds.
pub fn num_body_slots(world: &PhysicsWorld) -> (n: usize)
    ensures
        n == world.body_slots().len(),
{
    world.body_count()
}

impl PhysicsWorld {
    /// How many simulation steps have been recorded.
    pub fn step_count(&self) -> (n: u64)
        ensures
            n == self.spec_steps(),
    {
        self.steps
    }

    /// The number of rigid-body slots, counting free ones.
    pub fn body_count(&self) -> (n: usize)
        ensures
            n == self.body_slots().len(),
    {
        self.bodies.len()
    }

    /// The valid handle for an occupied slot, or `None` for a free one.
    pub fn body_handle_at(&self, index: usize) -> (r: Option<RigidBodyHandle>)
        ensures
            match r {
                Some(h) => h.index == index && self.body_handle_valid(h),
                None => index < self.body_slots().len()
                    ==> self.body_slots()[index as int].body is None,
            },
    {
        if index < self.bodies.len() {
            if self.bodies[index].body.is_some() {
                return Some(
                    RigidBodyHandle { index, generation: self.bodies[index].generation },
                );
            }
        }
        None
    }

    /// The record behind a body handle, or `None` when the handle is stale.
    pub fn get_body_record(&self, h: RigidBodyHandle) -> (r: Option<RigidBodyRecord>)
        ensures
            r == if self.body_handle_valid(h) {
                Some(self.body_record(h))
            } else {
                None::<RigidBodyRecord>
            },
    {
        if h.index < self.bodies.len() && self.bodies[h.index].generation == h.generation {
            self.bodies[h.index].body
        } else {
            None
        }
    }

    /// The record behind a collider handle, or `None` when the handle is
    /// stale.
    pub fn get_collider_record<'a>(&'a self, h: ColliderHandle) -> (r: Option<&'a ColliderRecord>)
        ensures
            match r {
                Some(c) => self.collider_handle_valid(h) && *c == self.collider_record(h),
                None => !self.collider_handle_valid(h),
            },
    {
        if h.index < self.colliders.len() && self.colliders[h.index].generation == h.generation {
            match &self.colliders[h.index].collider {
                Some(c) => Some(c),
                None => None,
            }
        } else {
            None
        }
    }
}

} // verus!
