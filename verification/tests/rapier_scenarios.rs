//! Scenarios that run the physics backend on state built through the
//! library: the fixed-point body records drive a real simulation.

use projectbaldej::physics::{
    interaction_allowed, new_rigid_body, BodyColliderType, BodyType, CollisionGroups,
    PhysicsWorld, RigidBodyKind,
};
use projectbaldej::transform::{Transform, Vec3};
use rapier3d::dynamics::{
    CCDSolver, ImpulseJointSet, IntegrationParameters, IslandManager, MultibodyJointSet,
    RigidBodyBuilder, RigidBodySet,
};
use rapier3d::geometry::{
    BroadPhase, ColliderBuilder, ColliderSet, Group, InteractionGroups, NarrowPhase, Ray,
};
use rapier3d::na::{Point3, Vector3};
use rapier3d::pipeline::{PhysicsPipeline, QueryFilter, QueryPipeline};

fn fx(v: i64) -> f32 {
    v as f32 / 1000.0
}

fn transform_at(x: i64, y: i64, z: i64) -> Transform {
    let mut t = Transform::default();
    t.position = Vec3::new(x, y, z);
    t
}

/// Rebuilds the library's body records inside the physics backend and
/// returns the backend handle for each record's owner identifier.
fn mirror_into_backend(
    world: &PhysicsWorld,
    bodies: &mut RigidBodySet,
    colliders: &mut ColliderSet,
) -> Vec<(u128, rapier3d::dynamics::RigidBodyHandle)> {
    let mut mapping = Vec::new();
    for i in 0..world.body_count() {
        let handle = match world.body_handle_at(i) {
            Some(h) => h,
            None => continue,
        };
        let record = world.get_body_record(handle).unwrap();
        let builder = match record.kind {
            RigidBodyKind::Fixed => RigidBodyBuilder::fixed(),
            RigidBodyKind::Dynamic => RigidBodyBuilder::dynamic(),
            RigidBodyKind::VelocityKinematic => RigidBodyBuilder::kinematic_velocity_based(),
            RigidBodyKind::PositionKinematic => RigidBodyBuilder::kinematic_position_based(),
        };
        let body = builder
            .translation(Vector3::new(
                fx(record.position.x),
                fx(record.position.y),
                fx(record.position.z),
            ))
            .additional_mass(fx(record.mass))
            .user_data(record.user_data)
            .build();
        let body_handle = bodies.insert(body);
        if let Some(ch) = record.collider {
            if let Some(collider_record) = world.get_collider_record(ch) {
                let collider_builder = match &collider_record.shape {
                    BodyColliderType::Ball(radius) => ColliderBuilder::ball(fx(*radius)),
                    BodyColliderType::Cuboid(x, y, z) => {
                        ColliderBuilder::cuboid(fx(*x), fx(*y), fx(*z))
                    },
                    BodyColliderType::Capsule(radius, height) => {
                        ColliderBuilder::capsule_y(fx(*height) / 2.0, fx(*radius))
                    },
                    BodyColliderType::Cylinder(radius, height) => {
                        ColliderBuilder::cylinder(fx(*height) / 2.0, fx(*radius))
                    },
                    BodyColliderType::TriangleMesh(_, _) => continue,
                };
                let collider = collider_builder
                    .collision_groups(InteractionGroups::new(
                        Group::from(collider_record.membership.bits),
                        Group::from(collider_record.filter.bits),
                    ))
                    .build();
                colliders.insert_with_parent(collider, body_handle, bodies);
            }
        }
        mapping.push((record.user_data, body_handle));
    }
    mapping
}

#[test]
fn dynamic_box_comes_to_rest_on_the_fixed_ground() {
    // A fixed ground slab with a 10 x 0.5 x 10 collider at the origin and a
    // dynamic unit box dropped from five units up: after two simulated
    // seconds the box rests on the slab, its center near 0.5 plus its own
    // half-height.
    let mut world = PhysicsWorld::new();
    let _ground = new_rigid_body(
        &mut world,
        BodyType::Fixed(Some(BodyColliderType::Cuboid(10000, 500, 10000))),
        Some(transform_at(0, 0, 0)),
        1000,
        1,
        None,
        None,
    );
    let _falling = new_rigid_body(
        &mut world,
        BodyType::Dynamic(Some(BodyColliderType::Cuboid(500, 500, 500))),
        Some(transform_at(0, 5000, 0)),
        1000,
        2,
        None,
        None,
    );

    let mut bodies = RigidBodySet::new();
    let mut colliders = ColliderSet::new();
    let mapping = mirror_into_backend(&world, &mut bodies, &mut colliders);
    let box_handle = mapping.iter().find(|(id, _)| *id == 2).unwrap().1;

    let gravity = Vector3::new(0.0, -9.81, 0.0);
    let integration_parameters = IntegrationParameters::default();
    let mut physics_pipeline = PhysicsPipeline::new();
    let mut island_manager = IslandManager::new();
    let mut broad_phase = BroadPhase::new();
    let mut narrow_phase = NarrowPhase::new();
    let mut impulse_joints = ImpulseJointSet::new();
    let mut multibody_joints = MultibodyJointSet::new();
    let mut ccd_solver = CCDSolver::new();
    for _ in 0..120 {
        physics_pipeline.step(
            &gravity,
            &integration_parameters,
            &mut island_manager,
            &mut broad_phase,
            &mut narrow_phase,
            &mut bodies,
            &mut colliders,
            &mut impulse_joints,
            &mut multibody_joints,
            &mut ccd_solver,
            None,
            &(),
            &(),
        );
    }

    let body = bodies.get(box_handle).unwrap();
    let y = body.translation().y;
    let vy = body.linvel().y;
    assert!((y - 1.0).abs() < 0.05, "box settled at {y}");
    assert!(vy.abs() < 0.05, "box still moving at {vy}");
}

#[test]
fn collision_groups_gate_ray_hits() {
    // One cuboid collider below a downward ray.  Whether the ray may see
    // the collider follows the two-mask rule; the backend and the
    // library's own statement of the rule must agree on both cases.
    let cases = [
        // Target membership {1}, filter {2}; query membership {1}, filter {1}: no hit.
        (CollisionGroups::group(1), CollisionGroups::group(2),
         CollisionGroups::group(1), CollisionGroups::group(1), false),
        // Target membership {1,3}, filter {3}; query membership {3}, filter {3}: hit.
        (CollisionGroups::group(1).union(CollisionGroups::group(3)), CollisionGroups::group(3),
         CollisionGroups::group(3), CollisionGroups::group(3), true),
    ];
    for (target_membership, target_filter, query_membership, query_filter, expected) in cases {
        let mut bodies = RigidBodySet::new();
        let mut colliders = ColliderSet::new();
        let body = RigidBodyBuilder::fixed().build();
        let body_handle = bodies.insert(body);
        let collider = ColliderBuilder::cuboid(1.0, 1.0, 1.0)
            .collision_groups(InteractionGroups::new(
                Group::from(target_membership.bits),
                Group::from(target_filter.bits),
            ))
            .build();
        colliders.insert_with_parent(collider, body_handle, &mut bodies);
        let mut query_pipeline = QueryPipeline::new();
        query_pipeline.update(&bodies, &colliders);

        let ray = Ray::new(Point3::new(0.0, 5.0, 0.0), Vector3::new(0.0, -1.0, 0.0));
        let filter = QueryFilter {
            groups: Some(InteractionGroups::new(
                Group::from(query_membership.bits),
                Group::from(query_filter.bits),
            )),
            ..QueryFilter::default()
        };
        let hit = query_pipeline
            .cast_ray(&bodies, &colliders, &ray, 100.0, true, filter)
            .is_some();
        assert_eq!(hit, expected);
        assert_eq!(
            interaction_allowed(target_membership, target_filter, query_membership, query_filter),
            expected
        );
    }
}
