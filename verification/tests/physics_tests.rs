use projectbaldej::physics::{
    collider_type_to_collider_builder, collider_type_to_render_collider, get_body_position,
    get_body_rotation, get_body_transformations, interaction_allowed, new_rigid_body,
    remove_rigid_body, set_body_position, set_body_rotation, set_body_transformations, update,
    BodyColliderType, BodyType, CollisionGroups, ObjectBodyParameters, PhysicsWorld,
    RenderColliderType, RigidBodyKind,
};
use projectbaldej::physics::RenderRay;
use projectbaldej::transform::{Transform, Vec3};

fn transform_at(x: i64, y: i64, z: i64) -> Transform {
    let mut t = Transform::default();
    t.position = Vec3::new(x, y, z);
    t
}

#[test]
fn create_body_returns_live_handles() {
    let mut world = PhysicsWorld::new();
    let params = new_rigid_body(
        &mut world,
        BodyType::Dynamic(Some(BodyColliderType::Cuboid(500, 500, 500))),
        Some(transform_at(0, 5000, 0)),
        1000,
        7,
        None,
        None,
    );
    assert!(params.rigid_body_handle.is_some());
    assert!(params.collider_handle.is_some());
    assert!(params.render_collider_type.is_none());
    assert_eq!(get_body_position(&world, params), Some(Vec3::new(0, 5000, 0)));
    assert_eq!(get_body_rotation(&world, params), Some(Vec3::new(0, 0, 0)));
    let record = world.get_body_record(params.rigid_body_handle.unwrap()).unwrap();
    assert_eq!(record.kind, RigidBodyKind::Dynamic);
    assert_eq!(record.mass, 1000);
    assert_eq!(record.user_data, 7);
}

#[test]
fn bodiless_request_creates_no_collider() {
    let mut world = PhysicsWorld::new();
    let params = new_rigid_body(&mut world, BodyType::Fixed(None), None, 500, 1, None, None);
    assert!(params.rigid_body_handle.is_some());
    assert!(params.collider_handle.is_none());
    assert_eq!(get_body_position(&world, params), Some(Vec3::new(0, 0, 0)));
}

#[test]
fn collider_groups_default_to_group_one() {
    let mut world = PhysicsWorld::new();
    let params = new_rigid_body(
        &mut world,
        BodyType::Fixed(Some(BodyColliderType::Ball(1000))),
        None,
        0,
        0,
        None,
        None,
    );
    let record = world.get_collider_record(params.collider_handle.unwrap()).unwrap();
    assert_eq!(record.membership.bits, 1);
    assert_eq!(record.filter.bits, 1);
}

#[test]
fn removing_body_clears_bundle_and_later_queries_miss() {
    let mut world = PhysicsWorld::new();
    let mut params = new_rigid_body(
        &mut world,
        BodyType::Dynamic(Some(BodyColliderType::Ball(250))),
        Some(transform_at(1000, 0, 0)),
        1000,
        3,
        None,
        None,
    );
    let stale = params;
    remove_rigid_body(&mut world, &mut params);
    assert!(params.rigid_body_handle.is_none());
    assert!(params.collider_handle.is_none());
    assert_eq!(get_body_position(&world, stale), None);
    // A later body may reuse the same slot; the stale handle must keep
    // reporting absence, never the new body's state.
    let replacement = new_rigid_body(
        &mut world,
        BodyType::Dynamic(Some(BodyColliderType::Ball(250))),
        Some(transform_at(9000, 9000, 9000)),
        1000,
        4,
        None,
        None,
    );
    assert_eq!(
        replacement.rigid_body_handle.unwrap().index,
        stale.rigid_body_handle.unwrap().index
    );
    assert_eq!(get_body_position(&world, stale), None);
    assert_eq!(get_body_position(&world, replacement), Some(Vec3::new(9000, 9000, 9000)));
}

#[test]
fn removing_an_absent_handle_is_a_no_op() {
    let mut world = PhysicsWorld::new();
    let mut empty = ObjectBodyParameters::empty();
    remove_rigid_body(&mut world, &mut empty);
    assert!(empty.rigid_body_handle.is_none());
    let mut params = new_rigid_body(&mut world, BodyType::Fixed(None), None, 0, 0, None, None);
    let mut copy = params;
    remove_rigid_body(&mut world, &mut params);
    remove_rigid_body(&mut world, &mut copy);
    assert!(copy.rigid_body_handle.is_none());
}

#[test]
fn setters_update_only_the_addressed_body() {
    let mut world = PhysicsWorld::new();
    let a = new_rigid_body(&mut world, BodyType::Fixed(None), None, 0, 1, None, None);
    let b = new_rigid_body(&mut world, BodyType::Fixed(None), None, 0, 2, None, None);
    set_body_position(&mut world, a, Vec3::new(1000, 2000, 3000));
    set_body_rotation(&mut world, a, Vec3::new(90000, 0, 0));
    assert_eq!(
        get_body_transformations(&world, a),
        Some((Vec3::new(1000, 2000, 3000), Vec3::new(90000, 0, 0)))
    );
    assert_eq!(get_body_position(&world, b), Some(Vec3::new(0, 0, 0)));
    set_body_transformations(&mut world, b, Vec3::new(5, 6, 7), Vec3::new(8, 9, 10));
    assert_eq!(
        get_body_transformations(&world, b),
        Some((Vec3::new(5, 6, 7), Vec3::new(8, 9, 10)))
    );
}

#[test]
fn stale_setter_calls_change_nothing() {
    let mut world = PhysicsWorld::new();
    let mut params = new_rigid_body(&mut world, BodyType::Fixed(None), None, 0, 0, None, None);
    let stale = params;
    remove_rigid_body(&mut world, &mut params);
    set_body_position(&mut world, stale, Vec3::new(1, 1, 1));
    assert_eq!(get_body_position(&world, stale), None);
}

#[test]
fn collision_group_masks() {
    assert_eq!(CollisionGroups::group(1).bits, 1);
    assert_eq!(CollisionGroups::group(2).bits, 2);
    assert_eq!(CollisionGroups::group(3).bits, 4);
    assert_eq!(CollisionGroups::group(32).bits, 1 << 31);
    let combined = CollisionGroups::group(1).union(CollisionGroups::group(3));
    assert_eq!(combined.bits, 5);
}

#[test]
fn interaction_rule_on_the_masks() {
    let g1 = CollisionGroups::group(1);
    let g2 = CollisionGroups::group(2);
    let g3 = CollisionGroups::group(3);
    let g13 = CollisionGroups::group(1).union(CollisionGroups::group(3));
    // Membership {1} against filter {2}: never interacts.
    assert!(!interaction_allowed(g1, g1, g2, g2));
    // Membership {1,3} against filter {3}: interacts.
    assert!(interaction_allowed(g13, g3, g3, g3));
}

#[test]
fn render_collider_round_trip() {
    let rc = collider_type_to_render_collider(&BodyColliderType::Cuboid(100, 200, 300), false);
    assert_eq!(rc, Some(RenderColliderType::Cuboid(None, None, 100, 200, 300, false)));
    let mesh = collider_type_to_render_collider(
        &BodyColliderType::TriangleMesh(vec![[0, 0, 0]], vec![[0, 0, 0]]),
        false,
    );
    assert!(mesh.is_none());
    let mut rc = rc.unwrap();
    rc.set_transform(Vec3::new(1, 2, 3), Vec3::new(4, 5, 6));
    assert_eq!(
        rc,
        RenderColliderType::Cuboid(
            Some(Vec3::new(1, 2, 3)),
            Some(Vec3::new(4, 5, 6)),
            100,
            200,
            300,
            false
        )
    );
}

#[test]
fn collider_builder_keeps_shape_and_masks() {
    let b = collider_type_to_collider_builder(
        BodyColliderType::Capsule(1000, 4000),
        CollisionGroups::group(2),
        CollisionGroups::group(3),
    );
    assert!(matches!(b.shape, BodyColliderType::Capsule(1000, 4000)));
    assert_eq!(b.membership.bits, 2);
    assert_eq!(b.filter.bits, 4);
}

#[test]
fn stepping_advances_the_counter_and_keeps_bodies() {
    let mut world = PhysicsWorld::new();
    let params = new_rigid_body(&mut world, BodyType::Fixed(None), None, 0, 0, None, None);
    assert_eq!(world.step_count(), 0);
    update(&mut world);
    update(&mut world);
    assert_eq!(world.step_count(), 2);
    assert_eq!(get_body_position(&world, params), Some(Vec3::new(0, 0, 0)));
}

#[test]
fn debug_rays_carry_origin_and_direction() {
    let ray = RenderRay { origin: Vec3::new(0, 5000, 0), direction: Vec3::new(0, -1000, 0) };
    assert_eq!(ray.origin.y, 5000);
    assert_eq!(ray.direction.y, -1000);
}
