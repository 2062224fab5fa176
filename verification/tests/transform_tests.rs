use projectbaldej::transform::{fixed_mul, sat_add, Transform, Vec3, SCALE_ONE};

#[test]
fn default_transform_has_unit_scale() {
    let t = Transform::default();
    assert_eq!(t.position, Vec3 { x: 0, y: 0, z: 0 });
    assert_eq!(t.rotation, Vec3 { x: 0, y: 0, z: 0 });
    assert_eq!(t.scale, Vec3 { x: SCALE_ONE, y: SCALE_ONE, z: SCALE_ONE });
}

#[test]
fn compose_adds_positions_and_rotations_and_multiplies_scales() {
    let parent = Transform {
        position: Vec3::new(1000, 2000, 3000),
        rotation: Vec3::new(90000, 0, 0),
        scale: Vec3::new(2000, 1000, 1000),
    };
    let local = Transform {
        position: Vec3::new(100, -500, 0),
        rotation: Vec3::new(0, 45000, 0),
        scale: Vec3::new(1500, 1000, 500),
    };
    let world = local.compose_with(parent);
    assert_eq!(world.position, Vec3::new(1100, 1500, 3000));
    assert_eq!(world.rotation, Vec3::new(90000, 45000, 0));
    assert_eq!(world.scale, Vec3::new(3000, 1000, 500));
}

#[test]
fn sat_add_saturates_at_the_limits() {
    assert_eq!(sat_add(i64::MAX, 1), i64::MAX);
    assert_eq!(sat_add(i64::MIN, -1), i64::MIN);
    assert_eq!(sat_add(40, 2), 42);
    assert_eq!(sat_add(-40, 2), -38);
}

#[test]
fn fixed_mul_rescales_and_truncates_toward_zero() {
    assert_eq!(fixed_mul(2000, 1500), 3000);
    assert_eq!(fixed_mul(-2000, 1500), -3000);
    assert_eq!(fixed_mul(1, 1), 0);
    assert_eq!(fixed_mul(-1, 1), 0);
    assert_eq!(fixed_mul(999, 1), 0);
    assert_eq!(fixed_mul(i64::MAX, i64::MAX), i64::MAX);
    assert_eq!(fixed_mul(i64::MIN, i64::MAX), i64::MIN);
}

#[test]
fn vector_addition_is_componentwise() {
    let a = Vec3::new(1, 2, 3);
    let b = Vec3::new(10, 20, 30);
    assert_eq!(a.add(b), Vec3::new(11, 22, 33));
    assert_eq!(a.mul(Vec3::new(1000, 1000, 1000)), a);
}

#[test]
fn zero_vector_is_the_additive_unit() {
    let z = Vec3::zero();
    assert_eq!(z, Vec3::new(0, 0, 0));
    let v = Vec3::new(4, 5, 6);
    assert_eq!(v.add(z), v);
}
