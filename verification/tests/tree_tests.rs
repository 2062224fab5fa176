use projectbaldej::objects::{apply_sync_in, find_in, move_object_in, EmptyObject};
use projectbaldej::physics::{ObjectBodyParameters, RenderColliderType};
use projectbaldej::systems::System;
use projectbaldej::test_system::TestSystem;
use projectbaldej::transform::{Transform, Vec3};

fn named_at(name: &str, x: i64, y: i64, z: i64) -> EmptyObject {
    let mut o = EmptyObject::new(name);
    let mut t = Transform::default();
    t.position = Vec3::new(x, y, z);
    o.set_local_transform(t);
    o
}

fn trees_equal(a: &EmptyObject, b: &EmptyObject) -> bool {
    if a.get_name() != b.get_name() {
        return false;
    }
    if a.get_local_transform() != b.get_local_transform() {
        return false;
    }
    if a.get_parent_transform() != b.get_parent_transform() {
        return false;
    }
    let ca = a.get_children_list();
    let cb = b.get_children_list();
    if ca.len() != cb.len() {
        return false;
    }
    for i in 0..ca.len() {
        if !trees_equal(&ca[i], &cb[i]) {
            return false;
        }
    }
    true
}

#[test]
fn find_object_returns_first_match_depth_first() {
    // Two entities named "controller" at different depths: the first root's
    // child comes before the later root in self-before-children order.
    let mut sys = TestSystem::new();
    let mut first_root = named_at("anchor", 0, 0, 0);
    first_root.add_child(named_at("controller", 1000, 0, 0));
    let later_root = named_at("controller", 2000, 0, 0);
    sys.objects.push(first_root);
    sys.objects.push(later_root);

    let found = sys.find_object("controller").unwrap();
    assert_eq!(found.get_local_transform().position, Vec3::new(1000, 0, 0));
}

#[test]
fn find_object_misses_unknown_names() {
    let mut sys = TestSystem::new();
    sys.objects.push(named_at("anchor", 0, 0, 0));
    assert!(sys.find_object("ghost").is_none());
    assert!(find_in(&sys.objects, "ghost").is_none());
}

#[test]
fn transform_pass_composes_parent_and_child() {
    let mut sys = TestSystem::new();
    let mut root = named_at("root", 1000, 2000, 0);
    let mut mid = named_at("mid", 100, 0, 0);
    mid.add_child(named_at("leaf", 10, 0, 0));
    root.add_child(mid);
    sys.objects.push(root);

    sys.update_objects();

    let leaf = sys.find_object("leaf").unwrap();
    let parent_world = leaf.get_parent_transform().unwrap();
    assert_eq!(parent_world.position, Vec3::new(1100, 2000, 0));
    let leaf_world = leaf.get_local_transform().compose_with(parent_world);
    assert_eq!(leaf_world.position, Vec3::new(1110, 2000, 0));
}

#[test]
fn transform_pass_multiplies_scales_down_the_chain() {
    let mut sys = TestSystem::new();
    let mut root = named_at("root", 0, 0, 0);
    let mut rt = root.get_local_transform();
    rt.scale = Vec3::new(2000, 2000, 2000);
    root.set_local_transform(rt);
    root.add_child(named_at("leaf", 0, 0, 0));
    sys.objects.push(root);

    sys.update_objects();

    let leaf = sys.find_object("leaf").unwrap();
    let world = leaf.get_local_transform().compose_with(leaf.get_parent_transform().unwrap());
    assert_eq!(world.scale, Vec3::new(2000, 2000, 2000));
}

#[test]
fn render_collider_tracks_world_transform() {
    let mut sys = TestSystem::new();
    let mut o = named_at("ghost_box", 3000, 4000, 5000);
    let mut params = ObjectBodyParameters::empty();
    params.set_render_collider(Some(RenderColliderType::Cuboid(None, None, 500, 500, 500, false)));
    o.set_body_parameters(Some(params));
    sys.objects.push(o);

    sys.update_objects();

    let o = sys.find_object("ghost_box").unwrap();
    match o.get_body_parameters().unwrap().render_collider_type.unwrap() {
        RenderColliderType::Cuboid(pos, rot, _, _, _, _) => {
            assert_eq!(pos, Some(Vec3::new(3000, 4000, 5000)));
            assert_eq!(rot, Some(Vec3::new(0, 0, 0)));
        },
        _ => panic!("unexpected descriptor"),
    }
}

#[test]
fn sync_application_is_idempotent() {
    let build = || {
        let mut root = named_at("anchor", 0, 0, 0);
        root.add_child(named_at("knife", 1, 2, 3));
        vec![root, named_at("other", 9, 9, 9)]
    };
    let mut once = build();
    let mut twice = build();
    let mut payload = Transform::default();
    payload.position = Vec3::new(7000, 8000, 9000);

    assert!(apply_sync_in(&mut once, "knife", payload));
    assert!(apply_sync_in(&mut twice, "knife", payload));
    assert!(apply_sync_in(&mut twice, "knife", payload));

    assert_eq!(once.len(), twice.len());
    for i in 0..once.len() {
        assert!(trees_equal(&once[i], &twice[i]));
    }
    let found = find_in(&once, "knife").unwrap();
    assert_eq!(found.get_local_transform(), payload);
}

#[test]
fn sync_application_misses_leave_the_tree_alone() {
    let mut objs = vec![named_at("anchor", 1, 2, 3)];
    let payload = Transform::default();
    assert!(!apply_sync_in(&mut objs, "ghost", payload));
    assert_eq!(objs[0].get_local_transform().position, Vec3::new(1, 2, 3));
}

#[test]
fn moving_the_controller_shifts_its_local_position() {
    // An entity at (45, 10, 30) moved by (0, -1, 0) ends at (45, 9, 30).
    let mut sys = TestSystem::new();
    sys.objects.push(named_at("controller", 45000, 10000, 30000));
    sys.move_controller(Vec3::new(0, -1000, 0));
    let c = sys.find_object("controller").unwrap();
    assert_eq!(c.get_local_transform().position, Vec3::new(45000, 9000, 30000));
}

#[test]
fn moving_a_missing_controller_changes_nothing() {
    let mut objs = vec![named_at("anchor", 1, 1, 1)];
    assert!(!move_object_in(&mut objs, "controller", Vec3::new(5, 5, 5)));
    assert_eq!(objs[0].get_local_transform().position, Vec3::new(1, 1, 1));
}

#[test]
fn entity_accessors_round_trip() {
    let mut o = EmptyObject::new("thing");
    assert_eq!(o.get_name(), "thing");
    assert_eq!(o.get_object_type(), "EmptyObject");
    o.set_name("renamed");
    assert_eq!(o.get_name(), "renamed");
    let mut t = Transform::default();
    t.position = Vec3::new(1, 2, 3);
    o.set_local_transform(t);
    assert_eq!(o.get_local_transform(), t);
    assert!(o.get_parent_transform().is_none());
    o.set_parent_transform(t);
    assert_eq!(o.get_parent_transform(), Some(t));
    assert!(o.call("test", vec!["argument"]).is_none());
}

#[test]
fn find_object_mut_edits_only_the_first_match() {
    let mut sys = TestSystem::new();
    let mut root = named_at("anchor", 0, 0, 0);
    root.add_child(named_at("target", 1, 1, 1));
    sys.objects.push(root);
    sys.objects.push(named_at("target", 2, 2, 2));

    let mut t = Transform::default();
    t.position = Vec3::new(500, 500, 500);
    {
        let found = sys.find_object_mut("target").unwrap();
        assert_eq!(found.get_local_transform().position, Vec3::new(1, 1, 1));
        found.set_local_transform(t);
    }
    // The deep first match changed; the later root kept its transform.
    assert_eq!(sys.find_object("target").unwrap().get_local_transform(), t);
    assert_eq!(sys.objects[1].get_local_transform().position, Vec3::new(2, 2, 2));
    assert!(sys.find_object_mut("ghost").is_none());
}
