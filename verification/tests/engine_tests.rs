use projectbaldej::framework::{
    frame_wait_time, get_debug_mode, get_delta_time, get_fps, set_audio_listener_transformations,
    update_game, DebugMode, EngineContext, GameSettings,
};
use projectbaldej::game_main;
use projectbaldej::networking::{
    Message, MessageContents, MessageReceiver, NetworkingMode, SyncObjectMessage,
};
use projectbaldej::physics::{
    get_body_position, new_rigid_body, BodyColliderType, BodyType, PhysicsWorld,
};
use projectbaldej::systems::{IdentityRegistry, InputState, System};
use projectbaldej::test_system::TestSystem;
use projectbaldej::transform::Vec3;

const IDLE_INPUT: InputState =
    InputState { forward: false, backwards: false, left: false, right: false };

#[test]
fn fps_is_reported_after_a_full_second() {
    assert_eq!(get_fps(500, &42), None);
    assert_eq!(get_fps(1000, &42), None);
    assert_eq!(get_fps(1001, &42), Some(42));
}

#[test]
fn frame_wait_fills_the_tick_budget() {
    assert_eq!(frame_wait_time(10, 16), Some(6));
    assert_eq!(frame_wait_time(16, 16), None);
    assert_eq!(frame_wait_time(30, 16), None);
    assert_eq!(frame_wait_time(0, 16), Some(16));
}

#[test]
fn debug_toggle_flips_between_off_and_fps() {
    let mut mode = DebugMode::Off;
    game_main::update(false, &mut mode);
    assert_eq!(mode, DebugMode::Off);
    game_main::update(true, &mut mode);
    assert_eq!(mode, DebugMode::ShowFps);
    game_main::update(true, &mut mode);
    assert_eq!(mode, DebugMode::Off);
    let mut full = DebugMode::Full;
    game_main::update(true, &mut full);
    assert_eq!(full, DebugMode::Off);
}

#[test]
fn update_game_runs_one_tick() {
    let mut ctx: EngineContext<TestSystem> = EngineContext::new(NetworkingMode::Server, true);
    let mut sys = TestSystem::new();
    sys.server_start(&mut ctx.physics, &mut ctx.identity);
    ctx.systems.add_system(sys);

    update_game(&mut ctx, 16, vec![], &IDLE_INPUT, true);

    assert_eq!(get_delta_time(&ctx), 16);
    assert_eq!(get_debug_mode(&ctx), DebugMode::ShowFps);
    assert_eq!(ctx.physics.step_count(), 1);
    // The server tick moved the controller one unit down from (45, 10, 30).
    let c = ctx.systems.systems[0].find_object("controller").unwrap();
    assert_eq!(c.get_local_transform().position, Vec3::new(45000, 9000, 30000));
}

#[test]
fn destroyed_systems_are_not_ticked() {
    let mut ctx: EngineContext<TestSystem> = EngineContext::new(NetworkingMode::Server, true);
    let mut sys = TestSystem::new();
    let mut obj = projectbaldej::objects::EmptyObject::new("controller");
    obj.set_local_transform(projectbaldej::transform::Transform::default());
    sys.objects.push(obj);
    sys.destroy_system();
    assert!(sys.is_destroyed());
    ctx.systems.add_system(sys);

    update_game(&mut ctx, 16, vec![], &IDLE_INPUT, false);

    // An active system's server tick would have moved the controller.
    let c = ctx.systems.systems[0].find_object("controller").unwrap();
    assert_eq!(c.get_local_transform().position, Vec3::new(0, 0, 0));
}

#[test]
fn audio_listener_follows_the_camera() {
    let mut ctx: EngineContext<TestSystem> = EngineContext::new(NetworkingMode::Client, false);
    set_audio_listener_transformations(&mut ctx, Vec3::new(1, 2, 3), Vec3::new(4, 5, 6));
    assert_eq!(ctx.listener_position, Vec3::new(1, 2, 3));
    assert_eq!(ctx.listener_rotation, Vec3::new(4, 5, 6));
}

#[test]
fn identity_registry_tracks_owner_and_name() {
    let mut registry = IdentityRegistry::new();
    let mut sys = TestSystem::new();
    let obj = projectbaldej::objects::EmptyObject::new("hero");
    sys.add_object(&mut registry, obj);

    let id = sys.objects[0].get_id().value;
    assert_eq!(id, 1);
    assert_eq!(registry.lookup_system(id).unwrap(), "TestSystem");
    assert_eq!(registry.lookup_name(id).unwrap(), "hero");
    assert!(registry.lookup_name(99).is_none());

    registry.unregister_object_id(id);
    assert!(registry.lookup_system(id).is_none());
    assert!(registry.lookup_name(id).is_none());
}

#[test]
fn fresh_identifiers_increase() {
    let mut registry = IdentityRegistry::new();
    assert_eq!(registry.fresh_id(), 1);
    assert_eq!(registry.fresh_id(), 2);
    assert_eq!(registry.fresh_id(), 3);
}

#[test]
fn add_object_starts_entities_in_insertion_order() {
    let mut registry = IdentityRegistry::new();
    let mut sys = TestSystem::new();
    sys.add_object(&mut registry, projectbaldej::objects::EmptyObject::new("first"));
    sys.add_object(&mut registry, projectbaldej::objects::EmptyObject::new("second"));
    assert_eq!(sys.objects.len(), 2);
    assert_eq!(sys.objects[0].get_name(), "first");
    assert_eq!(sys.objects[1].get_name(), "second");
    assert_eq!(sys.objects[0].get_id().value, 1);
    assert_eq!(sys.objects[1].get_id().value, 2);
}

#[test]
fn server_start_builds_the_three_entities() {
    let mut ctx: EngineContext<TestSystem> = EngineContext::new(NetworkingMode::Server, true);
    let mut sys = TestSystem::new();
    sys.server_start(&mut ctx.physics, &mut ctx.identity);
    assert_eq!(sys.objects.len(), 3);
    assert_eq!(sys.objects[0].get_name(), "controller");
    assert_eq!(sys.objects[1].get_name(), "knife_model");
    assert_eq!(sys.objects[2].get_name(), "ground_collider");
    for o in &sys.objects {
        let params = o.get_body_parameters().unwrap();
        assert!(params.rigid_body_handle.is_some());
    }
    assert_eq!(
        sys.objects[0].get_local_transform().position,
        Vec3::new(45000, 10000, 30000)
    );
}

#[test]
fn client_start_uses_render_only_colliders() {
    let mut ctx: EngineContext<TestSystem> = EngineContext::new(NetworkingMode::Client, true);
    let mut sys = TestSystem::new();
    sys.client_start(&mut ctx.physics, &mut ctx.identity);
    assert_eq!(sys.objects.len(), 3);
    let knife = sys.objects[1].get_body_parameters().unwrap();
    assert!(knife.rigid_body_handle.is_none());
    assert!(knife.render_collider_type.is_some());
}

#[test]
fn settings_hold_their_values() {
    let settings = GameSettings { master_volume: 7, shadowmap_size: 2048 };
    assert_eq!(settings.master_volume, 7);
    assert_eq!(settings.shadowmap_size, 2048);
}

#[test]
fn system_call_hooks_answer_nothing() {
    let mut sys = TestSystem::new();
    sys.call("anything");
    sys.call_mut("anything");
    let list = sys.call_list();
    assert!(list.immut_call.is_empty());
    assert!(list.mut_call.is_empty());
    assert!(sys.call_with_args("anything", vec!["arg".to_owned()]).is_none());
    assert_eq!(sys.system_id(), "TestSystem");
}

#[test]
fn removing_an_entity_cleans_bodies_and_identity_entries() {
    let mut registry = IdentityRegistry::new();
    let mut physics = PhysicsWorld::new();
    let mut sys = TestSystem::new();
    let mut parent = projectbaldej::objects::EmptyObject::new("parent");
    let parent_body = new_rigid_body(
        &mut physics,
        BodyType::Dynamic(Some(BodyColliderType::Ball(500))),
        None,
        1000,
        0,
        None,
        None,
    );
    parent.set_body_parameters(Some(parent_body));
    let mut child = projectbaldej::objects::EmptyObject::new("child");
    let child_body = new_rigid_body(
        &mut physics,
        BodyType::Dynamic(Some(BodyColliderType::Ball(250))),
        None,
        1000,
        0,
        None,
        None,
    );
    child.set_body_parameters(Some(child_body));
    parent.add_child(child);
    sys.add_object(&mut registry, parent);
    let parent_id = sys.objects[0].get_id().value;

    assert!(sys.remove_object("parent", &mut registry, &mut physics));
    assert!(sys.objects.is_empty());
    assert!(registry.lookup_name(parent_id).is_none());
    assert!(registry.lookup_system(parent_id).is_none());
    // Both the parent's and the child's bodies are gone from the world.
    assert_eq!(get_body_position(&physics, parent_body), None);
    assert_eq!(get_body_position(&physics, child_body), None);
}

#[test]
fn removing_a_missing_entity_reports_false() {
    let mut registry = IdentityRegistry::new();
    let mut physics = projectbaldej::physics::PhysicsWorld::new();
    let mut sys = TestSystem::new();
    sys.add_object(&mut registry, projectbaldej::objects::EmptyObject::new("keeper"));
    assert!(!sys.remove_object("ghost", &mut registry, &mut physics));
    assert_eq!(sys.objects.len(), 1);
}

#[test]
fn render_pass_leaves_the_trees_unchanged() {
    let mut ctx: EngineContext<TestSystem> = EngineContext::new(NetworkingMode::Client, true);
    let mut sys = TestSystem::new();
    sys.client_start(&mut ctx.physics, &mut ctx.identity);
    ctx.systems.add_system(sys);
    let before = ctx.systems.systems[0].objects.len();
    projectbaldej::framework::render_game(&mut ctx);
    assert_eq!(ctx.systems.systems[0].objects.len(), before);
    assert_eq!(
        ctx.systems.systems[0].objects[0].get_name(),
        "controller"
    );
}

#[test]
fn inbound_sync_is_applied_during_the_tick() {
    let mut ctx: EngineContext<TestSystem> = EngineContext::new(NetworkingMode::Server, true);
    let mut sys = TestSystem::new();
    let knife = projectbaldej::objects::EmptyObject::new("knife_model");
    sys.add_object(&mut ctx.identity, knife);
    ctx.systems.add_system(sys);

    let mut payload = projectbaldej::transform::Transform::default();
    payload.position = Vec3::new(7000, 8000, 9000);
    let inbound = vec![Message {
        receiver: MessageReceiver::Everybody,
        system_id: "TestSystem".to_owned(),
        message_id: "sync_knife".to_owned(),
        message: MessageContents::SyncObject(SyncObjectMessage {
            object_name: "knife_model".to_owned(),
            transform: payload,
        }),
    }];
    update_game(&mut ctx, 16, inbound, &IDLE_INPUT, false);

    let knife = ctx.systems.systems[0].find_object("knife_model").unwrap();
    assert_eq!(knife.get_local_transform(), payload);
}
