use projectbaldej::networking::{
    Message, MessageContents, MessageReceiver, MessageReliability, NetworkError, NetworkingMode,
    ReplicationChannel, SyncObjectMessage,
};
use projectbaldej::systems::{InputState, System, SystemRegistry};
use projectbaldej::test_system::TestSystem;
use projectbaldej::transform::{Transform, Vec3};
use projectbaldej::objects::EmptyObject;

fn sync_message(message_id: &str, object_name: &str, transform: Transform) -> Message {
    Message {
        receiver: MessageReceiver::Everybody,
        system_id: "TestSystem".to_owned(),
        message_id: message_id.to_owned(),
        message: MessageContents::SyncObject(SyncObjectMessage {
            object_name: object_name.to_owned(),
            transform,
        }),
    }
}

fn move_message(direction: &str) -> Message {
    Message {
        receiver: MessageReceiver::Everybody,
        system_id: "TestSystem".to_owned(),
        message_id: "move_controller".to_owned(),
        message: MessageContents::Custom(direction.to_owned()),
    }
}

fn transform_at(x: i64, y: i64, z: i64) -> Transform {
    let mut t = Transform::default();
    t.position = Vec3::new(x, y, z);
    t
}

fn named_at(name: &str, x: i64, y: i64, z: i64) -> EmptyObject {
    let mut o = EmptyObject::new(name);
    o.set_local_transform(transform_at(x, y, z));
    o
}

#[test]
fn reliable_sends_keep_their_order() {
    let mut channel = ReplicationChannel::new(NetworkingMode::Server, true);
    assert!(channel.send_message(MessageReliability::Reliable, move_message("forward")).is_ok());
    assert!(channel.send_message(MessageReliability::Reliable, move_message("left")).is_ok());
    let out = channel.take_outgoing_reliable();
    assert_eq!(out.len(), 2);
    assert!(matches!(&out[0].message, MessageContents::Custom(c) if c == "forward"));
    assert!(matches!(&out[1].message, MessageContents::Custom(c) if c == "left"));
    assert!(channel.take_outgoing_reliable().is_empty());
}

#[test]
fn unreliable_send_never_errors_for_want_of_an_acknowledgement() {
    let mut channel = ReplicationChannel::new(NetworkingMode::Server, true);
    for _ in 0..100 {
        let r = channel.send_message(MessageReliability::Unreliable, move_message("forward"));
        assert!(r.is_ok());
    }
    let out = channel.take_outgoing_unreliable();
    assert_eq!(out.len(), 100);
}

#[test]
fn sends_without_a_connection_report_the_error() {
    let mut channel = ReplicationChannel::new(NetworkingMode::Client, false);
    let r = channel.send_message(MessageReliability::Reliable, move_message("forward"));
    assert_eq!(r, Err(NetworkError::ConnectionAbsent));
    let r = channel.send_message(MessageReliability::Unreliable, move_message("forward"));
    assert_eq!(r, Err(NetworkError::ConnectionAbsent));
    assert!(channel.take_outgoing_reliable().is_empty());
    assert!(channel.take_outgoing_unreliable().is_empty());
}

#[test]
fn reliability_classes_use_separate_queues() {
    let mut channel = ReplicationChannel::new(NetworkingMode::Server, true);
    channel.send_message(MessageReliability::Reliable, move_message("forward")).unwrap();
    channel.send_message(MessageReliability::Unreliable, move_message("left")).unwrap();
    assert_eq!(channel.take_outgoing_reliable().len(), 1);
    assert_eq!(channel.take_outgoing_unreliable().len(), 1);
}

#[test]
fn two_reliable_syncs_apply_in_send_order() {
    // Send two reliable state syncs for the same entity; after in-order
    // dispatch the entity carries the transform of the second one.
    let mut sys = TestSystem::new();
    sys.objects.push(named_at("knife", 0, 0, 0));
    let mut registry: SystemRegistry<TestSystem> = SystemRegistry::new();
    registry.add_system(sys);

    let t1 = transform_at(1000, 1000, 1000);
    let t2 = transform_at(2000, 2000, 2000);
    let mut channel = ReplicationChannel::new(NetworkingMode::Server, true);
    channel.send_message(MessageReliability::Reliable, sync_message("sync_knife", "knife", t1)).unwrap();
    channel.send_message(MessageReliability::Reliable, sync_message("sync_knife", "knife", t2)).unwrap();

    let wire = channel.take_outgoing_reliable();
    registry.dispatch_all(wire);

    let sys = &registry.systems[0];
    let knife = sys.find_object("knife").unwrap();
    assert_eq!(knife.get_local_transform(), t2);
}

#[test]
fn sync_overwrites_unconditionally_and_twice_is_once() {
    let mut sys = TestSystem::new();
    sys.objects.push(named_at("knife", 5, 5, 5));
    let payload = transform_at(7000, 0, 0);
    sys.reg_message(sync_message("sync_knife", "knife", payload));
    assert_eq!(sys.find_object("knife").unwrap().get_local_transform(), payload);
    sys.reg_message(sync_message("sync_knife", "knife", payload));
    assert_eq!(sys.find_object("knife").unwrap().get_local_transform(), payload);
}

#[test]
fn custom_move_commands_steer_the_controller() {
    let mut sys = TestSystem::new();
    sys.objects.push(named_at("controller", 0, 0, 0));
    sys.reg_message(move_message("forward"));
    assert_eq!(
        sys.find_object("controller").unwrap().get_local_transform().position,
        Vec3::new(0, 0, 10)
    );
    sys.reg_message(move_message("left"));
    assert_eq!(
        sys.find_object("controller").unwrap().get_local_transform().position,
        Vec3::new(-10, 0, 10)
    );
    sys.reg_message(move_message("sideways"));
    assert_eq!(
        sys.find_object("controller").unwrap().get_local_transform().position,
        Vec3::new(-10, 0, 10)
    );
}

#[test]
fn dispatch_misses_unknown_systems() {
    let mut registry: SystemRegistry<TestSystem> = SystemRegistry::new();
    registry.add_system(TestSystem::new());
    let mut msg = move_message("forward");
    msg.system_id = "NoSuchSystem".to_owned();
    assert!(!registry.dispatch_message(msg));
    assert!(registry.dispatch_message(move_message("forward")));
}

#[test]
fn client_update_emits_move_commands_in_fixed_order() {
    let mut sys = TestSystem::new();
    let mut physics = projectbaldej::physics::PhysicsWorld::new();
    let mut channel = ReplicationChannel::new(NetworkingMode::Client, true);
    let input = InputState { forward: true, backwards: false, left: true, right: true };
    sys.client_update(&mut physics, &mut channel, &input);
    let out = channel.take_outgoing_reliable();
    assert_eq!(out.len(), 3);
    assert!(matches!(&out[0].message, MessageContents::Custom(c) if c == "forward"));
    assert!(matches!(&out[1].message, MessageContents::Custom(c) if c == "left"));
    assert!(matches!(&out[2].message, MessageContents::Custom(c) if c == "right"));
    for m in &out {
        assert_eq!(m.message_id, "move_controller");
        assert_eq!(m.system_id, "TestSystem");
    }
}

#[test]
fn server_update_publishes_knife_and_controller_state() {
    let mut sys = TestSystem::new();
    sys.objects.push(named_at("knife_model", 5000, 6000, 6000));
    sys.objects.push(named_at("controller", 45000, 10000, 30000));
    let mut physics = projectbaldej::physics::PhysicsWorld::new();
    let mut channel = ReplicationChannel::new(NetworkingMode::Server, true);

    sys.server_update(&mut physics, &mut channel);

    let reliable = channel.take_outgoing_reliable();
    assert_eq!(reliable.len(), 1);
    assert_eq!(reliable[0].message_id, "sync_knife");
    assert!(matches!(
        &reliable[0].message,
        MessageContents::SyncObject(s)
            if s.object_name == "knife_model" && s.transform.position == Vec3::new(5000, 6000, 6000)
    ));

    // The controller stepped down by one unit before its state went out.
    let unreliable = channel.take_outgoing_unreliable();
    assert_eq!(unreliable.len(), 1);
    assert_eq!(unreliable[0].message_id, "sync_controller");
    assert!(matches!(
        &unreliable[0].message,
        MessageContents::SyncObject(s)
            if s.object_name == "controller"
                && s.transform.position == Vec3::new(45000, 9000, 30000)
    ));
    assert_eq!(
        sys.find_object("controller").unwrap().get_local_transform().position,
        Vec3::new(45000, 9000, 30000)
    );
}

#[test]
fn only_the_first_matching_system_receives() {
    let mut first = TestSystem::new();
    first.objects.push(named_at("knife", 1, 1, 1));
    let mut second = TestSystem::new();
    second.objects.push(named_at("knife", 2, 2, 2));
    let mut registry: SystemRegistry<TestSystem> = SystemRegistry::new();
    registry.add_system(first);
    registry.add_system(second);

    let payload = transform_at(9000, 9000, 9000);
    assert!(registry.dispatch_message(sync_message("sync_knife", "knife", payload)));

    assert_eq!(
        registry.systems[0].find_object("knife").unwrap().get_local_transform(),
        payload
    );
    assert_eq!(
        registry.systems[1].find_object("knife").unwrap().get_local_transform().position,
        Vec3::new(2, 2, 2)
    );
}
