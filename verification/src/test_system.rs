//! A concrete system: a few named entities, periodic state sync of the
//! knife entity, and keyboard-driven movement of the controller entity.

use vstd::prelude::*;
use crate::networking::{
    Message, MessageContents, MessageReceiver, MessageReliability, ReplicationChannel,
    SyncObjectMessage,
};
use crate::objects::{
    apply_sync_in, move_object_in, spec_apply_sync, spec_find, spec_moved_transform, EmptyObject,
    ObjectModel,
};
use crate::physics::{
    new_rigid_body, BodyColliderType, BodyType, ObjectBodyParameters, PhysicsWorld,
    RenderColliderType,
};
use crate::systems::{CallList, IdentityRegistry, InputState, System};
use crate::transform::{Transform, Vec3};

verus! {

/// The example gameplay system.
pub struct TestSystem {
    pub is_destroyed: bool,
    pub objects: Vec<EmptyObject>,
}

impl TestSystem {
    /// A fresh system with no entities.
    pub fn new() -> (r: TestSystem)
        ensures
            !r.is_destroyed,
            r.objects@ == Seq::<EmptyObject>::empty(),
    {
        TestSystem { is_destroyed: false, objects: vec![] }
    }
}

/// The movement delta a custom move command stands for, in milli-units.
pub open spec fn spec_move_delta(contents: Seq<char>) -> Option<Vec3> {
    if contents == "forward"@ {
        Some(Vec3 { x: 0, y: 0, z: 10 })
    } else if contents == "backwards"@ {
        Some(Vec3 { x: 0, y: 0, z: (-10) as i64 })
    } else if contents == "right"@ {
        Some(Vec3 { x: 10, y: 0, z: 0 })
    } else if contents == "left"@ {
        Some(Vec3 { x: (-10) as i64, y: 0, z: 0 })
    } else {
        None
    }
}

/// The trees after the first entity named `controller` is moved by `delta`.
pub open spec fn spec_controller_moved(objects: Seq<ObjectModel>, delta: Vec3) -> Seq<ObjectModel> {
    match spec_find(objects, "controller"@) {
        Some(c) => spec_apply_sync(
            objects,
            "controller"@,
            spec_moved_transform(c.local, delta),
        ),
        None => objects,
    }
}

/// How this system applies one inbound message: a state-sync payload
/// overwrites the named entity's local transform unconditionally; a custom
/// move command shifts the controller.
pub open spec fn spec_test_system_reg(
    objects: Seq<ObjectModel>,
    message: Message,
) -> Seq<ObjectModel> {
    match message.message {
        MessageContents::SyncObject(sync) => spec_apply_sync(
            objects,
            sync.object_name@,
            sync.transform,
        ),
        MessageContents::Custom(contents) => if message.message_id@ == "move_controller"@ {
            match spec_move_delta(contents@) {
                Some(delta) => spec_controller_moved(objects, delta),
                None => objects,
            }
        } else {
            objects
        },
    }
}

/// True of a queued message carrying a state-sync payload with the given
/// addressing, name and transform.
pub open spec fn spec_is_sync_message(
    m: Message,
    system_id: Seq<char>,
    message_id: Seq<char>,
    object_name: Seq<char>,
    transform: Transform,
) -> bool {
    &&& m.receiver == MessageReceiver::Everybody
    &&& m.system_id@ == system_id
    &&& m.message_id@ == message_id
    &&& m.message matches MessageContents::SyncObject(s) && s.object_name@ == object_name
        && s.transform == transform
}

/// True of a queued custom move command for the controller.
pub open spec fn spec_is_move_message(m: Message, direction: Seq<char>) -> bool {
    &&& m.receiver == MessageReceiver::Everybody
    &&& m.system_id@ == "TestSystem"@
    &&& m.message_id@ == "move_controller"@
    &&& m.message matches MessageContents::Custom(c) && c@ == direction
}

/// Applying one identical state-sync payload twice leaves the trees exactly
/// as one application does.
pub proof fn lemma_sync_message_idempotent(objects: Seq<ObjectModel>, message: Message)
    requires
        message.message is SyncObject,
    ensures
        spec_test_system_reg(spec_test_system_reg(objects, message), message)
            == spec_test_system_reg(objects, message),
{
    match message.message {
        MessageContents::SyncObject(sync) => {
            crate::objects::lemma_sync_idempotent(objects, sync.object_name@, sync.transform);
        },
        MessageContents::Custom(_) => {},
    }
}

impl TestSystem {
    /// Moves the controller entity by a local-position delta.
    pub fn move_controller(&mut self, direction: Vec3)
        ensures
            final(self).objects_model() == spec_controller_moved(
                old(self).objects_model(),
                direction,
            ),
            final(self).is_destroyed == old(self).is_destroyed,
    {
        let _ = move_object_in(&mut self.objects, "controller", direction);
    }
}

impl System for TestSystem {
    open spec fn objects_model(&self) -> Seq<ObjectModel> {
        EmptyObject::models(self.objects@)
    }

    open spec fn destroyed_spec(&self) -> bool {
        self.is_destroyed
    }

    open spec fn id_spec(&self) -> Seq<char> {
        "TestSystem"@
    }

    open spec fn reg_message_model(objects: Seq<ObjectModel>, message: Message) -> Seq<
        ObjectModel,
    > {
        spec_test_system_reg(objects, message)
    }

    fn objects_list(&self) -> (r: &Vec<EmptyObject>) {
        &self.objects
    }

    fn objects_list_mut(&mut self) -> (r: &mut Vec<EmptyObject>) {
        &mut self.objects
    }

    fn system_id(&self) -> (r: &str) {
        "TestSystem"
    }

    fn is_destroyed(&self) -> (r: bool) {
        self.is_destroyed
    }

    fn set_destroyed(&mut self, is_destroyed: bool) {
        self.is_destroyed = is_destroyed;
    }

    fn call(&self, call_id: &str) {
        let _ = call_id;
    }

    fn call_mut(&mut self, call_id: &str) {
        let _ = call_id;
    }

    fn call_list(&self) -> CallList {
        CallList { immut_call: vec![], mut_call: vec![] }
    }

    /// A state-sync payload overwrites the named entity's local transform;
    /// a custom move command shifts the controller.
    fn reg_message(&mut self, message: Message) {
        let ghost msg = message;
        let Message { receiver: _, system_id: _, message_id, message: contents } = message;
        match contents {
            MessageContents::SyncObject(sync_msg) => {
                let _ = apply_sync_in(
                    &mut self.objects,
                    sync_msg.object_name.as_str(),
                    sync_msg.transform,
                );
            },
            MessageContents::Custom(contents) => {
                let move_id: String = "move_controller".to_owned();
                if message_id == move_id {
                    let fw: String = "forward".to_owned();
                    let bw: String = "backwards".to_owned();
                    let rt: String = "right".to_owned();
                    let lf: String = "left".to_owned();
                    if contents == fw {
                        self.move_controller(Vec3 { x: 0, y: 0, z: 10 });
                    } else if contents == bw {
                        self.move_controller(Vec3 { x: 0, y: 0, z: -10 });
                    } else if contents == rt {
                        self.move_controller(Vec3 { x: 10, y: 0, z: 0 });
                    } else if contents == lf {
                        self.move_controller(Vec3 { x: -10, y: 0, z: 0 });
                    }
                }
            },
        }
    }

    /// Creates the server-side entities: the physics-driven controller,
    /// knife and ground.
    fn server_start(&mut self, physics: &mut PhysicsWorld, registry: &mut IdentityRegistry)
        ensures
            final(self).objects_model().len() == old(self).objects_model().len() + 3,
            final(self).objects_model()[old(self).objects_model().len() as int].name
                == "controller"@,
            final(self).objects_model()[old(self).objects_model().len() as int + 1].name
                == "knife_model"@,
            final(self).objects_model()[old(self).objects_model().len() as int + 2].name
                == "ground_collider"@,
            final(self).objects_model()[old(self).objects_model().len() as int].local.position
                == (Vec3 { x: 45000, y: 10000, z: 30000 }),
            final(self).objects_model()[old(self).objects_model().len() as int + 1].local.position
                == (Vec3 { x: 5000, y: 6000, z: 6000 }),
            final(self).objects_model()[old(self).objects_model().len() as int + 2].local.position
                == (Vec3 { x: 0, y: (-2000) as i64, z: 0 }),
            final(self).objects_model()[old(self).objects_model().len() as int].body is Some,
            final(self).objects_model()[old(self).objects_model().len() as int + 1].body is Some,
            final(self).objects_model()[old(self).objects_model().len() as int + 2].body is Some,
            final(self).is_destroyed == old(self).is_destroyed,
    {
        let mut controller = EmptyObject::new("controller");
        let mut t = Transform::default();
        t.position = Vec3::new(45000, 10000, 30000);
        controller.set_local_transform(t);
        let controller_body = new_rigid_body(
            physics,
            BodyType::PositionKinematic(Some(BodyColliderType::Capsule(1000, 4000))),
            Some(t),
            1000,
            0,
            None,
            None,
        );
        controller.set_body_parameters(Some(controller_body));

        let mut knife_model = EmptyObject::new("knife_model");
        let mut kt = Transform::default();
        kt.position = Vec3::new(5000, 6000, 6000);
        knife_model.set_local_transform(kt);
        let knife_body = new_rigid_body(
            physics,
            BodyType::Dynamic(Some(BodyColliderType::Cuboid(200, 2000, 200))),
            Some(kt),
            1000,
            0,
            None,
            None,
        );
        knife_model.set_body_parameters(Some(knife_body));

        let mut ground_collider = EmptyObject::new("ground_collider");
        let mut gt = Transform::default();
        gt.position = Vec3::new(0, -2000, 0);
        ground_collider.set_local_transform(gt);
        let ghost mid = *physics;
        let ground_body = new_rigid_body(
            physics,
            BodyType::Fixed(Some(BodyColliderType::Cuboid(100000, 1000, 100000))),
            Some(gt),
            1000,
            0,
            None,
            None,
        );
        ground_collider.set_body_parameters(Some(ground_body));

        self.add_object(registry, controller);
        self.add_object(registry, knife_model);
        self.add_object(registry, ground_collider);
        proof {
            crate::physics::lemma_evolves_transitive(*old(physics), mid, *physics);
        }
    }

    /// Creates the client-side entities: the same three names, carrying
    /// render-only collider descriptors instead of live bodies.
    fn client_start(&mut self, physics: &mut PhysicsWorld, registry: &mut IdentityRegistry)
        ensures
            final(self).objects_model().len() == old(self).objects_model().len() + 3,
            final(self).objects_model()[old(self).objects_model().len() as int].name
                == "controller"@,
            final(self).objects_model()[old(self).objects_model().len() as int + 1].name
                == "knife_model"@,
            final(self).objects_model()[old(self).objects_model().len() as int + 2].name
                == "ground_collider"@,
            final(self).objects_model()[old(self).objects_model().len() as int].local.position
                == (Vec3 { x: 0, y: 1000, z: 0 }),
            final(self).objects_model()[old(self).objects_model().len() as int + 1].body
                == Some(ObjectBodyParameters {
                rigid_body_handle: None,
                collider_handle: None,
                render_collider_type: Some(
                    RenderColliderType::Cuboid(None, None, 200, 2000, 200, false),
                ),
            }),
            final(self).objects_model()[old(self).objects_model().len() as int + 2].body
                == Some(ObjectBodyParameters {
                rigid_body_handle: None,
                collider_handle: None,
                render_collider_type: Some(
                    RenderColliderType::Cuboid(None, None, 10000, 500, 10000, false),
                ),
            }),
            *final(physics) == *old(physics),
            final(self).is_destroyed == old(self).is_destroyed,
    {
        let mut controller = EmptyObject::new("controller");
        let mut t = Transform::default();
        t.position = Vec3::new(0, 1000, 0);
        controller.set_local_transform(t);

        let mut knife_model = EmptyObject::new("knife_model");
        let mut kt = Transform::default();
        kt.position = Vec3::new(5000, 6000, 6000);
        knife_model.set_local_transform(kt);
        let mut knife_params = ObjectBodyParameters::empty();
        knife_params.set_render_collider(
            Some(RenderColliderType::Cuboid(None, None, 200, 2000, 200, false)),
        );
        knife_model.set_body_parameters(Some(knife_params));

        let mut ground_collider = EmptyObject::new("ground_collider");
        let mut gt = Transform::default();
        gt.position = Vec3::new(0, -2000, 0);
        ground_collider.set_local_transform(gt);
        let mut ground_params = ObjectBodyParameters::empty();
        ground_params.set_render_collider(
            Some(RenderColliderType::Cuboid(None, None, 10000, 500, 10000, false)),
        );
        ground_collider.set_body_parameters(Some(ground_params));

        self.add_object(registry, controller);
        self.add_object(registry, knife_model);
        self.add_object(registry, ground_collider);
    }

    /// Publishes the knife's transform reliably, steps the controller down,
    /// then publishes the controller's transform best-effort.
    fn server_update(&mut self, physics: &mut PhysicsWorld, channel: &mut ReplicationChannel)
        ensures
            final(self).objects_model() == spec_controller_moved(
                old(self).objects_model(),
                Vec3 { x: 0, y: (-1000) as i64, z: 0 },
            ),
            final(self).is_destroyed == old(self).is_destroyed,
            final(channel).mode == old(channel).mode,
            final(channel).connected == old(channel).connected,
            old(channel).connected ==> match spec_find(
                old(self).objects_model(),
                "knife_model"@,
            ) {
                Some(k) => final(channel).reliable_out@.len() == old(
                    channel,
                ).reliable_out@.len() + 1 && spec_is_sync_message(
                    final(channel).reliable_out@.last(),
                    "TestSystem"@,
                    "sync_knife"@,
                    "knife_model"@,
                    k.local,
                ) && final(channel).reliable_out@.subrange(
                    0,
                    old(channel).reliable_out@.len() as int,
                ) == old(channel).reliable_out@,
                None => final(channel).reliable_out@ == old(channel).reliable_out@,
            },
            !old(channel).connected ==> final(channel).reliable_out@ == old(
                channel,
            ).reliable_out@,
            old(channel).connected ==> match spec_find(
                spec_controller_moved(old(self).objects_model(), Vec3 { x: 0, y: (-1000) as i64, z: 0 }),
                "controller"@,
            ) {
                Some(c) => final(channel).unreliable_out@.len() == old(
                    channel,
                ).unreliable_out@.len() + 1 && spec_is_sync_message(
                    final(channel).unreliable_out@.last(),
                    "TestSystem"@,
                    "sync_controller"@,
                    "controller"@,
                    c.local,
                ),
                None => final(channel).unreliable_out@ == old(channel).unreliable_out@,
            },
            !old(channel).connected ==> final(channel).unreliable_out@ == old(
                channel,
            ).unreliable_out@,
    {
        let knife_transform = match self.find_object("knife_model") {
            Some(obj) => Some(obj.get_local_transform()),
            None => None,
        };
        if let Some(obj_tr) = knife_transform {
            let _ = self.send_message(
                channel,
                MessageReliability::Reliable,
                Message {
                    receiver: MessageReceiver::Everybody,
                    system_id: "TestSystem".to_owned(),
                    message_id: "sync_knife".to_owned(),
                    message: MessageContents::SyncObject(
                        SyncObjectMessage {
                            object_name: "knife_model".to_owned(),
                            transform: obj_tr,
                        },
                    ),
                },
            );
        }
        self.move_controller(Vec3::new(0, -1000, 0));
        let controller_transform = match self.find_object("controller") {
            Some(obj) => Some(obj.get_local_transform()),
            None => None,
        };
        if let Some(transform) = controller_transform {
            let _ = self.send_message(
                channel,
                MessageReliability::Unreliable,
                Message {
                    receiver: MessageReceiver::Everybody,
                    system_id: "TestSystem".to_owned(),
                    message_id: "sync_controller".to_owned(),
                    message: MessageContents::SyncObject(
                        SyncObjectMessage {
                            object_name: "controller".to_owned(),
                            transform,
                        },
                    ),
                },
            );
        }
    }

    /// Turns the sampled movement keys into reliable move commands, in the
    /// fixed order forward, backwards, left, right.
    fn client_update(
        &mut self,
        physics: &mut PhysicsWorld,
        channel: &mut ReplicationChannel,
        input: &InputState,
    )
        ensures
            final(self).objects_model() == old(self).objects_model(),
            final(self).is_destroyed == old(self).is_destroyed,
            final(channel).mode == old(channel).mode,
            final(channel).connected == old(channel).connected,
            final(channel).unreliable_out@ == old(channel).unreliable_out@,
            !old(channel).connected ==> final(channel).reliable_out@ == old(
                channel,
            ).reliable_out@,
            old(channel).connected ==> ({
                let q0 = old(channel).reliable_out@;
                let q = final(channel).reliable_out@;
                let nf: int = if input.forward { 1int } else { 0int };
                let nb: int = if input.backwards { 1int } else { 0int };
                let nl: int = if input.left { 1int } else { 0int };
                let nr: int = if input.right { 1int } else { 0int };
                &&& q.len() == q0.len() + nf + nb + nl + nr
                &&& q.subrange(0, q0.len() as int) == q0
                &&& input.forward ==> spec_is_move_message(q[q0.len() as int], "forward"@)
                &&& input.backwards ==> spec_is_move_message(q[q0.len() + nf], "backwards"@)
                &&& input.left ==> spec_is_move_message(q[q0.len() + nf + nb], "left"@)
                &&& input.right ==> spec_is_move_message(q[q0.len() + nf + nb + nl], "right"@)
            }),
    {
        let ghost q0 = channel.reliable_out@;
        if input.forward {
            let _ = self.send_message(
                channel,
                MessageReliability::Reliable,
                Message {
                    receiver: MessageReceiver::Everybody,
                    system_id: "TestSystem".to_owned(),
                    message_id: "move_controller".to_owned(),
                    message: MessageContents::Custom("forward".to_owned()),
                },
            );
        }
        if input.backwards {
            let _ = self.send_message(
                channel,
                MessageReliability::Reliable,
                Message {
                    receiver: MessageReceiver::Everybody,
                    system_id: "TestSystem".to_owned(),
                    message_id: "move_controller".to_owned(),
                    message: MessageContents::Custom("backwards".to_owned()),
                },
            );
        }
        if input.left {
            let _ = self.send_message(
                channel,
                MessageReliability::Reliable,
                Message {
                    receiver: MessageReceiver::Everybody,
                    system_id: "TestSystem".to_owned(),
                    message_id: "move_controller".to_owned(),
                    message: MessageContents::Custom("left".to_owned()),
                },
            );
        }
        if input.right {
            let _ = self.send_message(
                channel,
                MessageReliability::Reliable,
                Message {
                    receiver: MessageReceiver::Everybody,
                    system_id: "TestSystem".to_owned(),
                    message_id: "move_controller".to_owned(),
                    message: MessageContents::Custom("right".to_owned()),
                },
            );
        }
    }

    fn server_render(&mut self) {
    }

    fn client_render(&mut self) {
    }
}

} // verus!
