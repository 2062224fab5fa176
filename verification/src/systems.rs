//! Systems: logical subsystems owning entity trees, the process-wide
//! registry of systems, and inbound message dispatch.

use vstd::prelude::*;
use crate::networking::{
    Message, MessageReliability, NetworkError, NetworkingMode, ReplicationChannel,
};
use crate::objects::{
    find_in, find_in_mut, lemma_models_index, lemma_models_remove, lemma_remove_not_found,
    lemma_remove_skip, propagate_all, spec_find, spec_no_match, spec_propagated_roots,
    spec_remove_first, spec_replace_first, EmptyObject, ObjectId, ObjectModel,
};
use crate::physics::{
    arena_evolves, lemma_evolves_transitive, remove_rigid_body, PhysicsWorld,
};

verus! {

/// The named hooks a system exposes for scripting and debugging.
pub struct CallList {
    pub immut_call: Vec<String>,
    pub mut_call: Vec<String>,
}

/// One identity-registry entry: an entity identifier and an associated
/// string (owning system identifier, or last-known display name).
pub struct IdentityEntry {
    pub object_id: u64,
    pub value: String,
}

/// Maps entity identifiers to their owning system and display name.
/// Entries are created when an entity joins a system and removed when the
/// entity leaves its tree.
pub struct IdentityRegistry {
    pub next_id: u64,
    pub system_entries: Vec<IdentityEntry>,
    pub name_entries: Vec<IdentityEntry>,
}

/// The association a sequence of entries gives an identifier: the latest
/// entry wins.
pub open spec fn spec_lookup(entries: Seq<IdentityEntry>, object_id: u64) -> Option<Seq<char>>
    decreases entries.len(),
{
    if entries.len() == 0 {
        None
    } else if entries[entries.len() - 1].object_id == object_id {
        Some(entries[entries.len() - 1].value@)
    } else {
        spec_lookup(entries.subrange(0, entries.len() - 1), object_id)
    }
}

/// The entries that survive when an identifier is unregistered.
pub open spec fn spec_retained(entries: Seq<IdentityEntry>, object_id: u64) -> Seq<IdentityEntry>
    decreases entries.len(),
{
    if entries.len() == 0 {
        entries
    } else {
        let front = entries.subrange(0, entries.len() - 1);
        let last = entries[entries.len() - 1];
        if last.object_id == object_id {
            spec_retained(front, object_id)
        } else {
            spec_retained(front, object_id).push(last)
        }
    }
}

/// Looks an identifier up in one entry list; the latest entry wins.
fn lookup_in<'a>(entries: &'a Vec<IdentityEntry>, object_id: u64) -> (r: Option<&'a String>)
    ensures
        match r {
            Some(v) => spec_lookup(entries@, object_id) == Some(v@),
            None => spec_lookup(entries@, object_id) is None,
        },
{
    let n = entries.len();
    let mut i = n;
    proof {
        assert(entries@.subrange(0, n as int) =~= entries@);
    }
    while i > 0
        invariant
            i <= n,
            n == entries@.len(),
            spec_lookup(entries@, object_id) == spec_lookup(
                entries@.subrange(0, i as int),
                object_id,
            ),
        decreases i,
    {
        i = i - 1;
        if entries[i].object_id == object_id {
            proof {
                let s = entries@.subrange(0, i + 1);
                assert(s[s.len() - 1] == entries@[i as int]);
            }
            return Some(&entries[i].value);
        }
        proof {
            let s = entries@.subrange(0, i + 1);
            assert(s[s.len() - 1] == entries@[i as int]);
            assert(s.subrange(0, s.len() - 1) =~= entries@.subrange(0, i as int));
        }
    }
    proof {
        assert(entries@.subrange(0, 0).len() == 0);
    }
    None
}

/// Removes every entry of one list that carries the given identifier.
fn retain_without(entries: &mut Vec<IdentityEntry>, object_id: u64)
    ensures
        final(entries)@ == spec_retained(old(entries)@, object_id),
{
    let mut kept: Vec<IdentityEntry> = Vec::new();
    let n = entries.len();
    for i in 0..n
        invariant
            n == entries@.len(),
            entries@ == old(entries)@,
            kept@ == spec_retained(entries@.subrange(0, i as int), object_id),
    {
        let ghost before = entries@.subrange(0, i as int);
        let keep = entries[i].object_id != object_id;
        if keep {
            let e = IdentityEntry {
                object_id: entries[i].object_id,
                value: entries[i].value.clone(),
            };
            proof {
                assert(e.value@ == entries@[i as int].value@);
            }
            kept.push(e);
        }
        proof {
            let s = entries@.subrange(0, i + 1);
            assert(s[s.len() - 1] == entries@[i as int]);
            assert(s.subrange(0, s.len() - 1) =~= before);
            if keep {
                assert(kept@.last().object_id == entries@[i as int].object_id);
                assert(kept@.last().value@ == entries@[i as int].value@);
                assert(kept@ =~= spec_retained(before, object_id).push(kept@.last()));
                assert(spec_retained(s, object_id) == spec_retained(before, object_id).push(
                    entries@[i as int],
                ));
                assert(kept@ =~= spec_retained(s, object_id));
            } else {
                assert(kept@ == spec_retained(s, object_id));
            }
        }
    }
    proof {
        assert(entries@.subrange(0, n as int) =~= entries@);
    }
    *entries = kept;
}

impl IdentityRegistry {
    /// An empty registry; the first issued identifier is 1.
    pub fn new() -> (r: IdentityRegistry)
        ensures
            r.next_id == 1,
            r.system_entries@ == Seq::<IdentityEntry>::empty(),
            r.name_entries@ == Seq::<IdentityEntry>::empty(),
    {
        IdentityRegistry { next_id: 1, system_entries: Vec::new(), name_entries: Vec::new() }
    }

    /// Issues the next identifier.  The counter saturates at its maximum,
    /// after which issued identifiers are no longer fresh.
    pub fn fresh_id(&mut self) -> (id: u64)
        ensures
            id == old(self).next_id,
            final(self).next_id == if old(self).next_id < u64::MAX {
                old(self).next_id + 1
            } else {
                u64::MAX as int
            },
            final(self).system_entries == old(self).system_entries,
            final(self).name_entries == old(self).name_entries,
    {
        let id = self.next_id;
        if self.next_id < u64::MAX {
            self.next_id = self.next_id + 1;
        }
        id
    }

    /// Records which system owns an entity.
    pub fn register_object_id_system(&mut self, object_id: u64, system_id: &str)
        ensures
            final(self).system_entries@.len() == old(self).system_entries@.len() + 1,
            forall|j: int|
                0 <= j < old(self).system_entries@.len() ==> final(self).system_entries@[j]
                    == old(self).system_entries@[j],
            final(self).system_entries@.last().object_id == object_id,
            final(self).system_entries@.last().value@ == system_id@,
            final(self).name_entries == old(self).name_entries,
            final(self).next_id == old(self).next_id,
    {
        self.system_entries.push(IdentityEntry { object_id, value: system_id.to_owned() });
    }

    /// Records an entity's display name at registration time.
    pub fn register_object_id_name(&mut self, object_id: u64, name: &str)
        ensures
            final(self).name_entries@.len() == old(self).name_entries@.len() + 1,
            forall|j: int|
                0 <= j < old(self).name_entries@.len() ==> final(self).name_entries@[j]
                    == old(self).name_entries@[j],
            final(self).name_entries@.last().object_id == object_id,
            final(self).name_entries@.last().value@ == name@,
            final(self).system_entries == old(self).system_entries,
            final(self).next_id == old(self).next_id,
    {
        self.name_entries.push(IdentityEntry { object_id, value: name.to_owned() });
    }

    /// The identifier of the system owning an entity, when registered.
    pub fn lookup_system<'a>(&'a self, object_id: u64) -> (r: Option<&'a String>)
        ensures
            match r {
                Some(v) => spec_lookup(self.system_entries@, object_id) == Some(v@),
                None => spec_lookup(self.system_entries@, object_id) is None,
            },
    {
        lookup_in(&self.system_entries, object_id)
    }

    /// The last-known display name of an entity, when registered.
    pub fn lookup_name<'a>(&'a self, object_id: u64) -> (r: Option<&'a String>)
        ensures
            match r {
                Some(v) => spec_lookup(self.name_entries@, object_id) == Some(v@),
                None => spec_lookup(self.name_entries@, object_id) is None,
            },
    {
        lookup_in(&self.name_entries, object_id)
    }

    /// Drops every entry for an identifier, so that removal of an entity
    /// leaves no stale association behind.
    pub fn unregister_object_id(&mut self, object_id: u64)
        ensures
            final(self).system_entries@ == spec_retained(old(self).system_entries@, object_id),
            final(self).name_entries@ == spec_retained(old(self).name_entries@, object_id),
            final(self).next_id == old(self).next_id,
    {
        retain_without(&mut self.system_entries, object_id);
        retain_without(&mut self.name_entries, object_id);
    }
}

/// The buttons the platform layer sampled this tick.
#[derive(Clone, Copy, Debug, PartialEq, Eq, Structural)]
pub struct InputState {
    pub forward: bool,
    pub backwards: bool,
    pub left: bool,
    pub right: bool,
}

/// A logical subsystem: one entity tree plus role-specific lifecycle hooks.
pub trait System: Sized {
    /// The models of the root entities this system owns.
    spec fn objects_model(&self) -> Seq<ObjectModel>;

    /// Whether the system asked to be reaped.
    spec fn destroyed_spec(&self) -> bool;

    /// The system's identifier.
    spec fn id_spec(&self) -> Seq<char>;

    /// The entity trees a system of this kind reaches when one inbound
    /// message is applied to trees in the given state.
    spec fn reg_message_model(objects: Seq<ObjectModel>, message: Message) -> Seq<ObjectModel>;

    /// The root entities, read-only.
    fn objects_list(&self) -> (r: &Vec<EmptyObject>)
        ensures
            EmptyObject::models(r@) == self.objects_model(),
    ;

    /// The root entities, for mutation.
    fn objects_list_mut(&mut self) -> (r: &mut Vec<EmptyObject>)
        ensures
            EmptyObject::models((*r)@) == old(self).objects_model(),
            final(self).objects_model() == EmptyObject::models((*final(r))@),
            final(self).destroyed_spec() == old(self).destroyed_spec(),
            final(self).id_spec() == old(self).id_spec(),
    ;

    /// The system's identifier.
    fn system_id(&self) -> (r: &str)
        ensures
            r@ == self.id_spec(),
    ;

    /// Whether the system asked to be reaped.
    fn is_destroyed(&self) -> (r: bool)
        ensures
            r == self.destroyed_spec(),
    ;

    /// Sets or clears the destroyed flag, touching nothing else.
    fn set_destroyed(&mut self, is_destroyed: bool)
        ensures
            final(self).destroyed_spec() == is_destroyed,
            final(self).objects_model() == old(self).objects_model(),
            final(self).id_spec() == old(self).id_spec(),
    ;

    /// Named read-only action hook.
    fn call(&self, call_id: &str);

    /// Named mutating action hook.
    fn call_mut(&mut self, call_id: &str);

    /// The named hooks this system declares.
    fn call_list(&self) -> CallList;

    /// Applies one inbound replication message.
    fn reg_message(&mut self, message: Message)
        ensures
            final(self).objects_model() == Self::reg_message_model(
                old(self).objects_model(),
                message,
            ),
            final(self).destroyed_spec() == old(self).destroyed_spec(),
            final(self).id_spec() == old(self).id_spec(),
    ;

    /// Server-role start hook.
    fn server_start(&mut self, physics: &mut PhysicsWorld, registry: &mut IdentityRegistry)
        requires
            old(physics).wf(),
        ensures
            final(physics).wf(),
            arena_evolves(*old(physics), *final(physics)),
    ;

    /// Client-role start hook.
    fn client_start(&mut self, physics: &mut PhysicsWorld, registry: &mut IdentityRegistry)
        requires
            old(physics).wf(),
        ensures
            final(physics).wf(),
            arena_evolves(*old(physics), *final(physics)),
    ;

    /// Server-role per-tick hook.
    fn server_update(&mut self, physics: &mut PhysicsWorld, channel: &mut ReplicationChannel)
        requires
            old(physics).wf(),
        ensures
            final(physics).wf(),
            arena_evolves(*old(physics), *final(physics)),
    ;

    /// Client-role per-tick hook.
    fn client_update(
        &mut self,
        physics: &mut PhysicsWorld,
        channel: &mut ReplicationChannel,
        input: &InputState,
    )
        requires
            old(physics).wf(),
        ensures
            final(physics).wf(),
            arena_evolves(*old(physics), *final(physics)),
    ;

    /// Server-role draw hook.
    fn server_render(&mut self);

    /// Client-role draw hook.
    fn client_render(&mut self);

    /// Queues an outbound message on the channel with the chosen
    /// reliability; the system itself is untouched.
    fn send_message(
        &mut self,
        channel: &mut ReplicationChannel,
        reliability: MessageReliability,
        message: Message,
    ) -> (r: Result<(), NetworkError>)
        ensures
            *final(self) == *old(self),
            final(channel).mode == old(channel).mode,
            final(channel).connected == old(channel).connected,
            r is Ok <==> old(channel).connected,
            !old(channel).connected ==> r == Err::<(), NetworkError>(
                NetworkError::ConnectionAbsent,
            ) && final(channel).reliable_out@ == old(channel).reliable_out@
                && final(channel).unreliable_out@ == old(channel).unreliable_out@,
            old(channel).connected && reliability == MessageReliability::Reliable
                ==> final(channel).reliable_out@ == old(channel).reliable_out@.push(message)
                    && final(channel).unreliable_out@ == old(channel).unreliable_out@,
            old(channel).connected && reliability == MessageReliability::Unreliable
                ==> final(channel).unreliable_out@ == old(channel).unreliable_out@.push(message)
                    && final(channel).reliable_out@ == old(channel).reliable_out@,
    {
        channel.send_message(reliability, message)
    }

    /// Finds the first entity named `object_name`, searching the trees
    /// depth first, each entity before its children, in registration order.
    fn find_object<'a>(&'a self, object_name: &str) -> (r: Option<&'a EmptyObject>)
        ensures
            match r {
                Some(o) => spec_find(self.objects_model(), object_name@) == Some(o.model()),
                None => spec_find(self.objects_model(), object_name@) is None,
            },
    {
        find_in(self.objects_list(), object_name)
    }

    /// Finds the first entity named `object_name` for mutation, in the same
    /// traversal order as `find_object`; the caller's edits to the returned
    /// entity are the only change to the trees.
    fn find_object_mut<'a>(&'a mut self, object_name: &str) -> (r: Option<&'a mut EmptyObject>)
        ensures
            match r {
                Some(m) => spec_find(old(self).objects_model(), object_name@) == Some((*m).model())
                    && final(self).objects_model() == spec_replace_first(
                    old(self).objects_model(),
                    object_name@,
                    final(m).model(),
                ) && final(self).destroyed_spec() == old(self).destroyed_spec()
                    && final(self).id_spec() == old(self).id_spec(),
                None => spec_find(old(self).objects_model(), object_name@) is None
                    && final(self).objects_model() == old(self).objects_model()
                    && final(self).destroyed_spec() == old(self).destroyed_spec()
                    && final(self).id_spec() == old(self).id_spec(),
            },
    {
        find_in_mut(self.objects_list_mut(), object_name)
    }

    /// Runs the transform pass over every owned tree, then the per-node
    /// update hooks, then the children's update hooks.
    fn update_objects(&mut self)
        ensures
            final(self).objects_model() == spec_propagated_roots(old(self).objects_model()),
            final(self).destroyed_spec() == old(self).destroyed_spec(),
            final(self).id_spec() == old(self).id_spec(),
    {
        let objs = self.objects_list_mut();
        propagate_all(objs);
        let n = objs.len();
        for i in 0..n
            invariant
                n == objs.len(),
                EmptyObject::models(objs@) == spec_propagated_roots(old(self).objects_model()),
        {
            let ghost before = objs@;
            objs[i].update();
            objs[i].update_children();
            proof {
                assert(objs@ =~= before);
            }
        }
        proof {
            assert(EmptyObject::models((*objs)@) == spec_propagated_roots(
                old(self).objects_model(),
            ));
        }
    }

    /// Runs the draw hooks over every owned tree; the trees are unchanged.
    fn render_objects(&mut self)
        ensures
            final(self).objects_model() == old(self).objects_model(),
            final(self).destroyed_spec() == old(self).destroyed_spec(),
            final(self).id_spec() == old(self).id_spec(),
    {
        let objs = self.objects_list_mut();
        let n = objs.len();
        for i in 0..n
            invariant
                n == objs.len(),
                EmptyObject::models(objs@) == old(self).objects_model(),
        {
            let ghost before = objs@;
            objs[i].render();
            objs[i].render_children();
            objs[i].debug_render();
            proof {
                assert(objs@ =~= before);
            }
        }
    }

    /// Marks this system destroyed; the registry stops ticking it.
    fn destroy_system(&mut self)
        ensures
            final(self).destroyed_spec(),
            final(self).objects_model() == old(self).objects_model(),
            final(self).id_spec() == old(self).id_spec(),
    {
        self.set_destroyed(true);
    }

    /// The one sanctioned way to insert an entity: registers its fresh
    /// identifier and name with the identity registry, appends it to the
    /// tree, and runs its start hook once, in that order.
    fn add_object(&mut self, registry: &mut IdentityRegistry, object: EmptyObject)
        ensures
            final(self).objects_model() == old(self).objects_model().push(
                ObjectModel { id: old(registry).next_id, ..object.model() },
            ),
            final(self).destroyed_spec() == old(self).destroyed_spec(),
            final(self).id_spec() == old(self).id_spec(),
            final(registry).system_entries@.len() == old(registry).system_entries@.len() + 1,
            final(registry).system_entries@.last().object_id == old(registry).next_id,
            final(registry).system_entries@.last().value@ == old(self).id_spec(),
            final(registry).name_entries@.len() == old(registry).name_entries@.len() + 1,
            final(registry).name_entries@.last().object_id == old(registry).next_id,
            final(registry).name_entries@.last().value@ == object.model().name,
    {
        let mut object = object;
        let id = registry.fresh_id();
        let sys_id: String = self.system_id().to_owned();
        registry.register_object_id_system(id, sys_id.as_str());
        registry.register_object_id_name(id, object.get_name());
        object.set_id(ObjectId { value: id });
        let ghost inserted = object;
        let objs = self.objects_list_mut();
        let ghost before = objs@;
        objs.push(object);
        let n = objs.len();
        objs[n - 1].start();
        proof {
            assert(objs@ =~= before.push(inserted));
            crate::objects::lemma_models_index(before);
            crate::objects::lemma_models_index(objs@);
            assert(EmptyObject::models((*objs)@) =~= EmptyObject::models(before).push(
                inserted.model(),
            ));
        }
    }

    /// Removes the first entity named `object_name` from this system's
    /// trees.  The removed subtree's physics bodies are removed from the
    /// world and its identity entries are dropped, so no stale association
    /// survives the entity.
    fn remove_object(
        &mut self,
        object_name: &str,
        registry: &mut IdentityRegistry,
        physics: &mut PhysicsWorld,
    ) -> (removed: bool)
        requires
            old(physics).wf(),
        ensures
            final(physics).wf(),
            arena_evolves(*old(physics), *final(physics)),
            removed == (spec_find(old(self).objects_model(), object_name@) is Some),
            final(self).objects_model() == spec_remove_first(
                old(self).objects_model(),
                object_name@,
            ),
            final(self).destroyed_spec() == old(self).destroyed_spec(),
            final(self).id_spec() == old(self).id_spec(),
            final(registry).next_id == old(registry).next_id,
    {
        let objs = self.objects_list_mut();
        remove_object_in(objs, object_name, registry, physics)
    }

    /// Named action hook with arguments; systems that answer none inherit
    /// this refusal.
    fn call_with_args(&mut self, call_id: &str, args: Vec<String>) -> (r: Option<String>)
        ensures
            r is None,
            *final(self) == *old(self),
        default_ensures
            r is None,
    {
        let _ = call_id;
        let _ = args;
        None
    }
}

/// The observable state of one system: its identifier, destroyed flag and
/// entity trees.
pub ghost struct SystemModel {
    pub id: Seq<char>,
    pub destroyed: bool,
    pub objects: Seq<ObjectModel>,
}

/// The models of a sequence of systems, in registration order.
pub open spec fn registry_model<S: System>(ss: Seq<S>) -> Seq<SystemModel> {
    Seq::new(
        ss.len(),
        |i: int|
            SystemModel {
                id: ss[i].id_spec(),
                destroyed: ss[i].destroyed_spec(),
                objects: ss[i].objects_model(),
            },
    )
}

/// A registry after one inbound message is routed to the first system whose
/// identifier matches the message's originating system.
pub open spec fn spec_dispatch<S: System>(ms: Seq<SystemModel>, m: Message) -> Seq<SystemModel>
    decreases ms.len(),
{
    if ms.len() == 0 {
        ms
    } else if ms[0].id == m.system_id@ {
        ms.update(0, SystemModel { objects: S::reg_message_model(ms[0].objects, m), ..ms[0] })
    } else {
        spec_dispatch::<S>(ms.subrange(1, ms.len() as int), m).insert(0, ms[0])
    }
}

/// Whether some system in the registry carries the identifier.
pub open spec fn spec_has_system(ms: Seq<SystemModel>, id: Seq<char>) -> bool {
    exists|i: int| 0 <= i < ms.len() && (#[trigger] ms[i].id) == id
}

/// Routing may skip over any prefix of systems with other identifiers.
pub proof fn lemma_dispatch_skip<S: System>(ms: Seq<SystemModel>, m: Message, i: int)
    requires
        0 <= i <= ms.len(),
        forall|j: int| 0 <= j < i ==> (#[trigger] ms[j].id) != m.system_id@,
    ensures
        spec_dispatch::<S>(ms, m) == ms.subrange(0, i) + spec_dispatch::<S>(
            ms.subrange(i, ms.len() as int),
            m,
        ),
    decreases i,
{
    if i == 0 {
        assert(ms.subrange(0, ms.len() as int) =~= ms);
        assert(ms.subrange(0, 0) + spec_dispatch::<S>(ms, m) =~= spec_dispatch::<S>(ms, m));
    } else {
        lemma_dispatch_skip::<S>(ms, m, i - 1);
        let s = ms.subrange(i - 1, ms.len() as int);
        assert(s[0] == ms[i - 1]);
        assert(s.subrange(1, s.len() as int) =~= ms.subrange(i, ms.len() as int));
        assert(spec_dispatch::<S>(s, m) == spec_dispatch::<S>(
            ms.subrange(i, ms.len() as int),
            m,
        ).insert(0, ms[i - 1]));
        assert(ms.subrange(0, i - 1) + spec_dispatch::<S>(s, m) =~= ms.subrange(0, i)
            + spec_dispatch::<S>(ms.subrange(i, ms.len() as int), m));
    }
}

/// When no system matches, routing changes nothing.
pub proof fn lemma_dispatch_no_target<S: System>(ms: Seq<SystemModel>, m: Message)
    requires
        !spec_has_system(ms, m.system_id@),
    ensures
        spec_dispatch::<S>(ms, m) == ms,
    decreases ms.len(),
{
    if ms.len() > 0 {
        assert(ms[0].id != m.system_id@);
        let tail = ms.subrange(1, ms.len() as int);
        assert(forall|i: int| 0 <= i < tail.len() ==> (#[trigger] tail[i].id) == ms[i + 1].id);
        lemma_dispatch_no_target::<S>(tail, m);
        assert(spec_dispatch::<S>(ms, m) =~= ms);
    }
}

/// A registry after a queue of inbound messages is routed, in queue order.
pub open spec fn spec_dispatch_all<S: System>(ms: Seq<SystemModel>, msgs: Seq<Message>) -> Seq<
    SystemModel,
>
    decreases msgs.len(),
{
    if msgs.len() == 0 {
        ms
    } else {
        spec_dispatch_all::<S>(spec_dispatch::<S>(ms, msgs[0]), msgs.subrange(1, msgs.len() as int))
    }
}

/// Routing a queue then one more message is routing the extended queue.
pub proof fn lemma_dispatch_all_push<S: System>(
    ms: Seq<SystemModel>,
    msgs: Seq<Message>,
    m: Message,
)
    ensures
        spec_dispatch_all::<S>(ms, msgs.push(m)) == spec_dispatch::<S>(
            spec_dispatch_all::<S>(ms, msgs),
            m,
        ),
    decreases msgs.len(),
{
    let e = msgs.push(m);
    if msgs.len() == 0 {
        assert(e.len() == 1);
        assert(e[0] == m);
        assert(e.subrange(1, 1) =~= Seq::<Message>::empty());
        assert(spec_dispatch_all::<S>(ms, e) == spec_dispatch_all::<S>(
            spec_dispatch::<S>(ms, m),
            e.subrange(1, 1),
        ));
        assert(spec_dispatch_all::<S>(spec_dispatch::<S>(ms, m), e.subrange(1, 1))
            == spec_dispatch::<S>(ms, m));
        assert(spec_dispatch_all::<S>(ms, msgs) == ms);
    } else {
        let mt = msgs.subrange(1, msgs.len() as int);
        assert(e[0] == msgs[0]);
        assert(e.subrange(1, e.len() as int) =~= mt.push(m));
        lemma_dispatch_all_push::<S>(spec_dispatch::<S>(ms, msgs[0]), mt, m);
        assert(spec_dispatch_all::<S>(ms, e) == spec_dispatch_all::<S>(
            spec_dispatch::<S>(ms, e[0]),
            e.subrange(1, e.len() as int),
        ));
        assert(spec_dispatch_all::<S>(ms, msgs) == spec_dispatch_all::<S>(
            spec_dispatch::<S>(ms, msgs[0]),
            mt,
        ));
    }
}

/// Appending two messages to the inbound queue routes everything earlier,
/// then the first of the two, then - strictly after - the second.
pub proof fn lemma_dispatch_order<S: System>(
    ms: Seq<SystemModel>,
    q: Seq<Message>,
    a: Message,
    b: Message,
)
    ensures
        spec_dispatch_all::<S>(ms, q.push(a).push(b)) == spec_dispatch::<S>(
            spec_dispatch::<S>(spec_dispatch_all::<S>(ms, q), a),
            b,
        ),
{
    lemma_dispatch_all_push::<S>(ms, q.push(a), b);
    lemma_dispatch_all_push::<S>(ms, q, a);
}

/// The trees one receiver goes through when it applies inbound messages in
/// order.
pub open spec fn spec_applied_in_order<S: System>(
    objects: Seq<ObjectModel>,
    msgs: Seq<Message>,
) -> Seq<ObjectModel>
    decreases msgs.len(),
{
    if msgs.len() == 0 {
        objects
    } else {
        spec_applied_in_order::<S>(
            S::reg_message_model(objects, msgs[0]),
            msgs.subrange(1, msgs.len() as int),
        )
    }
}

/// Reliable delivery preserves send order at the receiver: when `a` is sent
/// before `b`, the receiver applies everything queued before them, then
/// `a`, then - strictly after - `b`.
pub proof fn lemma_reliable_order<S: System>(
    objects: Seq<ObjectModel>,
    q: Seq<Message>,
    a: Message,
    b: Message,
)
    ensures
        spec_applied_in_order::<S>(objects, q.push(a).push(b)) == S::reg_message_model(
            S::reg_message_model(spec_applied_in_order::<S>(objects, q), a),
            b,
        ),
    decreases q.len(),
{
    let e = q.push(a).push(b);
    if q.len() == 0 {
        let tail = e.subrange(1, 2);
        assert(e.len() == 2);
        assert(e[0] == a);
        assert(tail.len() == 1);
        assert(tail[0] == b);
        assert(tail.subrange(1, 1) =~= Seq::<Message>::empty());
        assert(spec_applied_in_order::<S>(objects, e) == spec_applied_in_order::<S>(
            S::reg_message_model(objects, a),
            tail,
        ));
        assert(spec_applied_in_order::<S>(S::reg_message_model(objects, a), tail)
            == spec_applied_in_order::<S>(
            S::reg_message_model(S::reg_message_model(objects, a), b),
            tail.subrange(1, 1),
        ));
        assert(spec_applied_in_order::<S>(objects, q) == objects);
    } else {
        let qt = q.subrange(1, q.len() as int);
        assert(e[0] == q[0]);
        assert(e.subrange(1, e.len() as int) =~= qt.push(a).push(b));
        lemma_reliable_order::<S>(S::reg_message_model(objects, q[0]), qt, a, b);
        assert(spec_applied_in_order::<S>(objects, e) == spec_applied_in_order::<S>(
            S::reg_message_model(objects, e[0]),
            e.subrange(1, e.len() as int),
        ));
        assert(spec_applied_in_order::<S>(objects, q) == spec_applied_in_order::<S>(
            S::reg_message_model(objects, q[0]),
            qt,
        ));
    }
}

/// The position of the first registry entry carrying the identifier.
pub open spec fn spec_route(ms: Seq<SystemModel>, id: Seq<char>) -> Option<int>
    decreases ms.len(),
{
    if ms.len() == 0 {
        None
    } else if ms[0].id == id {
        Some(0int)
    } else {
        match spec_route(ms.subrange(1, ms.len() as int), id) {
            Some(i) => Some(i + 1),
            None => None,
        }
    }
}

/// Routing one message touches exactly the first matching entry: its trees
/// take the message, its identifier and destroyed flag stay, and every
/// other entry is untouched.
pub proof fn lemma_dispatch_pointwise<S: System>(ms: Seq<SystemModel>, m: Message)
    ensures
        spec_dispatch::<S>(ms, m).len() == ms.len(),
        forall|k: int|
            0 <= k < ms.len() ==> (#[trigger] spec_dispatch::<S>(ms, m)[k]).id == ms[k].id
                && spec_dispatch::<S>(ms, m)[k].destroyed == ms[k].destroyed,
        forall|k: int|
            0 <= k < ms.len() && Some(k) != spec_route(ms, m.system_id@)
                ==> (#[trigger] spec_dispatch::<S>(ms, m)[k]) == ms[k],
        match spec_route(ms, m.system_id@) {
            Some(t) => 0 <= t < ms.len() && ms[t].id == m.system_id@ && (forall|k: int|
                0 <= k < t ==> (#[trigger] ms[k].id) != m.system_id@) && spec_dispatch::<S>(
                ms,
                m,
            )[t] == (SystemModel { objects: S::reg_message_model(ms[t].objects, m), ..ms[t] }),
            None => spec_dispatch::<S>(ms, m) == ms && forall|k: int|
                0 <= k < ms.len() ==> (#[trigger] ms[k].id) != m.system_id@,
        },
    decreases ms.len(),
{
    if ms.len() == 0 {
    } else if ms[0].id == m.system_id@ {
        assert(spec_route(ms, m.system_id@) == Some(0int));
    } else {
        let tail = ms.subrange(1, ms.len() as int);
        lemma_dispatch_pointwise::<S>(tail, m);
        let d = spec_dispatch::<S>(tail, m).insert(0, ms[0]);
        assert(spec_dispatch::<S>(ms, m) == d);
        assert(d[0] == ms[0]);
        assert(forall|k: int|
            1 <= k < ms.len() ==> (#[trigger] d[k]) == spec_dispatch::<S>(tail, m)[k - 1]);
        assert(forall|k: int| 1 <= k < ms.len() ==> (#[trigger] tail[k - 1]) == ms[k]);
        match spec_route(tail, m.system_id@) {
            Some(t) => {
                assert(spec_route(ms, m.system_id@) == Some(t + 1));
                assert(tail[t] == ms[t + 1]);
                assert(ms[t + 1].id == m.system_id@);
                assert forall|k: int| 0 <= k < t + 1 implies (#[trigger] ms[k].id)
                    != m.system_id@ by {
                    if k >= 1 {
                        assert(tail[k - 1] == ms[k]);
                        assert(tail[k - 1].id != m.system_id@);
                    }
                }
                assert(d[t + 1] == spec_dispatch::<S>(tail, m)[t]);
                assert(d[t + 1] == (SystemModel {
                    objects: S::reg_message_model(ms[t + 1].objects, m),
                    ..ms[t + 1]
                }));
            },
            None => {
                assert(spec_route(ms, m.system_id@) is None);
                assert(d =~= ms);
            },
        }
    }
}

/// The inbound messages addressed to one system identifier, in queue order.
pub open spec fn spec_addressed(msgs: Seq<Message>, id: Seq<char>) -> Seq<Message>
    decreases msgs.len(),
{
    if msgs.len() == 0 {
        msgs
    } else {
        let rest = spec_addressed(msgs.subrange(1, msgs.len() as int), id);
        if msgs[0].system_id@ == id {
            rest.insert(0, msgs[0])
        } else {
            rest
        }
    }
}

/// Each receiver applies exactly the inbound messages addressed to it, in
/// queue order: the first system carrying an identifier goes through the
/// fold of its own messages, earlier queue entries strictly before later
/// ones, and keeps its identifier and destroyed flag.
pub proof fn lemma_dispatch_all_per_receiver<S: System>(
    ms: Seq<SystemModel>,
    msgs: Seq<Message>,
    j: int,
)
    requires
        0 <= j < ms.len(),
        forall|k: int| 0 <= k < j ==> (#[trigger] ms[k].id) != ms[j].id,
    ensures
        spec_dispatch_all::<S>(ms, msgs).len() == ms.len(),
        spec_dispatch_all::<S>(ms, msgs)[j].id == ms[j].id,
        spec_dispatch_all::<S>(ms, msgs)[j].destroyed == ms[j].destroyed,
        spec_dispatch_all::<S>(ms, msgs)[j].objects == spec_applied_in_order::<S>(
            ms[j].objects,
            spec_addressed(msgs, ms[j].id),
        ),
    decreases msgs.len(),
{
    if msgs.len() == 0 {
        assert(spec_addressed(msgs, ms[j].id).len() == 0);
    } else {
        let m = msgs[0];
        let tail = msgs.subrange(1, msgs.len() as int);
        let d = spec_dispatch::<S>(ms, m);
        lemma_dispatch_pointwise::<S>(ms, m);
        assert(spec_dispatch_all::<S>(ms, msgs) == spec_dispatch_all::<S>(d, tail));
        assert(forall|k: int| 0 <= k < j ==> (#[trigger] d[k].id) != d[j].id);
        lemma_dispatch_all_per_receiver::<S>(d, tail, j);
        if m.system_id@ == ms[j].id {
            match spec_route(ms, m.system_id@) {
                Some(t) => {
                    assert(t == j) by {
                        if t < j {
                            assert(ms[t].id == ms[j].id);
                        } else if j < t {
                            assert(ms[j].id != m.system_id@);
                        }
                    }
                    assert(d[j].objects == S::reg_message_model(ms[j].objects, m));
                    let a = spec_addressed(msgs, ms[j].id);
                    assert(a == spec_addressed(tail, ms[j].id).insert(0, m));
                    assert(a[0] == m);
                    assert(a.subrange(1, a.len() as int) =~= spec_addressed(tail, ms[j].id));
                    assert(spec_applied_in_order::<S>(ms[j].objects, a)
                        == spec_applied_in_order::<S>(
                        S::reg_message_model(ms[j].objects, m),
                        a.subrange(1, a.len() as int),
                    ));
                },
                None => {
                    assert(ms[j].id != m.system_id@);
                },
            }
        } else {
            assert(Some(j) != spec_route(ms, m.system_id@)) by {
                match spec_route(ms, m.system_id@) {
                    Some(t) => {
                        if t == j {
                            assert(ms[j].id == m.system_id@);
                        }
                    },
                    None => {},
                }
            }
            assert(d[j] == ms[j]);
            assert(spec_addressed(msgs, ms[j].id) == spec_addressed(tail, ms[j].id));
        }
    }
}

/// Routing the same message twice leaves the registry as routing it once
/// does, whenever the receiving system kind applies that message
/// idempotently.
pub proof fn lemma_dispatch_idempotent<S: System>(ms: Seq<SystemModel>, m: Message)
    requires
        forall|objects: Seq<ObjectModel>|
            S::reg_message_model(S::reg_message_model(objects, m), m) == #[trigger] S::reg_message_model(
                objects,
                m,
            ),
    ensures
        spec_dispatch::<S>(spec_dispatch::<S>(ms, m), m) == spec_dispatch::<S>(ms, m),
    decreases ms.len(),
{
    if ms.len() == 0 {
    } else if ms[0].id == m.system_id@ {
        let d = ms.update(
            0,
            SystemModel { objects: S::reg_message_model(ms[0].objects, m), ..ms[0] },
        );
        assert(d[0].id == m.system_id@);
        assert(spec_dispatch::<S>(d, m) == d.update(
            0,
            SystemModel { objects: S::reg_message_model(d[0].objects, m), ..d[0] },
        ));
        assert(spec_dispatch::<S>(d, m) =~= d);
    } else {
        let tail = ms.subrange(1, ms.len() as int);
        lemma_dispatch_idempotent::<S>(tail, m);
        let d = spec_dispatch::<S>(tail, m).insert(0, ms[0]);
        assert(spec_dispatch::<S>(ms, m) == d);
        assert(d[0] == ms[0]);
        assert(d[0].id != m.system_id@);
        assert(d.subrange(1, d.len() as int) =~= spec_dispatch::<S>(tail, m));
        assert(spec_dispatch::<S>(d, m) == spec_dispatch::<S>(
            d.subrange(1, d.len() as int),
            m,
        ).insert(0, d[0]));
        assert(spec_dispatch::<S>(d, m) =~= d);
    }
}

/// A mutable borrow of one element, with the element-wise frame condition
/// spelled out.
fn element_mut<T>(v: &mut Vec<T>, i: usize) -> (element: &mut T)
    requires
        i < old(v)@.len(),
    ensures
        *element == old(v)@[i as int],
        final(v)@ == old(v)@.update(i as int, *final(element)),
{
    &mut v[i]
}

/// The position of the first system whose identifier matches the message's
/// originating system.
fn route_index<S: System>(systems: &Vec<S>, message: &Message) -> (r: Option<usize>)
    ensures
        match r {
            Some(i) => i < systems@.len() && systems@[i as int].id_spec() == message.system_id@
                && forall|j: int|
                0 <= j < i ==> (#[trigger] systems@[j].id_spec()) != message.system_id@,
            None => !spec_has_system(registry_model(systems@), message.system_id@),
        },
{
    let n = systems.len();
    for i in 0..n
        invariant
            n == systems@.len(),
            forall|j: int| 0 <= j < i ==> (#[trigger] systems@[j].id_spec()) != message.system_id@,
    {
        let sid: String = systems[i].system_id().to_owned();
        if sid == message.system_id {
            return Some(i);
        }
    }
    proof {
        let ms = registry_model(systems@);
        assert forall|i: int| 0 <= i < ms.len() implies (#[trigger] ms[i].id)
            != message.system_id@ by {
            assert(systems@[i].id_spec() != message.system_id@);
        }
    }
    None
}

/// The process-wide list of active systems, ticked in registration order.
pub struct SystemRegistry<S> {
    pub systems: Vec<S>,
}

impl<S: System> SystemRegistry<S> {
    /// An empty registry.
    pub fn new() -> (r: SystemRegistry<S>)
        ensures
            r.systems@ == Seq::<S>::empty(),
    {
        SystemRegistry { systems: Vec::new() }
    }

    /// Appends a system; it will be ticked after all earlier ones.
    pub fn add_system(&mut self, system: S)
        ensures
            final(self).systems@ == old(self).systems@.push(system),
    {
        self.systems.push(system);
    }

    /// Runs the start hook of the current role on every system, in
    /// registration order.
    pub fn start(
        &mut self,
        mode: NetworkingMode,
        physics: &mut PhysicsWorld,
        registry: &mut IdentityRegistry,
    )
        requires
            old(physics).wf(),
        ensures
            final(physics).wf(),
            arena_evolves(*old(physics), *final(physics)),
            final(self).systems@.len() == old(self).systems@.len(),
    {
        let n = self.systems.len();
        for i in 0..n
            invariant
                n == self.systems.len(),
                physics.wf(),
                arena_evolves(*old(physics), *physics),
        {
            let ghost mid = *physics;
            let sys = element_mut(&mut self.systems, i);
            match mode {
                NetworkingMode::Server => sys.server_start(physics, registry),
                NetworkingMode::Client => sys.client_start(physics, registry),
            }
            proof {
                lemma_evolves_transitive(*old(physics), mid, *physics);
            }
        }
    }

    /// Ticks every system that is not destroyed, in registration order:
    /// first its tree passes, then the role hook of the current mode.
    /// Destroyed systems are left untouched.
    pub fn update(
        &mut self,
        physics: &mut PhysicsWorld,
        channel: &mut ReplicationChannel,
        input: &InputState,
    )
        requires
            old(physics).wf(),
        ensures
            final(physics).wf(),
            arena_evolves(*old(physics), *final(physics)),
            final(self).systems@.len() == old(self).systems@.len(),
            forall|j: int|
                0 <= j < old(self).systems@.len() && old(self).systems@[j].destroyed_spec()
                    ==> final(self).systems@[j] == old(self).systems@[j],
    {
        let n = self.systems.len();
        for i in 0..n
            invariant
                n == self.systems.len(),
                n == old(self).systems@.len(),
                physics.wf(),
                arena_evolves(*old(physics), *physics),
                forall|j: int| i <= j < n ==> self.systems@[j] == old(self).systems@[j],
                forall|j: int|
                    0 <= j < i && old(self).systems@[j].destroyed_spec()
                        ==> self.systems@[j] == old(self).systems@[j],
        {
            let ghost vec_before = self.systems@;
            let sys = element_mut(&mut self.systems, i);
            if !sys.is_destroyed() {
                let ghost mid = *physics;
                sys.update_objects();
                let mode = channel.mode;
                match mode {
                    NetworkingMode::Server => sys.server_update(physics, channel),
                    NetworkingMode::Client => sys.client_update(physics, channel, input),
                }
                proof {
                    lemma_evolves_transitive(*old(physics), mid, *physics);
                }
            } else {
                proof {
                    assert(vec_before.update(i as int, vec_before[i as int]) =~= vec_before);
                }
            }
        }
    }

    /// Runs the draw hooks of the current role on every system that is not
    /// destroyed.
    pub fn render(&mut self, mode: NetworkingMode)
        ensures
            final(self).systems@.len() == old(self).systems@.len(),
            forall|j: int|
                0 <= j < old(self).systems@.len() && old(self).systems@[j].destroyed_spec()
                    ==> final(self).systems@[j] == old(self).systems@[j],
    {
        let n = self.systems.len();
        for i in 0..n
            invariant
                n == self.systems.len(),
                n == old(self).systems@.len(),
                forall|j: int| i <= j < n ==> self.systems@[j] == old(self).systems@[j],
                forall|j: int|
                    0 <= j < i && old(self).systems@[j].destroyed_spec()
                        ==> self.systems@[j] == old(self).systems@[j],
        {
            let ghost vec_before = self.systems@;
            let sys = element_mut(&mut self.systems, i);
            if !sys.is_destroyed() {
                match mode {
                    NetworkingMode::Server => sys.server_render(),
                    NetworkingMode::Client => sys.client_render(),
                }
                sys.render_objects();
            } else {
                proof {
                    assert(vec_before.update(i as int, vec_before[i as int]) =~= vec_before);
                }
            }
        }
    }

    /// Routes one inbound message to the first system whose identifier
    /// matches its originating system, and reports whether one was found.
    pub fn dispatch_message(&mut self, message: Message) -> (delivered: bool)
        ensures
            registry_model(final(self).systems@) == spec_dispatch::<S>(
                registry_model(old(self).systems@),
                message,
            ),
            delivered == spec_has_system(registry_model(old(self).systems@), message.system_id@),
            final(self).systems@.len() == old(self).systems@.len(),
    {
        let ghost ss = old(self).systems@;
        let ghost ms = registry_model(old(self).systems@);
        let ghost msg = message;
        match route_index(&self.systems, &message) {
            Some(i) => {
                let sys = element_mut(&mut self.systems, i);
                sys.reg_message(message);
                proof {
                    assert(self.systems@ =~= ss.update(i as int, self.systems@[i as int]));
                    assert forall|j: int| 0 <= j < i implies (#[trigger] ms[j].id)
                        != msg.system_id@ by {
                        assert(ss[j].id_spec() != msg.system_id@);
                    }
                    lemma_dispatch_skip::<S>(ms, msg, i as int);
                    let s = ms.subrange(i as int, ms.len() as int);
                    assert(s[0] == ms[i as int]);
                    assert(s[0].id == msg.system_id@);
                    assert(spec_dispatch::<S>(s, msg) == s.update(
                        0,
                        SystemModel { objects: S::reg_message_model(s[0].objects, msg), ..s[0] },
                    ));
                    assert(registry_model(self.systems@) =~= spec_dispatch::<S>(ms, msg));
                    assert(ms[i as int].id == msg.system_id@);
                    assert(spec_has_system(ms, msg.system_id@));
                }
                true
            },
            None => {
                proof {
                    lemma_dispatch_no_target::<S>(ms, msg);
                    assert(registry_model(self.systems@) =~= ms);
                }
                false
            },
        }
    }

    /// Routes a queue of inbound messages in order, each to its target
    /// system's message handler, earlier messages strictly before later
    /// ones.
    pub fn dispatch_all(&mut self, messages: Vec<Message>)
        ensures
            registry_model(final(self).systems@) == spec_dispatch_all::<S>(
                registry_model(old(self).systems@),
                messages@,
            ),
            final(self).systems@.len() == old(self).systems@.len(),
    {
        let mut messages = messages;
        let ghost all = messages@;
        let ghost done: Seq<Message> = Seq::empty();
        let ghost ms = registry_model(old(self).systems@);
        proof {
            assert(spec_dispatch_all::<S>(ms, done) == ms);
        }
        while messages.len() > 0
            invariant
                done + messages@ == all,
                registry_model(self.systems@) == spec_dispatch_all::<S>(ms, done),
                self.systems@.len() == old(self).systems@.len(),
            decreases messages@.len(),
        {
            let m = messages.remove(0);
            let ghost mm = m;
            proof {
                assert(done.push(mm) + messages@ =~= all);
                lemma_dispatch_all_push::<S>(ms, done, mm);
            }
            let ghost done_next = done.push(mm);
            self.dispatch_message(m);
            proof {
                done = done_next;
            }
        }
        proof {
            assert(done =~= all);
        }
    }
}


/// Releases a detached subtree: removes every entity's physics body from
/// the world and drops every entity's identity entries, the node itself
/// first, then its children.
fn release_subtree(
    object: &mut EmptyObject,
    registry: &mut IdentityRegistry,
    physics: &mut PhysicsWorld,
)
    requires
        old(physics).wf(),
    ensures
        final(physics).wf(),
        arena_evolves(*old(physics), *final(physics)),
        final(registry).next_id == old(registry).next_id,
        match old(object).body_parameters {
            Some(bp) => match bp.rigid_body_handle {
                Some(h) => old(physics).body_handle_valid(h)
                    ==> final(physics).body_handle_retired(h),
                None => true,
            },
            None => true,
        },
    decreases old(object).model(),
{
    let ghost om = old(object).model();
    let bundle_opt = object.get_body_parameters();
    if let Some(bp) = bundle_opt {
        let mut bundle = bp;
        remove_rigid_body(physics, &mut bundle);
    }
    let id_value = object.get_id().value;
    registry.unregister_object_id(id_value);
    let ghost mid = *physics;
    proof {
        assert(decreases_to!(om => om.children));
    }
    release_children(&mut object.children, registry, physics);
    proof {
        lemma_evolves_transitive(*old(physics), mid, *physics);
        match om.body {
            Some(bp) => {
                match bp.rigid_body_handle {
                    Some(h) => {
                        if old(physics).body_handle_valid(h) {
                            crate::physics::lemma_evolves_preserves_body_retired(
                                mid,
                                *physics,
                                h,
                            );
                        }
                    },
                    None => {},
                }
            },
            None => {},
        }
    }
}

/// Releases every subtree in a detached child list, last child first.
fn release_children(
    children: &mut Vec<EmptyObject>,
    registry: &mut IdentityRegistry,
    physics: &mut PhysicsWorld,
)
    requires
        old(physics).wf(),
    ensures
        final(physics).wf(),
        arena_evolves(*old(physics), *final(physics)),
        final(registry).next_id == old(registry).next_id,
    decreases EmptyObject::models(old(children)@),
{
    proof {
        lemma_models_index(old(children)@);
    }
    if children.len() == 0 {
        return ;
    }
    let ghost orig = old(children)@;
    let ghost k = orig.len() - 1;
    let popped = children.pop();
    let mut c = match popped {
        Some(c) => c,
        None => {
            return ;
        },
    };
    proof {
        assert(c == orig[k]);
        assert(c.model() == EmptyObject::models(orig)[k]);
        assert(decreases_to!(EmptyObject::models(orig) => EmptyObject::models(orig)[k]));
    }
    release_subtree(&mut c, registry, physics);
    let ghost mid = *physics;
    proof {
        lemma_models_index(children@);
        assert(EmptyObject::models(children@) =~= EmptyObject::models(orig).subrange(0, k));
        assert(decreases_to!(EmptyObject::models(orig) => EmptyObject::models(orig).subrange(
            0,
            k,
        )));
    }
    release_children(children, registry, physics);
    proof {
        lemma_evolves_transitive(*old(physics), mid, *physics);
    }
}

/// Removes the first depth-first match of `object_name` from a sibling
/// list, releasing the removed subtree's bodies and identity entries.
pub fn remove_object_in(
    objs: &mut Vec<EmptyObject>,
    object_name: &str,
    registry: &mut IdentityRegistry,
    physics: &mut PhysicsWorld,
) -> (removed: bool)
    requires
        old(physics).wf(),
    ensures
        final(physics).wf(),
        arena_evolves(*old(physics), *final(physics)),
        removed == (spec_find(EmptyObject::models(old(objs)@), object_name@) is Some),
        EmptyObject::models(final(objs)@) == spec_remove_first(
            EmptyObject::models(old(objs)@),
            object_name@,
        ),
        final(registry).next_id == old(registry).next_id,
        !removed ==> *final(physics) == *old(physics) && *final(registry) == *old(registry),
    decreases EmptyObject::models(old(objs)@),
{
    let query: String = object_name.to_owned();
    let ghost ms = EmptyObject::models(old(objs)@);
    proof {
        lemma_models_index(old(objs)@);
    }
    let n = objs.len();
    for i in 0..n
        invariant
            n == objs.len(),
            n == old(objs)@.len(),
            query@ == object_name@,
            ms == EmptyObject::models(old(objs)@),
            ms.len() == n,
            *physics == *old(physics),
            *registry == *old(registry),
            physics.wf(),
            forall|j: int| 0 <= j < n ==> ms[j] == old(objs)@[j].model(),
            forall|j: int| i <= j < n ==> objs@[j] == old(objs)@[j],
            forall|j: int| 0 <= j < i ==> (#[trigger] objs@[j]).model() == ms[j],
            forall|j: int| 0 <= j < i ==> spec_no_match(#[trigger] ms[j], object_name@),
    {
        if objs[i].name == query {
            let ghost before = objs@;
            let mut removed_entity = objs.remove(i);
            release_subtree(&mut removed_entity, registry, physics);
            proof {
                lemma_models_index(before);
                lemma_models_remove(before, i as int);
                assert(EmptyObject::models(before) =~= ms);
                crate::objects::lemma_find_skip(ms, object_name@, i as int);
                lemma_remove_skip(ms, object_name@, i as int);
                let s = ms.subrange(i as int, ms.len() as int);
                assert(s[0] == ms[i as int]);
                assert(spec_find(s, object_name@) == Some(ms[i as int]));
                assert(spec_remove_first(s, object_name@) == s.subrange(1, s.len() as int));
                assert(s.subrange(1, s.len() as int) =~= ms.subrange(i + 1, ms.len() as int));
                assert(spec_remove_first(ms, object_name@) =~= ms.remove(i as int));
                assert(objs@ == before.remove(i as int));
                assert(EmptyObject::models(objs@) == ms.remove(i as int));
            }
            return true;
        }
        proof {
            assert(decreases_to!(ms => ms[i as int]));
            assert(decreases_to!(ms[i as int] => ms[i as int].children));
            assert(decreases_to!(ms => ms[i as int].children));
        }
        let ghost before = objs@;
        let sys = element_mut(objs, i);
        let child_removed = sys.remove_object(object_name, registry, physics);
        if child_removed {
            proof {
                lemma_models_index(before);
                assert(objs@ =~= before.update(i as int, objs@[i as int]));
                assert(objs@[i as int].model() == ObjectModel {
                    children: spec_remove_first(ms[i as int].children, object_name@),
                    ..ms[i as int]
                });
                crate::objects::lemma_models_update(before, i as int, objs@[i as int]);
                assert(EmptyObject::models(before) =~= ms);
                crate::objects::lemma_find_skip(ms, object_name@, i as int);
                lemma_remove_skip(ms, object_name@, i as int);
                let s = ms.subrange(i as int, ms.len() as int);
                assert(s[0] == ms[i as int]);
                assert(spec_find(ms[i as int].children, object_name@) is Some);
                assert(spec_find(s, object_name@) is Some);
                assert(spec_remove_first(s, object_name@) == s.update(
                    0,
                    ObjectModel {
                        children: spec_remove_first(s[0].children, object_name@),
                        ..s[0]
                    },
                ));
                assert(spec_remove_first(ms, object_name@) =~= ms.update(
                    i as int,
                    ObjectModel {
                        children: spec_remove_first(ms[i as int].children, object_name@),
                        ..ms[i as int]
                    },
                ));
                assert(EmptyObject::models(objs@) =~= spec_remove_first(ms, object_name@));
            }
            return true;
        }
        proof {
            lemma_remove_not_found(ms[i as int].children, object_name@);
            assert(objs@[i as int].model() =~= ms[i as int]);
            assert(spec_no_match(ms[i as int], object_name@));
        }
    }
    proof {
        crate::objects::lemma_find_skip(ms, object_name@, n as int);
        assert(ms.subrange(n as int, n as int) =~= Seq::<ObjectModel>::empty());
        lemma_remove_not_found(ms, object_name@);
        lemma_models_index(objs@);
        assert(EmptyObject::models(objs@) =~= ms);
    }
    false
}

impl EmptyObject {
    /// Removes the first depth-first match of `object_name` among this
    /// entity's descendants, releasing the removed subtree.
    pub fn remove_object(
        &mut self,
        object_name: &str,
        registry: &mut IdentityRegistry,
        physics: &mut PhysicsWorld,
    ) -> (removed: bool)
        requires
            old(physics).wf(),
        ensures
            final(physics).wf(),
            arena_evolves(*old(physics), *final(physics)),
            removed == (spec_find(old(self).model().children, object_name@) is Some),
            final(self).model() == (ObjectModel {
                children: spec_remove_first(old(self).model().children, object_name@),
                ..old(self).model()
            }),
            final(registry).next_id == old(registry).next_id,
            !removed ==> *final(physics) == *old(physics) && *final(registry) == *old(registry),
        decreases old(self).model(),
    {
        proof {
            assert(decreases_to!(old(self).model() => old(self).model().children));
        }
        let removed = remove_object_in(&mut self.children, object_name, registry, physics);
        proof {
            assert(self.model() =~= ObjectModel {
                children: spec_remove_first(old(self).model().children, object_name@),
                ..old(self).model()
            });
        }
        removed
    }
}

} // verus!
