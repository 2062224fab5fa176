//! Simulated entities and their hierarchy.
//!
//! An entity owns a name, a local transform, an optional snapshot of its
//! parent's world transform, an optional physics handle bundle and an ordered
//! list of child entities.  The ghost type [`ObjectModel`] mirrors this
//! structure with mathematical sequences; every tree operation is specified
//! against it.

use vstd::prelude::*;
use crate::physics::{ObjectBodyParameters, spec_render_collider_with_transform};
use crate::transform::{spec_compose, spec_default_transform, spec_vec_add, Transform, Vec3};

verus! {

/// Identifier of an entity, stable for the entity's lifetime.
#[derive(Clone, Copy, Debug, PartialEq, Eq, Structural)]
pub struct ObjectId {
    pub value: u64,
}

/// An entity node: the concrete, executable tree.
pub struct EmptyObject {
    pub name: String,
    pub transform: Transform,
    pub parent_transform: Option<Transform>,
    pub children: Vec<EmptyObject>,
    pub body_parameters: Option<ObjectBodyParameters>,
    pub id: ObjectId,
}

/// The mathematical image of an entity subtree.
pub ghost struct ObjectModel {
    pub name: Seq<char>,
    pub id: u64,
    pub local: Transform,
    pub parent_world: Option<Transform>,
    pub body: Option<ObjectBodyParameters>,
    pub children: Seq<ObjectModel>,
}

impl EmptyObject {
    /// The model of this entity and its whole subtree.
    pub open spec fn model(self) -> ObjectModel
        decreases self, 1int,
    {
        ObjectModel {
            name: self.name@,
            id: self.id.value,
            local: self.transform,
            parent_world: self.parent_transform,
            body: self.body_parameters,
            children: {
                proof {
                    assert(decreases_to!(self => self.children));
                    assert(decreases_to!(self.children => self.children@));
                }
                Self::models(self.children@)
            },
        }
    }

    /// The models of a sequence of entities, in order.
    pub open spec fn models(cs: Seq<EmptyObject>) -> Seq<ObjectModel>
        decreases cs, 0int,
    {
        if cs.len() == 0 {
            Seq::empty()
        } else {
            proof {
                assert(decreases_to!(cs => cs[0]));
                assert(decreases_to!(cs => cs.subrange(1, cs.len() as int)));
            }
            Self::models(cs.subrange(1, cs.len() as int)).insert(0, cs[0].model())
        }
    }
}

/// `models` maps a sequence pointwise.
pub proof fn lemma_models_index(cs: Seq<EmptyObject>)
    ensures
        EmptyObject::models(cs).len() == cs.len(),
        forall|i: int| 0 <= i < cs.len() ==> EmptyObject::models(cs)[i] == cs[i].model(),
    decreases cs.len(),
{
    if cs.len() > 0 {
        let tail = cs.subrange(1, cs.len() as int);
        lemma_models_index(tail);
        assert forall|i: int| 0 <= i < cs.len() implies EmptyObject::models(cs)[i]
            == cs[i].model() by {
            if i > 0 {
                assert(tail[i - 1] == cs[i]);
            }
        }
    }
}

/// The world transform a local transform takes under an optional parent
/// world transform.
pub open spec fn spec_world_under(parent_world: Option<Transform>, local: Transform) -> Transform {
    match parent_world {
        Some(p) => spec_compose(p, local),
        None => local,
    }
}

/// The world transform of a node, derived from its stored parent snapshot.
pub open spec fn spec_world_of(m: ObjectModel) -> Transform {
    spec_world_under(m.parent_world, m.local)
}

/// A handle bundle after its render-only collider descriptor is synced to a
/// world transform.
pub open spec fn spec_synced_body(
    body: Option<ObjectBodyParameters>,
    world: Transform,
) -> Option<ObjectBodyParameters> {
    match body {
        Some(bp) => Some(
            ObjectBodyParameters {
                render_collider_type: match bp.render_collider_type {
                    Some(rc) => Some(
                        spec_render_collider_with_transform(rc, world.position, world.rotation),
                    ),
                    None => None,
                },
                ..bp
            },
        ),
        None => None,
    }
}

/// One node after the transform pass: its parent snapshot is overwritten,
/// its render collider is synced to its new world transform, and its
/// children are propagated under that world transform.
pub open spec fn spec_propagated_node(m: ObjectModel, parent_world: Option<Transform>) -> ObjectModel
    decreases m, 1int,
{
    ObjectModel {
        parent_world,
        body: spec_synced_body(m.body, spec_world_under(parent_world, m.local)),
        children: {
            proof {
                assert(decreases_to!(m => m.children));
            }
            spec_propagated_seq(m.children, spec_world_under(parent_world, m.local))
        },
        ..m
    }
}

/// A sequence of sibling nodes after the transform pass, each under the same
/// parent world transform.
pub open spec fn spec_propagated_seq(ms: Seq<ObjectModel>, parent_world: Transform) -> Seq<
    ObjectModel,
>
    decreases ms, 0int,
{
    if ms.len() == 0 {
        Seq::empty()
    } else {
        proof {
            assert(decreases_to!(ms => ms[0]));
            assert(decreases_to!(ms => ms.subrange(1, ms.len() as int)));
        }
        spec_propagated_seq(ms.subrange(1, ms.len() as int), parent_world).insert(
            0,
            spec_propagated_node(ms[0], Some(parent_world)),
        )
    }
}

/// `spec_propagated_seq` maps a sequence pointwise.
pub proof fn lemma_propagated_seq_index(ms: Seq<ObjectModel>, parent_world: Transform)
    ensures
        spec_propagated_seq(ms, parent_world).len() == ms.len(),
        forall|i: int|
            0 <= i < ms.len() ==> spec_propagated_seq(ms, parent_world)[i]
                == spec_propagated_node(ms[i], Some(parent_world)),
    decreases ms.len(),
{
    if ms.len() > 0 {
        let tail = ms.subrange(1, ms.len() as int);
        lemma_propagated_seq_index(tail, parent_world);
        assert forall|i: int| 0 <= i < ms.len() implies spec_propagated_seq(ms, parent_world)[i]
            == spec_propagated_node(ms[i], Some(parent_world)) by {
            if i > 0 {
                assert(tail[i - 1] == ms[i]);
            }
        }
    }
}

impl EmptyObject {
    /// A fresh entity: default transform, no parent snapshot, no physics
    /// binding, no children, identifier zero until a system registers it.
    pub fn new(name: &str) -> (r: EmptyObject)
        ensures
            r.model() == (ObjectModel {
                name: name@,
                id: 0,
                local: spec_default_transform(),
                parent_world: None,
                body: None,
                children: Seq::empty(),
            }),
    {
        EmptyObject {
            name: name.to_owned(),
            transform: Transform::default(),
            parent_transform: None,
            children: Vec::new(),
            body_parameters: None,
            id: ObjectId { value: 0 },
        }
    }

    /// Lifecycle hook invoked once when the entity joins a system's tree.
    pub fn start(&mut self)
        ensures
            *final(self) == *old(self),
    {
    }

    /// Per-tick logic hook; the bare entity has none.
    pub fn update(&mut self)
        ensures
            *final(self) == *old(self),
    {
    }

    /// Runs the logic hook of every child, depth first.
    pub fn update_children(&mut self)
        ensures
            *final(self) == *old(self),
    {
    }

    /// Draw hook; the bare entity draws nothing.
    pub fn render(&mut self)
        ensures
            *final(self) == *old(self),
    {
    }

    /// Draw hook for the subtree; the bare entity draws nothing.
    pub fn render_children(&mut self)
        ensures
            *final(self) == *old(self),
    {
    }

    /// Debug-draw hook; the bare entity draws nothing.
    pub fn debug_render(&mut self)
        ensures
            *final(self) == *old(self),
    {
    }

    /// The entity's children, read-only.
    pub fn get_children_list(&self) -> (r: &Vec<EmptyObject>)
        ensures
            r == self.children,
    {
        &self.children
    }

    /// The entity's children, for mutation.
    pub fn get_children_list_mut(&mut self) -> (r: &mut Vec<EmptyObject>)
        ensures
            *r == old(self).children,
            *final(self) == (EmptyObject { children: *final(r), ..*old(self) }),
    {
        &mut self.children
    }

    /// Appends a child entity.
    pub fn add_child(&mut self, child: EmptyObject)
        ensures
            final(self).children@ == old(self).children@.push(child),
            final(self).name == old(self).name,
            final(self).transform == old(self).transform,
            final(self).parent_transform == old(self).parent_transform,
            final(self).body_parameters == old(self).body_parameters,
            final(self).spec_id() == old(self).spec_id(),
    {
        self.children.push(child);
    }

    /// The entity's display name.
    pub fn get_name(&self) -> (r: &str)
        ensures
            r@ == self.name@,
    {
        self.name.as_str()
    }

    /// The fixed name of this entity kind.
    pub fn get_object_type(&self) -> (r: &str)
        ensures
            r@ == "EmptyObject"@,
    {
        "EmptyObject"
    }

    /// Renames the entity.
    pub fn set_name(&mut self, name: &str)
        ensures
            *final(self) == (EmptyObject { name: final(self).name, ..*old(self) }),
            final(self).name@ == name@,
    {
        self.name = name.to_owned();
    }

    /// The entity's local transform.
    pub fn get_local_transform(&self) -> (r: Transform)
        ensures
            r == self.transform,
    {
        self.transform
    }

    /// Overwrites the entity's local transform.
    pub fn set_local_transform(&mut self, transform: Transform)
        ensures
            *final(self) == (EmptyObject { transform, ..*old(self) }),
    {
        self.transform = transform;
    }

    /// The stored snapshot of the parent's world transform.
    pub fn get_parent_transform(&self) -> (r: Option<Transform>)
        ensures
            r == self.parent_transform,
    {
        self.parent_transform
    }

    /// Stores a snapshot of the parent's world transform.
    pub fn set_parent_transform(&mut self, transform: Transform)
        ensures
            *final(self) == (EmptyObject { parent_transform: Some(transform), ..*old(self) }),
    {
        self.parent_transform = Some(transform);
    }

    /// Replaces the entity's identifier.
    pub fn set_id(&mut self, object_id: ObjectId)
        ensures
            *final(self) == (EmptyObject { id: object_id, ..*old(self) }),
            final(self).spec_id() == object_id,
    {
        self.id = object_id;
    }

    /// The entity's identifier.
    pub fn get_id(&self) -> (r: &ObjectId)
        ensures
            *r == self.spec_id(),
    {
        &self.id
    }

    /// The identifier, for specification purposes.
    pub closed spec fn spec_id(self) -> ObjectId {
        self.id
    }

    /// The entity's physics handle bundle.
    pub fn get_body_parameters(&self) -> (r: Option<ObjectBodyParameters>)
        ensures
            r == self.body_parameters,
    {
        self.body_parameters
    }

    /// Replaces the entity's physics handle bundle.
    pub fn set_body_parameters(&mut self, body_parameters: Option<ObjectBodyParameters>)
        ensures
            *final(self) == (EmptyObject { body_parameters, ..*old(self) }),
    {
        self.body_parameters = body_parameters;
    }

    /// Named-action hook for scripts and debugging; the bare entity answers
    /// no calls.
    pub fn call(&mut self, name: &str, args: Vec<&str>) -> (r: Option<&str>)
        ensures
            r is None,
            *final(self) == *old(self),
    {
        let _ = name;
        let _ = args;
        None
    }

    /// Runs the transform pass over this subtree, taking the given parent
    /// world snapshot.
    pub fn propagate_transform(&mut self, parent_world: Option<Transform>)
        ensures
            final(self).model() == spec_propagated_node(old(self).model(), parent_world),
        decreases *old(self),
    {
        self.parent_transform = parent_world;
        let world = match parent_world {
            Some(p) => self.transform.compose_with(p),
            None => self.transform,
        };
        match &mut self.body_parameters {
            Some(bp) => {
                match &mut bp.render_collider_type {
                    Some(rc) => {
                        rc.set_transform(world.position, world.rotation);
                    },
                    None => {},
                }
            },
            None => {},
        }
        let ghost mids = *self;
        let n = self.children.len();
        for i in 0..n
            invariant
                n == self.children.len(),
                n == old(self).children@.len(),
                self.name@ == old(self).name@,
                self.transform == old(self).transform,
                self.parent_transform == parent_world,
                self.id == old(self).spec_id(),
                self.body_parameters == spec_synced_body(
                    old(self).body_parameters,
                    spec_world_under(parent_world, old(self).transform),
                ),
                world == spec_world_under(parent_world, old(self).transform),
                forall|j: int| i <= j < n ==> self.children@[j] == old(self).children@[j],
                forall|j: int|
                    0 <= j < i ==> self.children@[j].model() == spec_propagated_node(
                        old(self).children@[j].model(),
                        Some(world),
                    ),
        {
            proof {
                assert(self.children@[i as int] == old(self).children@[i as int]);
                assert(decreases_to!(*old(self) => old(self).children));
                assert(decreases_to!(old(self).children => old(self).children@[i as int]));
                assert(decreases_to!(*old(self) => self.children@[i as int]));
            }
            self.children[i].propagate_transform(Some(world));
        }
        proof {
            lemma_models_index(self.children@);
            lemma_models_index(old(self).children@);
            lemma_propagated_seq_index(old(self).model().children, world);
            assert(self.model().children =~= spec_propagated_node(
                old(self).model(),
                parent_world,
            ).children);
            assert(self.model() =~= spec_propagated_node(old(self).model(), parent_world));
        }
    }

    /// Runs the transform pass for this entity as a tree root: its own
    /// stored parent snapshot is kept and its subtree is recomputed below
    /// it.
    pub fn update_transform(&mut self)
        ensures
            final(self).model() == spec_propagated_node(
                old(self).model(),
                old(self).model().parent_world,
            ),
    {
        let parent_world = self.parent_transform;
        self.propagate_transform(parent_world);
    }
}


/// Depth-first, self-before-children search: the first node whose name
/// matches, or `None`.  Duplicate names resolve to the first match in
/// traversal order.
pub open spec fn spec_find(ms: Seq<ObjectModel>, name: Seq<char>) -> Option<ObjectModel>
    decreases ms,
{
    if ms.len() == 0 {
        None
    } else if ms[0].name == name {
        Some(ms[0])
    } else {
        proof {
            assert(decreases_to!(ms => ms[0]));
            assert(decreases_to!(ms[0] => ms[0].children));
            assert(decreases_to!(ms => ms[0].children));
            assert(decreases_to!(ms => ms.subrange(1, ms.len() as int)));
        }
        match spec_find(ms[0].children, name) {
            Some(m) => Some(m),
            None => spec_find(ms.subrange(1, ms.len() as int), name),
        }
    }
}

/// A node whose own name does not match and whose subtree holds no match.
pub open spec fn spec_no_match(m: ObjectModel, name: Seq<char>) -> bool {
    m.name != name && spec_find(m.children, name) is None
}

/// A node after its local transform is overwritten.
pub open spec fn spec_with_local(m: ObjectModel, t: Transform) -> ObjectModel {
    ObjectModel { local: t, ..m }
}

/// The tree after the first depth-first match of `name` has its local
/// transform overwritten with `t`; unchanged when there is no match.
pub open spec fn spec_apply_sync(ms: Seq<ObjectModel>, name: Seq<char>, t: Transform) -> Seq<
    ObjectModel,
>
    decreases ms,
{
    if ms.len() == 0 {
        ms
    } else if ms[0].name == name {
        ms.update(0, spec_with_local(ms[0], t))
    } else if spec_find(ms[0].children, name) is Some {
        proof {
            assert(decreases_to!(ms => ms[0]));
            assert(decreases_to!(ms[0] => ms[0].children));
            assert(decreases_to!(ms => ms[0].children));
        }
        ms.update(0, ObjectModel { children: spec_apply_sync(ms[0].children, name, t), ..ms[0] })
    } else {
        proof {
            assert(decreases_to!(ms => ms.subrange(1, ms.len() as int)));
        }
        spec_apply_sync(ms.subrange(1, ms.len() as int), name, t).insert(0, ms[0])
    }
}

/// Searching may skip over any clear prefix.
pub proof fn lemma_find_skip(ms: Seq<ObjectModel>, name: Seq<char>, i: int)
    requires
        0 <= i <= ms.len(),
        forall|j: int| 0 <= j < i ==> spec_no_match(#[trigger] ms[j], name),
    ensures
        spec_find(ms, name) == spec_find(ms.subrange(i, ms.len() as int), name),
    decreases i,
{
    if i == 0 {
        assert(ms.subrange(0, ms.len() as int) =~= ms);
    } else {
        lemma_find_skip(ms, name, i - 1);
        let s = ms.subrange(i - 1, ms.len() as int);
        assert(s[0] == ms[i - 1]);
        assert(spec_no_match(ms[i - 1], name));
        assert(s.subrange(1, s.len() as int) =~= ms.subrange(i, ms.len() as int));
        assert(spec_find(s, name) == spec_find(s.subrange(1, s.len() as int), name));
    }
}

/// Applying a sync may skip over any clear prefix.
pub proof fn lemma_apply_skip(ms: Seq<ObjectModel>, name: Seq<char>, t: Transform, i: int)
    requires
        0 <= i <= ms.len(),
        forall|j: int| 0 <= j < i ==> spec_no_match(#[trigger] ms[j], name),
    ensures
        spec_apply_sync(ms, name, t) == ms.subrange(0, i) + spec_apply_sync(
            ms.subrange(i, ms.len() as int),
            name,
            t,
        ),
    decreases i,
{
    if i == 0 {
        assert(ms.subrange(0, 0) + spec_apply_sync(ms.subrange(0, ms.len() as int), name, t)
            =~= spec_apply_sync(ms, name, t)) by {
            assert(ms.subrange(0, ms.len() as int) =~= ms);
        }
    } else {
        lemma_apply_skip(ms, name, t, i - 1);
        let s = ms.subrange(i - 1, ms.len() as int);
        assert(s[0] == ms[i - 1]);
        assert(s.subrange(1, s.len() as int) =~= ms.subrange(i, ms.len() as int));
        assert(spec_apply_sync(s, name, t) == spec_apply_sync(
            ms.subrange(i, ms.len() as int),
            name,
            t,
        ).insert(0, ms[i - 1]));
        assert(ms.subrange(0, i - 1) + spec_apply_sync(s, name, t) =~= ms.subrange(0, i)
            + spec_apply_sync(ms.subrange(i, ms.len() as int), name, t));
    }
}

/// When nothing matches, applying a sync changes nothing.
pub proof fn lemma_apply_not_found(ms: Seq<ObjectModel>, name: Seq<char>, t: Transform)
    requires
        spec_find(ms, name) is None,
    ensures
        spec_apply_sync(ms, name, t) == ms,
    decreases ms,
{
    if ms.len() > 0 {
        assert(ms[0].name != name);
        assert(spec_find(ms[0].children, name) is None);
        lemma_apply_not_found(ms.subrange(1, ms.len() as int), name, t);
        assert(spec_apply_sync(ms, name, t) =~= ms);
    }
}


/// `models` of a pointwise update is a pointwise update of `models`.
pub proof fn lemma_models_update(cs: Seq<EmptyObject>, i: int, v: EmptyObject)
    requires
        0 <= i < cs.len(),
    ensures
        EmptyObject::models(cs.update(i, v)) == EmptyObject::models(cs).update(i, v.model()),
{
    lemma_models_index(cs);
    lemma_models_index(cs.update(i, v));
    assert(EmptyObject::models(cs.update(i, v)) =~= EmptyObject::models(cs).update(i, v.model()));
}

impl EmptyObject {
    /// Depth-first search of this entity's descendants for the first one
    /// named `object_name`.
    pub fn find_object<'a>(&'a self, object_name: &str) -> (r: Option<&'a EmptyObject>)
        ensures
            match r {
                Some(o) => spec_find(self.model().children, object_name@) == Some(o.model()),
                None => spec_find(self.model().children, object_name@) is None,
            },
        decreases *self,
    {
        proof {
            assert(decreases_to!(*self => self.children));
            assert(decreases_to!(self.children => self.children@));
            assert(decreases_to!(*self => self.children@));
        }
        find_in(&self.children, object_name)
    }

    /// Overwrites the local transform of the first descendant named
    /// `object_name`, reporting whether one was found.
    pub fn apply_sync(&mut self, object_name: &str, t: Transform) -> (found: bool)
        ensures
            found == (spec_find(old(self).model().children, object_name@) is Some),
            final(self).model() == (ObjectModel {
                children: spec_apply_sync(old(self).model().children, object_name@, t),
                ..old(self).model()
            }),
        decreases old(self).model(),
    {
        proof {
            assert(decreases_to!(old(self).model() => old(self).model().children));
        }
        let found = apply_sync_in(&mut self.children, object_name, t);
        proof {
            assert(self.model() =~= ObjectModel {
                children: spec_apply_sync(old(self).model().children, object_name@, t),
                ..old(self).model()
            });
        }
        found
    }
}

/// Depth-first, self-before-children search over a sibling list, returning
/// a reference to the first entity named `object_name`.
pub fn find_in<'a>(objs: &'a Vec<EmptyObject>, object_name: &str) -> (r: Option<&'a EmptyObject>)
    ensures
        match r {
            Some(o) => spec_find(EmptyObject::models(objs@), object_name@) == Some(o.model()),
            None => spec_find(EmptyObject::models(objs@), object_name@) is None,
        },
    decreases objs@,
{
    let query: String = object_name.to_owned();
    let ghost ms = EmptyObject::models(objs@);
    proof {
        lemma_models_index(objs@);
    }
    let n = objs.len();
    for i in 0..n
        invariant
            n == objs.len(),
            query@ == object_name@,
            ms == EmptyObject::models(objs@),
            ms.len() == n,
            forall|j: int| 0 <= j < n ==> ms[j] == objs@[j].model(),
            forall|j: int| 0 <= j < i ==> spec_no_match(#[trigger] ms[j], object_name@),
    {
        if objs[i].name == query {
            proof {
                lemma_find_skip(ms, object_name@, i as int);
                let s = ms.subrange(i as int, ms.len() as int);
                assert(s[0] == ms[i as int]);
                assert(spec_find(s, object_name@) == Some(ms[i as int]));
            }
            return Some(&objs[i]);
        }
        proof {
            assert(decreases_to!(objs@ => objs@[i as int]));
        }
        let child_result = objs[i].find_object(object_name);
        match child_result {
            Some(o) => {
                proof {
                    lemma_find_skip(ms, object_name@, i as int);
                    let s = ms.subrange(i as int, ms.len() as int);
                    assert(s[0] == ms[i as int]);
                    assert(spec_find(ms[i as int].children, object_name@) == Some(o.model()));
                    assert(spec_find(s, object_name@) == Some(o.model()));
                }
                return Some(o);
            },
            None => {
                proof {
                    assert(spec_no_match(ms[i as int], object_name@));
                }
            },
        }
    }
    proof {
        lemma_find_skip(ms, object_name@, n as int);
        assert(ms.subrange(n as int, n as int) =~= Seq::<ObjectModel>::empty());
    }
    None
}

/// Overwrites the local transform of the first depth-first match in a
/// sibling list; the tree is otherwise untouched.
pub fn apply_sync_in(objs: &mut Vec<EmptyObject>, object_name: &str, t: Transform) -> (found: bool)
    ensures
        found == (spec_find(EmptyObject::models(old(objs)@), object_name@) is Some),
        EmptyObject::models(final(objs)@) == spec_apply_sync(
            EmptyObject::models(old(objs)@),
            object_name@,
            t,
        ),
    decreases EmptyObject::models(old(objs)@),
{
    let query: String = object_name.to_owned();
    let ghost ms = EmptyObject::models(old(objs)@);
    proof {
        lemma_models_index(old(objs)@);
    }
    let n = objs.len();
    for i in 0..n
        invariant
            n == objs.len(),
            n == old(objs)@.len(),
            query@ == object_name@,
            ms == EmptyObject::models(old(objs)@),
            ms.len() == n,
            forall|j: int| 0 <= j < n ==> ms[j] == old(objs)@[j].model(),
            forall|j: int| i <= j < n ==> objs@[j] == old(objs)@[j],
            forall|j: int| 0 <= j < i ==> (#[trigger] objs@[j]).model() == ms[j],
            forall|j: int| 0 <= j < i ==> spec_no_match(#[trigger] ms[j], object_name@),
    {
        if objs[i].name == query {
            let ghost before = objs@;
            objs[i].set_local_transform(t);
            proof {
                lemma_models_index(before);
                assert(objs@ =~= before.update(i as int, objs@[i as int]));
                assert(objs@[i as int].model() =~= spec_with_local(ms[i as int], t));
                lemma_models_update(before, i as int, objs@[i as int]);
                assert(EmptyObject::models(before) =~= ms);
                lemma_find_skip(ms, object_name@, i as int);
                lemma_apply_skip(ms, object_name@, t, i as int);
                let s = ms.subrange(i as int, ms.len() as int);
                assert(s[0] == ms[i as int]);
                assert(spec_find(s, object_name@) == Some(ms[i as int]));
                assert(spec_apply_sync(s, object_name@, t) == s.update(
                    0,
                    spec_with_local(s[0], t),
                ));
                assert(spec_apply_sync(ms, object_name@, t) =~= ms.update(
                    i as int,
                    spec_with_local(ms[i as int], t),
                ));
                assert(EmptyObject::models(objs@) =~= spec_apply_sync(ms, object_name@, t));
            }
            return true;
        }
        proof {
            assert(objs@[i as int] == old(objs)@[i as int]);
            assert(decreases_to!(ms => ms[i as int]));
            assert(decreases_to!(ms[i as int] => ms[i as int].children));
            assert(decreases_to!(ms => ms[i as int].children));
        }
        let ghost before = objs@;
        let child_found = objs[i].apply_sync(object_name, t);
        if child_found {
            proof {
                lemma_models_index(before);
                assert(objs@ =~= before.update(i as int, objs@[i as int]));
                assert(objs@[i as int].model() == ObjectModel {
                    children: spec_apply_sync(ms[i as int].children, object_name@, t),
                    ..ms[i as int]
                });
                lemma_models_update(before, i as int, objs@[i as int]);
                assert(EmptyObject::models(before) =~= ms);
                lemma_find_skip(ms, object_name@, i as int);
                lemma_apply_skip(ms, object_name@, t, i as int);
                let s = ms.subrange(i as int, ms.len() as int);
                assert(s[0] == ms[i as int]);
                assert(spec_find(ms[i as int].children, object_name@) is Some);
                assert(spec_find(s, object_name@) is Some);
                assert(spec_apply_sync(s, object_name@, t) == s.update(
                    0,
                    ObjectModel {
                        children: spec_apply_sync(s[0].children, object_name@, t),
                        ..s[0]
                    },
                ));
                assert(spec_apply_sync(ms, object_name@, t) =~= ms.update(
                    i as int,
                    ObjectModel {
                        children: spec_apply_sync(ms[i as int].children, object_name@, t),
                        ..ms[i as int]
                    },
                ));
                assert(EmptyObject::models(objs@) =~= spec_apply_sync(ms, object_name@, t));
            }
            return true;
        }
        proof {
            lemma_apply_not_found(ms[i as int].children, object_name@, t);
            assert(objs@[i as int].model() =~= ms[i as int]);
            assert(spec_no_match(ms[i as int], object_name@));
        }
    }
    proof {
        lemma_find_skip(ms, object_name@, n as int);
        assert(ms.subrange(n as int, n as int) =~= Seq::<ObjectModel>::empty());
        lemma_apply_not_found(ms, object_name@, t);
        lemma_models_index(objs@);
        assert(EmptyObject::models(objs@) =~= ms);
    }
    false
}

/// The transform of a node after its position is moved by `delta`.
pub open spec fn spec_moved_transform(local: Transform, delta: Vec3) -> Transform {
    Transform { position: spec_vec_add(local.position, delta), ..local }
}

/// Moves the first depth-first match by `delta`: its local position is
/// shifted, everything else is untouched.
pub fn move_object_in(objs: &mut Vec<EmptyObject>, object_name: &str, delta: Vec3) -> (found: bool)
    ensures
        found == (spec_find(EmptyObject::models(old(objs)@), object_name@) is Some),
        match spec_find(EmptyObject::models(old(objs)@), object_name@) {
            Some(m) => EmptyObject::models(final(objs)@) == spec_apply_sync(
                EmptyObject::models(old(objs)@),
                object_name@,
                spec_moved_transform(m.local, delta),
            ),
            None => final(objs)@ == old(objs)@,
        },
{
    let current = match find_in(objs, object_name) {
        Some(o) => Some(o.get_local_transform()),
        None => None,
    };
    match current {
        Some(local) => {
            let moved = Transform {
                position: local.position.add(delta),
                rotation: local.rotation,
                scale: local.scale,
            };
            apply_sync_in(objs, object_name, moved)
        },
        None => false,
    }
}


/// Applying a sync keeps the target findable.
pub proof fn lemma_find_after_apply(ms: Seq<ObjectModel>, name: Seq<char>, t: Transform)
    requires
        spec_find(ms, name) is Some,
    ensures
        spec_find(spec_apply_sync(ms, name, t), name) is Some,
    decreases ms,
{
    let a = spec_apply_sync(ms, name, t);
    if ms[0].name == name {
        assert(a == ms.update(0, spec_with_local(ms[0], t)));
        assert(a[0].name == name);
    } else if spec_find(ms[0].children, name) is Some {
        assert(decreases_to!(ms => ms[0]));
        assert(decreases_to!(ms[0] => ms[0].children));
        assert(decreases_to!(ms => ms[0].children));
        lemma_find_after_apply(ms[0].children, name, t);
        assert(a == ms.update(0, ObjectModel {
            children: spec_apply_sync(ms[0].children, name, t),
            ..ms[0]
        }));
        assert(a[0].name != name);
        assert(spec_find(a[0].children, name) is Some);
    } else {
        let tail = ms.subrange(1, ms.len() as int);
        assert(decreases_to!(ms => tail));
        assert(spec_find(tail, name) is Some);
        lemma_find_after_apply(tail, name, t);
        assert(a == spec_apply_sync(tail, name, t).insert(0, ms[0]));
        assert(a[0] == ms[0]);
        assert(a.subrange(1, a.len() as int) =~= spec_apply_sync(tail, name, t));
        assert(spec_find(a.subrange(1, a.len() as int), name) is Some);
    }
}

/// Applying the same sync payload twice leaves the tree exactly as one
/// application does.
pub proof fn lemma_sync_idempotent(ms: Seq<ObjectModel>, name: Seq<char>, t: Transform)
    ensures
        spec_apply_sync(spec_apply_sync(ms, name, t), name, t) == spec_apply_sync(ms, name, t),
    decreases ms,
{
    let a = spec_apply_sync(ms, name, t);
    if ms.len() == 0 {
        assert(a == ms);
    } else if ms[0].name == name {
        assert(a == ms.update(0, spec_with_local(ms[0], t)));
        assert(a[0] == spec_with_local(ms[0], t));
        assert(a[0].name == name);
        assert(spec_with_local(a[0], t) == a[0]);
        assert(spec_apply_sync(a, name, t) =~= a.update(0, spec_with_local(a[0], t)));
        assert(a.update(0, spec_with_local(a[0], t)) =~= a);
    } else if spec_find(ms[0].children, name) is Some {
        assert(decreases_to!(ms => ms[0]));
        assert(decreases_to!(ms[0] => ms[0].children));
        assert(decreases_to!(ms => ms[0].children));
        let ca = spec_apply_sync(ms[0].children, name, t);
        lemma_find_after_apply(ms[0].children, name, t);
        lemma_sync_idempotent(ms[0].children, name, t);
        assert(a == ms.update(0, ObjectModel { children: ca, ..ms[0] }));
        assert(a[0].name != name);
        assert(spec_find(a[0].children, name) is Some);
        assert(spec_apply_sync(a, name, t) == a.update(0, ObjectModel {
            children: spec_apply_sync(ca, name, t),
            ..a[0]
        }));
        assert(spec_apply_sync(ca, name, t) == ca);
        assert(a.update(0, ObjectModel { children: ca, ..a[0] }) =~= a);
    } else {
        let tail = ms.subrange(1, ms.len() as int);
        assert(decreases_to!(ms => tail));
        lemma_sync_idempotent(tail, name, t);
        assert(a == spec_apply_sync(tail, name, t).insert(0, ms[0]));
        assert(a.len() == spec_apply_sync(tail, name, t).len() + 1);
        assert(a[0] == ms[0]);
        assert(a[0].name != name);
        assert(spec_find(a[0].children, name) is None);
        assert(a.subrange(1, a.len() as int) =~= spec_apply_sync(tail, name, t));
        assert(spec_apply_sync(a, name, t) == spec_apply_sync(
            a.subrange(1, a.len() as int),
            name,
            t,
        ).insert(0, a[0]));
        assert(spec_apply_sync(a.subrange(1, a.len() as int), name, t) == spec_apply_sync(
            tail,
            name,
            t,
        ));
    }
}

/// A path into a forest: a sequence of child indices, the first indexing the
/// sibling list itself.
pub open spec fn spec_path_valid(ms: Seq<ObjectModel>, path: Seq<int>) -> bool
    decreases path.len(),
{
    if path.len() == 0 {
        true
    } else {
        &&& 0 <= path[0] < ms.len()
        &&& spec_path_valid(ms[path[0]].children, path.subrange(1, path.len() as int))
    }
}

/// The node a nonempty valid path leads to.
pub open spec fn spec_node_at(ms: Seq<ObjectModel>, path: Seq<int>) -> ObjectModel
    recommends
        path.len() > 0,
        spec_path_valid(ms, path),
    decreases path.len(),
{
    if path.len() <= 1 {
        ms[path[0]]
    } else {
        spec_node_at(ms[path[0]].children, path.subrange(1, path.len() as int))
    }
}

/// The composition of the local transforms along a path, folded root to
/// leaf under an optional starting parent world transform.
pub open spec fn spec_chain_world(
    parent_world: Option<Transform>,
    ms: Seq<ObjectModel>,
    path: Seq<int>,
) -> Transform
    recommends
        path.len() > 0,
        spec_path_valid(ms, path),
    decreases path.len(),
{
    if path.len() <= 1 {
        spec_world_under(parent_world, ms[path[0]].local)
    } else {
        spec_chain_world(
            Some(spec_world_under(parent_world, ms[path[0]].local)),
            ms[path[0]].children,
            path.subrange(1, path.len() as int),
        )
    }
}

/// After propagation under a parent world transform, the world transform of
/// every node is the composition of the locals along its path, root to
/// leaf, started at that parent transform.
pub proof fn lemma_propagated_world(ms: Seq<ObjectModel>, w: Transform, path: Seq<int>)
    requires
        path.len() > 0,
        spec_path_valid(ms, path),
    ensures
        spec_path_valid(spec_propagated_seq(ms, w), path),
        spec_world_of(spec_node_at(spec_propagated_seq(ms, w), path)) == spec_chain_world(
            Some(w),
            ms,
            path,
        ),
        spec_node_at(spec_propagated_seq(ms, w), path).local == spec_node_at(ms, path).local,
    decreases path.len(),
{
    let ps = spec_propagated_seq(ms, w);
    lemma_propagated_seq_index(ms, w);
    let p0 = path[0];
    let sub = path.subrange(1, path.len() as int);
    assert(ps[p0] == spec_propagated_node(ms[p0], Some(w)));
    let wp = spec_world_under(Some(w), ms[p0].local);
    if path.len() == 1 {
        assert(sub.len() == 0);
        assert(spec_path_valid(ps[p0].children, sub));
        assert(spec_path_valid(ps, path));
        assert(spec_world_of(ps[p0]) == wp);
    } else {
        assert(ps[p0].children == spec_propagated_seq(ms[p0].children, wp));
        lemma_propagated_world(ms[p0].children, wp, sub);
        lemma_path_valid_extend(ms, ps, path);
    }
}

/// Helper: validity of a path through a pointwise-propagated forest.
proof fn lemma_path_valid_extend(ms: Seq<ObjectModel>, ps: Seq<ObjectModel>, path: Seq<int>)
    requires
        path.len() > 1,
        spec_path_valid(ms, path),
        ps.len() == ms.len(),
        0 <= path[0] < ps.len(),
        spec_path_valid(
            ps[path[0]].children,
            path.subrange(1, path.len() as int),
        ),
    ensures
        spec_path_valid(ps, path),
{
}

/// Every root propagated below its own stored parent snapshot.
pub open spec fn spec_propagated_roots(ms: Seq<ObjectModel>) -> Seq<ObjectModel> {
    Seq::new(ms.len(), |i: int| spec_propagated_node(ms[i], ms[i].parent_world))
}

/// After the transform pass over a forest of roots, the world transform of
/// every node equals its local transform composed under every ancestor's
/// local transform, root to leaf, starting from its root's stored parent
/// snapshot.
pub proof fn lemma_transform_pass_composes(ms: Seq<ObjectModel>, path: Seq<int>)
    requires
        path.len() > 0,
        spec_path_valid(ms, path),
    ensures
        spec_path_valid(spec_propagated_roots(ms), path),
        spec_world_of(spec_node_at(spec_propagated_roots(ms), path)) == spec_chain_world(
            ms[path[0]].parent_world,
            ms,
            path,
        ),
{
    let ps = spec_propagated_roots(ms);
    let p0 = path[0];
    let sub = path.subrange(1, path.len() as int);
    assert(ps[p0] == spec_propagated_node(ms[p0], ms[p0].parent_world));
    let pw = ms[p0].parent_world;
    let wp = spec_world_under(pw, ms[p0].local);
    if path.len() == 1 {
        assert(sub.len() == 0);
        assert(spec_path_valid(ps[p0].children, sub));
        assert(spec_path_valid(ps, path));
        assert(spec_world_of(ps[p0]) == wp);
    } else {
        assert(ps[p0].children == spec_propagated_seq(ms[p0].children, wp));
        lemma_propagated_world(ms[p0].children, wp, sub);
        lemma_path_valid_extend(ms, ps, path);
    }
}

/// Runs the transform pass over a forest of root entities, each below its
/// own stored parent snapshot.
pub fn propagate_all(objs: &mut Vec<EmptyObject>)
    ensures
        EmptyObject::models(final(objs)@) == spec_propagated_roots(
            EmptyObject::models(old(objs)@),
        ),
{
    let ghost ms = EmptyObject::models(old(objs)@);
    proof {
        lemma_models_index(old(objs)@);
    }
    let n = objs.len();
    for i in 0..n
        invariant
            n == objs.len(),
            n == old(objs)@.len(),
            ms == EmptyObject::models(old(objs)@),
            ms.len() == n,
            forall|j: int| 0 <= j < n ==> ms[j] == old(objs)@[j].model(),
            forall|j: int| i <= j < n ==> objs@[j] == old(objs)@[j],
            forall|j: int|
                0 <= j < i ==> (#[trigger] objs@[j]).model() == spec_propagated_node(
                    ms[j],
                    ms[j].parent_world,
                ),
    {
        objs[i].update_transform();
    }
    proof {
        lemma_models_index(objs@);
        assert(EmptyObject::models(objs@) =~= spec_propagated_roots(ms));
    }
}


/// The forest after the first depth-first match of `name` is removed with
/// its whole subtree; unchanged when there is no match.
pub open spec fn spec_remove_first(ms: Seq<ObjectModel>, name: Seq<char>) -> Seq<ObjectModel>
    decreases ms,
{
    if ms.len() == 0 {
        ms
    } else if ms[0].name == name {
        ms.subrange(1, ms.len() as int)
    } else if spec_find(ms[0].children, name) is Some {
        proof {
            assert(decreases_to!(ms => ms[0]));
            assert(decreases_to!(ms[0] => ms[0].children));
            assert(decreases_to!(ms => ms[0].children));
        }
        ms.update(0, ObjectModel { children: spec_remove_first(ms[0].children, name), ..ms[0] })
    } else {
        proof {
            assert(decreases_to!(ms => ms.subrange(1, ms.len() as int)));
        }
        spec_remove_first(ms.subrange(1, ms.len() as int), name).insert(0, ms[0])
    }
}

/// `models` of an element removal is an element removal of `models`.
pub proof fn lemma_models_remove(cs: Seq<EmptyObject>, i: int)
    requires
        0 <= i < cs.len(),
    ensures
        EmptyObject::models(cs.remove(i)) == EmptyObject::models(cs).remove(i),
{
    lemma_models_index(cs);
    lemma_models_index(cs.remove(i));
    assert(EmptyObject::models(cs.remove(i)) =~= EmptyObject::models(cs).remove(i));
}

/// Removal may skip over any clear prefix.
pub proof fn lemma_remove_skip(ms: Seq<ObjectModel>, name: Seq<char>, i: int)
    requires
        0 <= i <= ms.len(),
        forall|j: int| 0 <= j < i ==> spec_no_match(#[trigger] ms[j], name),
    ensures
        spec_remove_first(ms, name) == ms.subrange(0, i) + spec_remove_first(
            ms.subrange(i, ms.len() as int),
            name,
        ),
    decreases i,
{
    if i == 0 {
        assert(ms.subrange(0, ms.len() as int) =~= ms);
        assert(ms.subrange(0, 0) + spec_remove_first(ms, name) =~= spec_remove_first(ms, name));
    } else {
        lemma_remove_skip(ms, name, i - 1);
        let s = ms.subrange(i - 1, ms.len() as int);
        assert(s[0] == ms[i - 1]);
        assert(spec_no_match(ms[i - 1], name));
        assert(s.subrange(1, s.len() as int) =~= ms.subrange(i, ms.len() as int));
        assert(spec_remove_first(s, name) == spec_remove_first(
            ms.subrange(i, ms.len() as int),
            name,
        ).insert(0, ms[i - 1]));
        assert(ms.subrange(0, i - 1) + spec_remove_first(s, name) =~= ms.subrange(0, i)
            + spec_remove_first(ms.subrange(i, ms.len() as int), name));
    }
}

/// When nothing matches, removal changes nothing.
pub proof fn lemma_remove_not_found(ms: Seq<ObjectModel>, name: Seq<char>)
    requires
        spec_find(ms, name) is None,
    ensures
        spec_remove_first(ms, name) == ms,
    decreases ms,
{
    if ms.len() > 0 {
        assert(ms[0].name != name);
        assert(spec_find(ms[0].children, name) is None);
        lemma_remove_not_found(ms.subrange(1, ms.len() as int), name);
        assert(spec_remove_first(ms, name) =~= ms);
    }
}


/// The forest after the first depth-first match of `name` is replaced by a
/// whole replacement node; unchanged when there is no match.
pub open spec fn spec_replace_first(
    ms: Seq<ObjectModel>,
    name: Seq<char>,
    replacement: ObjectModel,
) -> Seq<ObjectModel>
    decreases ms,
{
    if ms.len() == 0 {
        ms
    } else if ms[0].name == name {
        ms.update(0, replacement)
    } else if spec_find(ms[0].children, name) is Some {
        proof {
            assert(decreases_to!(ms => ms[0]));
            assert(decreases_to!(ms[0] => ms[0].children));
            assert(decreases_to!(ms => ms[0].children));
        }
        ms.update(
            0,
            ObjectModel { children: spec_replace_first(ms[0].children, name, replacement), ..ms[0] },
        )
    } else {
        proof {
            assert(decreases_to!(ms => ms.subrange(1, ms.len() as int)));
        }
        spec_replace_first(ms.subrange(1, ms.len() as int), name, replacement).insert(0, ms[0])
    }
}

/// Replacement may skip over any clear prefix.
pub proof fn lemma_replace_skip(
    ms: Seq<ObjectModel>,
    name: Seq<char>,
    replacement: ObjectModel,
    i: int,
)
    requires
        0 <= i <= ms.len(),
        forall|j: int| 0 <= j < i ==> spec_no_match(#[trigger] ms[j], name),
    ensures
        spec_replace_first(ms, name, replacement) == ms.subrange(0, i) + spec_replace_first(
            ms.subrange(i, ms.len() as int),
            name,
            replacement,
        ),
    decreases i,
{
    if i == 0 {
        assert(ms.subrange(0, ms.len() as int) =~= ms);
        assert(ms.subrange(0, 0) + spec_replace_first(ms, name, replacement)
            =~= spec_replace_first(ms, name, replacement));
    } else {
        lemma_replace_skip(ms, name, replacement, i - 1);
        let s = ms.subrange(i - 1, ms.len() as int);
        assert(s[0] == ms[i - 1]);
        assert(spec_no_match(ms[i - 1], name));
        assert(s.subrange(1, s.len() as int) =~= ms.subrange(i, ms.len() as int));
        assert(spec_replace_first(s, name, replacement) == spec_replace_first(
            ms.subrange(i, ms.len() as int),
            name,
            replacement,
        ).insert(0, ms[i - 1]));
        assert(ms.subrange(0, i - 1) + spec_replace_first(s, name, replacement) =~= ms.subrange(
            0,
            i,
        ) + spec_replace_first(ms.subrange(i, ms.len() as int), name, replacement));
    }
}

/// A mutable borrow of one element of a sibling list.
fn sibling_mut<'a>(v: &'a mut Vec<EmptyObject>, i: usize) -> (element: &'a mut EmptyObject)
    requires
        i < old(v)@.len(),
    ensures
        *element == old(v)@[i as int],
        final(v)@ == old(v)@.update(i as int, *final(element)),
{
    &mut v[i]
}

impl EmptyObject {
    /// Depth-first search of this entity's descendants for the first one
    /// named `object_name`, for mutation.  The caller's edits to the
    /// returned entity are the only change to the subtree.
    pub fn find_object_mut<'a>(&'a mut self, object_name: &str) -> (r: Option<&'a mut EmptyObject>)
        ensures
            match r {
                Some(m) => spec_find(old(self).model().children, object_name@) == Some((*m).model())
                    && final(self).model() == (ObjectModel {
                    children: spec_replace_first(
                        old(self).model().children,
                        object_name@,
                        final(m).model(),
                    ),
                    ..old(self).model()
                }),
                None => spec_find(old(self).model().children, object_name@) is None
                    && final(self).model() == old(self).model(),
            },
        decreases old(self).model(),
    {
        proof {
            assert(decreases_to!(old(self).model() => old(self).model().children));
        }
        find_in_mut(&mut self.children, object_name)
    }
}

/// Depth-first, self-before-children search over a sibling list, for
/// mutation: the caller's edits to the returned entity are the only change
/// to the forest.
pub fn find_in_mut<'a>(objs: &'a mut Vec<EmptyObject>, object_name: &str) -> (r: Option<
    &'a mut EmptyObject,
>)
    ensures
        match r {
            Some(m) => spec_find(EmptyObject::models(old(objs)@), object_name@) == Some(
                (*m).model(),
            ) && EmptyObject::models(final(objs)@) == spec_replace_first(
                EmptyObject::models(old(objs)@),
                object_name@,
                final(m).model(),
            ),
            None => spec_find(EmptyObject::models(old(objs)@), object_name@) is None
                && final(objs)@ == old(objs)@,
        },
    decreases EmptyObject::models(old(objs)@),
{
    let query: String = object_name.to_owned();
    let ghost ms = EmptyObject::models(old(objs)@);
    proof {
        lemma_models_index(old(objs)@);
    }
    let n = objs.len();
    for i in 0..n
        invariant
            n == objs.len(),
            n == old(objs)@.len(),
            query@ == object_name@,
            ms == EmptyObject::models(old(objs)@),
            ms.len() == n,
            objs@ == old(objs)@,
            forall|j: int| 0 <= j < n ==> ms[j] == old(objs)@[j].model(),
            forall|j: int| 0 <= j < i ==> spec_no_match(#[trigger] ms[j], object_name@),
    {
        if objs[i].name == query {
            let ghost before = objs@;
            proof {
                lemma_find_skip(ms, object_name@, i as int);
                let s = ms.subrange(i as int, ms.len() as int);
                assert(s[0] == ms[i as int]);
                assert(spec_find(s, object_name@) == Some(ms[i as int]));
                assert forall|repl: ObjectModel|
                    #[trigger] spec_replace_first(ms, object_name@, repl) == ms.update(
                        i as int,
                        repl,
                    ) by {
                    lemma_replace_skip(ms, object_name@, repl, i as int);
                    assert(spec_replace_first(s, object_name@, repl) == s.update(0, repl));
                    assert(ms.subrange(0, i as int) + spec_replace_first(s, object_name@, repl)
                        =~= ms.update(i as int, repl));
                }
                assert forall|v: EmptyObject|
                    EmptyObject::models(#[trigger] before.update(i as int, v))
                        == ms.update(i as int, v.model()) by {
                    lemma_models_update(before, i as int, v);
                    assert(EmptyObject::models(before) =~= ms);
                }
            }
            let m = sibling_mut(objs, i);
            return Some(m);
        }
        let has_in_subtree = objs[i].find_object(object_name).is_some();
        if has_in_subtree {
            let ghost before = objs@;
            proof {
                assert(decreases_to!(ms => ms[i as int]));
                lemma_find_skip(ms, object_name@, i as int);
                let s = ms.subrange(i as int, ms.len() as int);
                assert(s[0] == ms[i as int]);
                assert(spec_find(ms[i as int].children, object_name@) is Some);
                assert(spec_find(s, object_name@) == spec_find(
                    ms[i as int].children,
                    object_name@,
                ));
                assert forall|repl: ObjectModel|
                    #[trigger] spec_replace_first(ms, object_name@, repl) == ms.update(
                        i as int,
                        ObjectModel {
                            children: spec_replace_first(
                                ms[i as int].children,
                                object_name@,
                                repl,
                            ),
                            ..ms[i as int]
                        },
                    ) by {
                    lemma_replace_skip(ms, object_name@, repl, i as int);
                    assert(spec_replace_first(s, object_name@, repl) == s.update(
                        0,
                        ObjectModel {
                            children: spec_replace_first(s[0].children, object_name@, repl),
                            ..s[0]
                        },
                    ));
                    assert(ms.subrange(0, i as int) + spec_replace_first(s, object_name@, repl)
                        =~= ms.update(
                        i as int,
                        ObjectModel {
                            children: spec_replace_first(
                                ms[i as int].children,
                                object_name@,
                                repl,
                            ),
                            ..ms[i as int]
                        },
                    ));
                }
                assert forall|v: EmptyObject|
                    EmptyObject::models(#[trigger] before.update(i as int, v))
                        == ms.update(i as int, v.model()) by {
                    lemma_models_update(before, i as int, v);
                    assert(EmptyObject::models(before) =~= ms);
                }
            }
            let element = sibling_mut(objs, i);
            let r = element.find_object_mut(object_name);
            return r;
        }
        proof {
            assert(spec_no_match(ms[i as int], object_name@));
        }
    }
    proof {
        lemma_find_skip(ms, object_name@, n as int);
        assert(ms.subrange(n as int, n as int) =~= Seq::<ObjectModel>::empty());
    }
    None
}

} // verus!
