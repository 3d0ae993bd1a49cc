//! The physics world: the bodies, colliders and joints that the scene has been
//! given, and which entity each stands for.
//!
//! The sets are those of `rapier3d_f64`. What goes into them, bodies, colliders
//! and joints, is built by the caller, who also steps the world; what is proved
//! here is where it goes.

use crate::rapier::bodies::BodyType;
use crate::rapier::joints::{
    action_of, find_entry, locked_axes, locked_axes_of, lookup, needs_impulse_joint, Handle,
    JointAction, JointBuild, JointMarker,
};
use std::collections::HashMap;
use vstd::multiset::Multiset;
use vstd::prelude::*;

verus! {

/// The bodies of a world.
#[verifier::external_type_specification]
#[verifier::external_body]
pub struct ExBodySet(rapier3d_f64::dynamics::RigidBodySet);

/// A body.
#[verifier::external_type_specification]
#[verifier::external_body]
pub struct ExBody(rapier3d_f64::dynamics::RigidBody);

/// The colliders of a world.
#[verifier::external_type_specification]
#[verifier::external_body]
pub struct ExColliderSet(rapier3d_f64::geometry::ColliderSet);

/// A collider.
#[verifier::external_type_specification]
#[verifier::external_body]
pub struct ExCollider(rapier3d_f64::geometry::Collider);

/// The joints of a world that are outside articulations.
#[verifier::external_type_specification]
#[verifier::external_body]
pub struct ExImpulseJointSet(rapier3d_f64::dynamics::ImpulseJointSet);

/// The articulations of a world.
#[verifier::external_type_specification]
#[verifier::external_body]
pub struct ExMultibodyJointSet(rapier3d_f64::dynamics::MultibodyJointSet);

/// A joint.
#[verifier::external_type_specification]
#[verifier::external_body]
pub struct ExGenericJoint(rapier3d_f64::dynamics::GenericJoint);

/// The bodies of a set, by their handles: whether each is fixed in place.
pub uninterp spec fn fixed_bodies(set: rapier3d_f64::dynamics::RigidBodySet) -> Map<(u32, u32), bool>;

/// The colliders of a set, by their handles: the body that each belongs to.
pub uninterp spec fn collider_bodies(set: rapier3d_f64::geometry::ColliderSet) -> Map<(u32, u32), Option<(u32, u32)>>;

/// The joints outside articulations: the two bodies that each holds together, and
/// the axes that it locks.
pub uninterp spec fn impulse_pairs(set: rapier3d_f64::dynamics::ImpulseJointSet) -> Multiset<((u32, u32), (u32, u32), u8)>;

/// The body that each body of an articulation hangs on, but for its root.
pub uninterp spec fn multibody_parents(set: rapier3d_f64::dynamics::MultibodyJointSet) -> Map<(u32, u32), (u32, u32)>;

/// The axes that are locked by the joint that each body of an articulation hangs
/// on another one by.
pub uninterp spec fn multibody_locks(set: rapier3d_f64::dynamics::MultibodyJointSet) -> Map<(u32, u32), u8>;

/// Whether a body is fixed in place.
pub uninterp spec fn is_fixed_body(body: rapier3d_f64::dynamics::RigidBody) -> bool;

/// Whether a set can be inserted into: no joint has been taken out of it or
/// changed in it, and none of its articulations had a fixed root when the world
/// was stepped.
pub uninterp spec fn can_grow(set: rapier3d_f64::dynamics::MultibodyJointSet) -> bool;

/// No bodies.
pub open spec fn no_bodies() -> Map<(u32, u32), bool> {
    Map::empty()
}

/// No colliders.
pub open spec fn no_colliders() -> Map<(u32, u32), Option<(u32, u32)>> {
    Map::empty()
}

/// No joints outside articulations.
pub open spec fn no_pairs() -> Multiset<((u32, u32), (u32, u32), u8)> {
    Multiset::empty()
}

/// No joints of articulations.
pub open spec fn no_locks() -> Map<(u32, u32), u8> {
    Map::empty()
}

/// No articulations.
pub open spec fn no_parents() -> Map<(u32, u32), (u32, u32)> {
    Map::empty()
}

/// Whether a body is part of an articulation: it hangs on a body, or one hangs
/// on it.
pub open spec fn is_articulated(parents: Map<(u32, u32), (u32, u32)>, body: (u32, u32)) -> bool {
    parents.dom().contains(body) || parents.values().contains(body)
}

/// The body that is `n` joints above another one in its articulation.
pub open spec fn above(parents: Map<(u32, u32), (u32, u32)>, body: (u32, u32), n: nat) -> Option<
    (u32, u32),
>
    decreases n,
{
    if n == 0 {
        Some(body)
    } else {
        match above(parents, body, (n - 1) as nat) {
            Some(b) => if parents.dom().contains(b) {
                Some(parents[b])
            } else {
                None
            },
            None => None,
        }
    }
}

/// Whether a body hangs on another one, by any number of joints or none.
pub open spec fn hangs_on(
    parents: Map<(u32, u32), (u32, u32)>,
    body: (u32, u32),
    other: (u32, u32),
) -> bool {
    exists|n: nat| #[trigger] above(parents, body, n) == Some(other)
}

/// Whether the articulations take a joint: its second body hangs on none yet,
/// and is not the root of the articulation that its first body is in.
pub open spec fn takes(
    parents: Map<(u32, u32), (u32, u32)>,
    body0: (u32, u32),
    body1: (u32, u32),
) -> bool {
    &&& !parents.dom().contains(body1)
    &&& !(is_articulated(parents, body1) && hangs_on(parents, body0, body1))
}

/// Calls `rapier3d_f64::dynamics::RigidBodySet::new`, which makes a set without
/// bodies.
#[verifier::external_body]
fn new_bodies() -> (r: rapier3d_f64::dynamics::RigidBodySet)
    ensures
        fixed_bodies(r) == no_bodies(),
{
    rapier3d_f64::dynamics::RigidBodySet::new()
}

/// Calls `rapier3d_f64::geometry::ColliderSet::new`, which makes a set without
/// colliders.
#[verifier::external_body]
fn new_colliders() -> (r: rapier3d_f64::geometry::ColliderSet)
    ensures
        collider_bodies(r) == no_colliders(),
{
    rapier3d_f64::geometry::ColliderSet::new()
}

/// Calls `rapier3d_f64::dynamics::ImpulseJointSet::new`, which makes a set
/// without joints.
#[verifier::external_body]
fn new_impulse_joints() -> (r: rapier3d_f64::dynamics::ImpulseJointSet)
    ensures
        impulse_pairs(r) == no_pairs(),
{
    rapier3d_f64::dynamics::ImpulseJointSet::new()
}

/// Calls `rapier3d_f64::dynamics::MultibodyJointSet::new`, which makes a set
/// without articulations.
#[verifier::external_body]
fn new_multibody_joints() -> (r: rapier3d_f64::dynamics::MultibodyJointSet)
    ensures
        multibody_parents(r) == no_parents(),
        multibody_locks(r) == no_locks(),
        can_grow(r),
{
    rapier3d_f64::dynamics::MultibodyJointSet::new()
}

/// Calls `rapier3d_f64::dynamics::RigidBody::set_body_type`, which makes a body one
/// of a type.
#[verifier::external_body]
fn set_type(body: &mut rapier3d_f64::dynamics::RigidBody, body_type: BodyType)
    ensures
        is_fixed_body(*final(body)) == (body_type == BodyType::Fixed),
{
    let kind = match body_type {
        BodyType::Fixed => rapier3d_f64::dynamics::RigidBodyType::Fixed,
        BodyType::KinematicPositionBased => {
            rapier3d_f64::dynamics::RigidBodyType::KinematicPositionBased
        },
        BodyType::Dynamic => rapier3d_f64::dynamics::RigidBodyType::Dynamic,
    };
    body.set_body_type(kind, false);
}

/// Calls `rapier3d_f64::dynamics::RigidBodySet::insert`. The handle that it
/// returns is of no body that the set had, those that it had stay as they were,
/// and the new body is as it was built.
#[verifier::external_body]
fn insert_body(
    bodies: &mut rapier3d_f64::dynamics::RigidBodySet,
    body: rapier3d_f64::dynamics::RigidBody,
) -> (r: Handle)
    ensures
        !fixed_bodies(*old(bodies)).dom().contains(r.raw()),
        fixed_bodies(*final(bodies)) == fixed_bodies(*old(bodies)).insert(
            r.raw(),
            is_fixed_body(body),
        ),
{
    let (index, generation) = bodies.insert(body).into_raw_parts();
    Handle { index, generation }
}

/// Calls `rapier3d_f64::dynamics::RigidBodySet::get_mut`, and
/// `rapier3d_f64::dynamics::RigidBody::set_body_type` on the body that it finds:
/// the body becomes a fixed one. A handle of no body changes nothing.
#[verifier::external_body]
fn fix_body(bodies: &mut rapier3d_f64::dynamics::RigidBodySet, handle: Handle)
    ensures
        fixed_bodies(*final(bodies)) == if fixed_bodies(*old(bodies)).dom().contains(
            handle.raw(),
        ) {
            fixed_bodies(*old(bodies)).insert(handle.raw(), true)
        } else {
            fixed_bodies(*old(bodies))
        },
{
    let (index, generation) = (handle.index, handle.generation);
    let raw = rapier3d_f64::dynamics::RigidBodyHandle::from_raw_parts(index, generation);
    if let Some(body) = bodies.get_mut(raw) {
        body.set_body_type(rapier3d_f64::dynamics::RigidBodyType::Fixed, false);
    }
}

/// Calls `rapier3d_f64::geometry::ColliderSet::insert`. The handle that it
/// returns is of no collider that the set had, and the new collider belongs to
/// no body.
#[verifier::external_body]
fn insert_free_collider(
    colliders: &mut rapier3d_f64::geometry::ColliderSet,
    collider: rapier3d_f64::geometry::Collider,
) -> (r: Handle)
    ensures
        !collider_bodies(*old(colliders)).dom().contains(r.raw()),
        collider_bodies(*final(colliders)) == collider_bodies(*old(colliders)).insert(
            r.raw(),
            None,
        ),
{
    let (index, generation) = colliders.insert(collider).into_raw_parts();
    Handle { index, generation }
}

/// Calls `rapier3d_f64::geometry::ColliderSet::insert_with_parent`, which panics
/// where the set of bodies does not have the parent. The handle that it returns
/// is of no collider that the set had, the new collider belongs to the parent,
/// and no body comes or goes or changes its type.
#[verifier::external_body]
fn insert_body_collider(
    colliders: &mut rapier3d_f64::geometry::ColliderSet,
    collider: rapier3d_f64::geometry::Collider,
    parent: Handle,
    bodies: &mut rapier3d_f64::dynamics::RigidBodySet,
) -> (r: Handle)
    requires
        fixed_bodies(*old(bodies)).dom().contains(parent.raw()),
    ensures
        !collider_bodies(*old(colliders)).dom().contains(r.raw()),
        collider_bodies(*final(colliders)) == collider_bodies(*old(colliders)).insert(
            r.raw(),
            Some(parent.raw()),
        ),
        fixed_bodies(*final(bodies)) == fixed_bodies(*old(bodies)),
{
    let (index, generation) = (parent.index, parent.generation);
    let raw = rapier3d_f64::dynamics::RigidBodyHandle::from_raw_parts(index, generation);
    let (index, generation) = colliders.insert_with_parent(collider, raw, bodies).into_raw_parts();
    Handle { index, generation }
}

/// A physics world.
pub struct PhysicsWorld {
    pub bodies: rapier3d_f64::dynamics::RigidBodySet,
    pub colliders: rapier3d_f64::geometry::ColliderSet,
    pub impulse_joints: rapier3d_f64::dynamics::ImpulseJointSet,
    pub multibody_joints: rapier3d_f64::dynamics::MultibodyJointSet,
    /// The body of each entity that is one.
    pub entity_to_body: HashMap<u64, Handle>,
    /// The collider of each entity that has one.
    pub entity_to_collider: HashMap<u64, Handle>,
}

impl PhysicsWorld {
    /// The bodies, by their handles.
    pub open spec fn live_bodies(self) -> Set<(u32, u32)> {
        fixed_bodies(self.bodies).dom()
    }

    /// The colliders, by their handles.
    pub open spec fn live_colliders(self) -> Set<(u32, u32)> {
        collider_bodies(self.colliders).dom()
    }

    /// Whether every entity that is said to be a body or to have a collider is
    /// and does, and the articulations are of bodies of the world and can grow.
    pub open spec fn wf(self) -> bool {
        &&& forall|e: u64| #[trigger]
            self.entity_to_body@.dom().contains(e) ==> self.live_bodies().contains(
                self.entity_to_body@[e].raw(),
            )
        &&& forall|e: u64| #[trigger]
            self.entity_to_collider@.dom().contains(e) ==> self.live_colliders().contains(
                self.entity_to_collider@[e].raw(),
            )
        &&& forall|b: (u32, u32)| #[trigger]
            is_articulated(multibody_parents(self.multibody_joints), b)
                ==> self.live_bodies().contains(b)
        &&& can_grow(self.multibody_joints)
    }

    /// A world without anything.
    pub fn new() -> (r: PhysicsWorld)
        ensures
            r.wf(),
            fixed_bodies(r.bodies) == no_bodies(),
            collider_bodies(r.colliders) == no_colliders(),
            impulse_pairs(r.impulse_joints) == no_pairs(),
            multibody_parents(r.multibody_joints) == no_parents(),
            multibody_locks(r.multibody_joints) == no_locks(),
            r.entity_to_body@ == Map::<u64, Handle>::empty(),
            r.entity_to_collider@ == Map::<u64, Handle>::empty(),
    {
        broadcast use vstd::std_specs::hash::group_hash_axioms;

        PhysicsWorld {
            bodies: new_bodies(),
            colliders: new_colliders(),
            impulse_joints: new_impulse_joints(),
            multibody_joints: new_multibody_joints(),
            entity_to_body: HashMap::new(),
            entity_to_collider: HashMap::new(),
        }
    }

    /// Inserts the body of an entity, as one of a type.
    pub fn add_body(
        &mut self,
        entity: u64,
        body_type: BodyType,
        body: rapier3d_f64::dynamics::RigidBody,
    ) -> (handle: Handle)
        requires
            old(self).wf(),
        ensures
            final(self).wf(),
            !old(self).live_bodies().contains(handle.raw()),
            fixed_bodies(final(self).bodies) == fixed_bodies(old(self).bodies).insert(
                handle.raw(),
                body_type == BodyType::Fixed,
            ),
            final(self).entity_to_body@ == old(self).entity_to_body@.insert(entity, handle),
            final(self).colliders == old(self).colliders,
            final(self).impulse_joints == old(self).impulse_joints,
            final(self).multibody_joints == old(self).multibody_joints,
            final(self).entity_to_collider == old(self).entity_to_collider,
    {
        broadcast use vstd::std_specs::hash::group_hash_axioms;

        let mut body: rapier3d_f64::dynamics::RigidBody = body;
        set_type(&mut body, body_type);
        let handle: Handle = insert_body(&mut self.bodies, body);
        self.entity_to_body.insert(entity, handle);
        handle
    }

    /// Inserts the collider of an entity, under the body of `body_entity` where
    /// the world has it.
    pub fn add_collider(
        &mut self,
        entity: u64,
        body_entity: Option<u64>,
        collider: rapier3d_f64::geometry::Collider,
    ) -> (handle: Handle)
        requires
            old(self).wf(),
        ensures
            final(self).wf(),
            !old(self).live_colliders().contains(handle.raw()),
            collider_bodies(final(self).colliders) == collider_bodies(old(self).colliders).insert(
                handle.raw(),
                match body_entity {
                    Some(e) => match lookup(old(self).entity_to_body@, e) {
                        Some(body) => Some(body.raw()),
                        None => None,
                    },
                    None => None,
                },
            ),
            final(self).entity_to_collider@ == old(self).entity_to_collider@.insert(
                entity,
                handle,
            ),
            fixed_bodies(final(self).bodies) == fixed_bodies(old(self).bodies),
            final(self).entity_to_body == old(self).entity_to_body,
            final(self).impulse_joints == old(self).impulse_joints,
            final(self).multibody_joints == old(self).multibody_joints,
    {
        broadcast use vstd::std_specs::hash::group_hash_axioms;

        let parent: Option<Handle> = match body_entity {
            Some(e) => find_entry(&self.entity_to_body, e),
            None => None,
        };
        let handle: Handle = match parent {
            Some(body) => insert_body_collider(
                &mut self.colliders,
                collider,
                body,
                &mut self.bodies,
            ),
            None => insert_free_collider(&mut self.colliders, collider),
        };
        self.entity_to_collider.insert(entity, handle);
        handle
    }

    /// Fixes a body in place.
    pub fn pin_body(&mut self, handle: Handle)
        requires
            old(self).wf(),
        ensures
            final(self).wf(),
            fixed_bodies(final(self).bodies) == if old(self).live_bodies().contains(
                handle.raw(),
            ) {
                fixed_bodies(old(self).bodies).insert(handle.raw(), true)
            } else {
                fixed_bodies(old(self).bodies)
            },
            final(self).colliders == old(self).colliders,
            final(self).impulse_joints == old(self).impulse_joints,
            final(self).multibody_joints == old(self).multibody_joints,
            final(self).entity_to_body == old(self).entity_to_body,
            final(self).entity_to_collider == old(self).entity_to_collider,
    {
        fix_body(&mut self.bodies, handle);
        assert(fixed_bodies(self.bodies).dom() =~= fixed_bodies(old(self).bodies).dom());
    }

    /// Inserts a joint between two bodies: into the articulations where
    /// `multibody` says so, and else outside them. A joint of one axis that the
    /// articulations refuse goes outside them; one of another kind is dropped. What
    /// the joint locks goes by its kind, whatever the given one locks. Returns
    /// whether the articulations took it.
    pub fn insert_joint(
        &mut self,
        body0: Handle,
        body1: Handle,
        build: &JointBuild,
        multibody: bool,
        joint: &rapier3d_f64::dynamics::GenericJoint,
    ) -> (taken: bool)
        requires
            old(self).wf(),
            old(self).live_bodies().contains(body0.raw()),
            old(self).live_bodies().contains(body1.raw()),
        ensures
            final(self).wf(),
            taken == (multibody && takes(
                multibody_parents(old(self).multibody_joints),
                body0.raw(),
                body1.raw(),
            )),
            multibody_parents(final(self).multibody_joints) == parents_after(
                multibody_parents(old(self).multibody_joints),
                body0.raw(),
                body1.raw(),
                taken,
            ),
            multibody_locks(final(self).multibody_joints) == locks_after(
                multibody_locks(old(self).multibody_joints),
                body1.raw(),
                locked_axes_of(*build),
                taken,
            ),
            impulse_pairs(final(self).impulse_joints) == pairs_after(
                impulse_pairs(old(self).impulse_joints),
                (body0.raw(), body1.raw(), locked_axes_of(*build)),
                *build,
                multibody,
                taken,
            ),
            final(self).bodies == old(self).bodies,
            final(self).colliders == old(self).colliders,
            final(self).entity_to_body == old(self).entity_to_body,
            final(self).entity_to_collider == old(self).entity_to_collider,
    {
        let locked: u8 = locked_axes(build);
        let mut taken: bool = false;
        if multibody {
            taken = insert_multibody_joint(self, body0, body1, joint, locked);
        }
        if needs_impulse_joint(build, multibody, taken) {
            insert_impulse_joint(self, body0, body1, joint, locked);
        }
        proof {
            let before = multibody_parents(old(self).multibody_joints);
            assert forall|b: (u32, u32)| #[trigger]
                is_articulated(multibody_parents(self.multibody_joints), b) implies self.live_bodies().contains(
                b,
            ) by {
                let after = parents_after(before, body0.raw(), body1.raw(), taken);
                if b != body0.raw() && b != body1.raw() && after.values().contains(b) {
                    let child = choose|child: (u32, u32)| #[trigger]
                        after.dom().contains(child) && after[child] == b;
                    assert(before.dom().contains(child) && before[child] == b);
                }
                assert(b == body0.raw() || b == body1.raw() || is_articulated(before, b));
            }
        }
        taken
    }
}

/// Calls `rapier3d_f64::dynamics::ImpulseJointSet::insert` on the joints of a
/// world that are outside articulations. It adds a joint between two bodies, which
/// locks the axes given, to those that the set has. The set makes room for as many
/// bodies as the index of a handle says, so the handles are those of bodies that
/// the world has.
#[verifier::external_body]
fn insert_impulse_joint(
    world: &mut PhysicsWorld,
    body0: Handle,
    body1: Handle,
    joint: &rapier3d_f64::dynamics::GenericJoint,
    locked: u8,
)
    requires
        locked < 64,
        old(world).live_bodies().contains(body0.raw()),
        old(world).live_bodies().contains(body1.raw()),
    ensures
        impulse_pairs(final(world).impulse_joints) == impulse_pairs(
            old(world).impulse_joints,
        ).insert((body0.raw(), body1.raw(), locked)),
        final(world).bodies == old(world).bodies,
        final(world).colliders == old(world).colliders,
        final(world).multibody_joints == old(world).multibody_joints,
        final(world).entity_to_body == old(world).entity_to_body,
        final(world).entity_to_collider == old(world).entity_to_collider,
{
    let (i0, g0, i1, g1) = (body0.index, body0.generation, body1.index, body1.generation);
    let raw0 = rapier3d_f64::dynamics::RigidBodyHandle::from_raw_parts(i0, g0);
    let raw1 = rapier3d_f64::dynamics::RigidBodyHandle::from_raw_parts(i1, g1);
    let mut data = *joint;
    data.locked_axes = rapier3d_f64::dynamics::JointAxesMask::from_bits_truncate(locked);
    world.impulse_joints.insert(raw0, raw1, data, true);
}

/// Calls `rapier3d_f64::dynamics::MultibodyJointSet::insert` on the articulations
/// of a world, and returns whether it took the joint. It refuses one whose second
/// body hangs on a body already, and one whose bodies are in the same
/// articulation. A joint that it takes hangs its second body on its first, and
/// locks the axes given; one that it refuses changes nothing of that. The set makes
/// room for as many bodies as the index of a handle says and replaces what it has
/// of a body that is gone, so the handles, and the bodies that the set has, are
/// those of bodies of the world. It fails on a joint that locks more axes than the
/// six there are, on a body whose joint was taken out or changed, and on an
/// articulation whose root stepping found fixed, so none of these is the case.
#[verifier::external_body]
fn insert_multibody_joint(
    world: &mut PhysicsWorld,
    body0: Handle,
    body1: Handle,
    joint: &rapier3d_f64::dynamics::GenericJoint,
    locked: u8,
) -> (taken: bool)
    requires
        locked < 64,
        old(world).wf(),
        old(world).live_bodies().contains(body0.raw()),
        old(world).live_bodies().contains(body1.raw()),
    ensures
        taken == takes(
            multibody_parents(old(world).multibody_joints),
            body0.raw(),
            body1.raw(),
        ),
        multibody_parents(final(world).multibody_joints) == parents_after(
            multibody_parents(old(world).multibody_joints),
            body0.raw(),
            body1.raw(),
            taken,
        ),
        multibody_locks(final(world).multibody_joints) == locks_after(
            multibody_locks(old(world).multibody_joints),
            body1.raw(),
            locked,
            taken,
        ),
        can_grow(final(world).multibody_joints),
        final(world).bodies == old(world).bodies,
        final(world).colliders == old(world).colliders,
        final(world).impulse_joints == old(world).impulse_joints,
        final(world).entity_to_body == old(world).entity_to_body,
        final(world).entity_to_collider == old(world).entity_to_collider,
{
    let (i0, g0, i1, g1) = (body0.index, body0.generation, body1.index, body1.generation);
    let raw0 = rapier3d_f64::dynamics::RigidBodyHandle::from_raw_parts(i0, g0);
    let raw1 = rapier3d_f64::dynamics::RigidBodyHandle::from_raw_parts(i1, g1);
    let mut data = *joint;
    data.locked_axes = rapier3d_f64::dynamics::JointAxesMask::from_bits_truncate(locked);
    world.multibody_joints.insert(raw0, raw1, data, true).is_some()
}

/// The articulations after a joint that they took, or did not.
pub open spec fn parents_after(
    parents: Map<(u32, u32), (u32, u32)>,
    body0: (u32, u32),
    body1: (u32, u32),
    taken: bool,
) -> Map<(u32, u32), (u32, u32)> {
    if taken {
        parents.insert(body1, body0)
    } else {
        parents
    }
}

/// What the joints of articulations lock after one that they took, or did not.
pub open spec fn locks_after(
    locks: Map<(u32, u32), u8>,
    body1: (u32, u32),
    locked: u8,
    taken: bool,
) -> Map<(u32, u32), u8> {
    if taken {
        locks.insert(body1, locked)
    } else {
        locks
    }
}

/// The joints outside articulations after one that the articulations were asked
/// for, or were not, and took, or did not.
pub open spec fn pairs_after(
    pairs: Multiset<((u32, u32), (u32, u32), u8)>,
    joint: ((u32, u32), (u32, u32), u8),
    build: JointBuild,
    asked: bool,
    taken: bool,
) -> Multiset<((u32, u32), (u32, u32), u8)> {
    if !asked || (!taken && build is Axis) {
        pairs.insert(joint)
    } else {
        pairs
    }
}

/// A joint of one axis is never lost and never there twice: it is in an
/// articulation, or else outside them.
pub proof fn axis_joints_are_kept_once(
    pairs: Multiset<((u32, u32), (u32, u32), u8)>,
    parents: Map<(u32, u32), (u32, u32)>,
    body0: (u32, u32),
    body1: (u32, u32),
    build: JointBuild,
    asked: bool,
)
    requires
        build is Axis,
    ensures
        ({
            let taken = asked && takes(parents, body0, body1);
            let joint = (body0, body1, locked_axes_of(build));
            let outside = pairs_after(pairs, joint, build, asked, taken);
            &&& taken ==> !parents.dom().contains(body1)
            &&& taken ==> parents_after(parents, body0, body1, taken)[body1] == body0
            &&& outside.count(joint) == pairs.count(joint) + if taken {
                0int
            } else {
                1
            }
        }),
{
}

/// No articulation loses a body or hangs one elsewhere when a joint is added.
pub proof fn articulations_only_grow(
    parents: Map<(u32, u32), (u32, u32)>,
    body0: (u32, u32),
    body1: (u32, u32),
)
    ensures
        parents.submap_of(parents_after(parents, body0, body1, takes(parents, body0, body1))),
{
}

/// A joint to a body that is in no articulation is always taken, so a chain that
/// is built from its root on ends up in one articulation.
pub proof fn fresh_bodies_are_taken(
    parents: Map<(u32, u32), (u32, u32)>,
    body0: (u32, u32),
    body1: (u32, u32),
)
    requires
        !is_articulated(parents, body1),
    ensures
        takes(parents, body0, body1),
{
}

/// Whether a ranking puts every body below the one it hangs on.
pub open spec fn ranks_bodies(
    parents: Map<(u32, u32), (u32, u32)>,
    rank: spec_fn((u32, u32)) -> nat,
) -> bool {
    forall|b: (u32, u32)| #[trigger] parents.dom().contains(b) ==> rank(parents[b]) < rank(b)
}

/// Whether articulations are free of loops: their bodies can be ranked so that
/// each stands below the one it hangs on.
pub open spec fn are_trees(parents: Map<(u32, u32), (u32, u32)>) -> bool {
    exists|rank: spec_fn((u32, u32)) -> nat| #[trigger] ranks_bodies(parents, rank)
}

/// What hangs on a body hangs on what that body hangs on; so does what hangs on
/// it by one joint.
proof fn lemma_hangs_by_one_more(
    parents: Map<(u32, u32), (u32, u32)>,
    body: (u32, u32),
    root: (u32, u32),
)
    requires
        parents.dom().contains(body),
    ensures
        body != root ==> (hangs_on(parents, body, root) <==> hangs_on(
            parents,
            parents[body],
            root,
        )),
{
    if hangs_on(parents, parents[body], root) {
        let n = choose|n: nat| #[trigger] above(parents, parents[body], n) == Some(root);
        lemma_above_shifts(parents, body, n);
        assert(above(parents, body, n + 1) == Some(root));
    }
    if body != root && hangs_on(parents, body, root) {
        let n = choose|n: nat| #[trigger] above(parents, body, n) == Some(root);
        assert(n > 0);
        lemma_above_shifts(parents, body, (n - 1) as nat);
        assert(above(parents, parents[body], (n - 1) as nat) == Some(root));
    }
}

/// Going up by one joint and then by `n` is going up by `n + 1`.
proof fn lemma_above_shifts(parents: Map<(u32, u32), (u32, u32)>, body: (u32, u32), n: nat)
    requires
        parents.dom().contains(body),
    ensures
        above(parents, body, n + 1) == above(parents, parents[body], n),
    decreases n,
{
    if n > 0 {
        lemma_above_shifts(parents, body, (n - 1) as nat);
    } else {
        assert(above(parents, body, 0) == Some(body));
    }
}

/// In articulations without a body, nothing but the body itself hangs on it.
proof fn lemma_nothing_hangs_on_a_stranger(
    parents: Map<(u32, u32), (u32, u32)>,
    body: (u32, u32),
    stranger: (u32, u32),
    n: nat,
)
    requires
        !is_articulated(parents, stranger),
        body != stranger,
    ensures
        above(parents, body, n) != Some(stranger),
    decreases n,
{
    if n > 0 {
        match above(parents, body, (n - 1) as nat) {
            Some(b) => {
                if parents.dom().contains(b) {
                    assert(parents.values().contains(parents[b]));
                }
            },
            None => {},
        }
    }
}

/// Articulations stay free of loops: a joint between two bodies that would close
/// one is refused.
pub proof fn articulations_stay_trees(
    parents: Map<(u32, u32), (u32, u32)>,
    body0: (u32, u32),
    body1: (u32, u32),
)
    requires
        are_trees(parents),
        body0 != body1,
        takes(parents, body0, body1),
    ensures
        are_trees(parents_after(parents, body0, body1, true)),
{
    let rank = choose|rank: spec_fn((u32, u32)) -> nat| #[trigger] ranks_bodies(parents, rank);
    let after = parents_after(parents, body0, body1, true);
    // What hangs on the second body moves down below the first one.
    let moved = |b: (u32, u32)|
        if hangs_on(parents, b, body1) {
            (rank(b) + rank(body0) + 1) as nat
        } else {
            rank(b)
        };
    assert(!hangs_on(parents, body0, body1)) by {
        if !is_articulated(parents, body1) && hangs_on(parents, body0, body1) {
            let n = choose|n: nat| #[trigger] above(parents, body0, n) == Some(body1);
            lemma_nothing_hangs_on_a_stranger(parents, body0, body1, n);
        }
    }
    assert(above(parents, body1, 0) == Some(body1));
    assert forall|b: (u32, u32)| #[trigger] after.dom().contains(b) implies moved(after[b])
        < moved(b) by {
        if b != body1 {
            assert(parents.dom().contains(b));
            lemma_hangs_by_one_more(parents, b, body1);
        }
    }
    assert(ranks_bodies(after, moved));
}

/// The bodies of a joint that is to be inserted, or of one that pins a body, are
/// bodies of the world.
pub proof fn planned_bodies_are_live(
    world: PhysicsWorld,
    joint: JointMarker,
    any_articulation: bool,
)
    requires
        world.wf(),
    ensures
        match action_of(joint, world.entity_to_body@, any_articulation) {
            JointAction::Insert { body0, body1, .. } => world.live_bodies().contains(body0.raw())
                && world.live_bodies().contains(body1.raw()),
            JointAction::Pin(Some(body)) => world.live_bodies().contains(body.raw()),
            _ => true,
        },
{
}

} // verus!
