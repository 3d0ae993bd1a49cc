use bevy_openusd::rapier::bodies::BodyType;
use bevy_openusd::rapier::joints::{
    locked_axes, AxisJointPlan, Handle, JointBuild, LimitPlan, MotorPlan,
};
use bevy_openusd::rapier::world::PhysicsWorld;
use rapier3d_f64::prelude::{
    ColliderBuilder, FixedJointBuilder, GenericJoint, JointAxesMask, RigidBodyBuilder,
    RigidBodyHandle,
};

fn raw(h: Handle) -> RigidBodyHandle {
    RigidBodyHandle::from_raw_parts(h.index, h.generation)
}

fn joint() -> GenericJoint {
    FixedJointBuilder::new().build().into()
}

fn axis() -> JointBuild {
    axis_that(true)
}

fn axis_that(turns: bool) -> JointBuild {
    JointBuild::Axis(AxisJointPlan {
        turns,
        generic: false,
        limits: LimitPlan::Free,
        force_based: false,
        motor: MotorPlan::Nothing,
        max_force: None,
    })
}

fn world(bodies: u64) -> (PhysicsWorld, Vec<Handle>) {
    let mut w = PhysicsWorld::new();
    let body = || RigidBodyBuilder::dynamic().build();
    let handles = (0..bodies).map(|e| w.add_body(e, BodyType::Dynamic, body())).collect();
    (w, handles)
}

#[test]
fn a_new_world_is_empty() {
    let (w, _) = world(0);
    assert_eq!(w.bodies.len(), 0);
    assert_eq!(w.colliders.len(), 0);
    assert_eq!(w.impulse_joints.len(), 0);
    assert_eq!(w.multibody_joints.iter().count(), 0);
    assert!(w.entity_to_body.is_empty() && w.entity_to_collider.is_empty());
}

#[test]
fn bodies_are_found_by_their_entity() {
    let (w, handles) = world(3);
    assert_eq!(w.bodies.len(), 3);
    for e in 0..3u64 {
        assert_eq!(w.entity_to_body[&e], handles[e as usize]);
        assert!(w.bodies.get(raw(handles[e as usize])).is_some());
    }
    assert!(handles[0] != handles[1] && handles[1] != handles[2] && handles[0] != handles[2]);
}

#[test]
fn bodies_are_of_the_type_they_are_added_as() {
    let (mut w, handles) = world(1);
    let body = || RigidBodyBuilder::dynamic().build();
    let fixed = w.add_body(1, BodyType::Fixed, body());
    let moved = w.add_body(2, BodyType::KinematicPositionBased, body());
    assert!(w.bodies.get(raw(fixed)).unwrap().is_fixed());
    assert!(w.bodies.get(raw(moved)).unwrap().is_kinematic());
    assert!(w.bodies.get(raw(handles[0])).unwrap().is_dynamic());
}

#[test]
fn colliders_go_under_their_body() {
    let (mut w, handles) = world(2);
    let ball = || ColliderBuilder::ball(1.0).build();
    let a = w.add_collider(10, Some(1), ball());
    let b = w.add_collider(11, None, ball());
    let c = w.add_collider(12, Some(99), ball());
    let parent = |h: Handle| {
        let h = rapier3d_f64::prelude::ColliderHandle::from_raw_parts(h.index, h.generation);
        w.colliders.get(h).unwrap().parent()
    };
    assert_eq!(parent(a), Some(raw(handles[1])));
    assert_eq!(parent(b), None);
    assert_eq!(parent(c), None);
    assert_eq!(w.entity_to_collider[&10], a);
    assert_eq!(w.entity_to_collider[&12], c);
    assert_eq!(w.bodies.len(), 2);
}

#[test]
fn a_pinned_body_is_fixed() {
    let (mut w, handles) = world(2);
    w.pin_body(handles[0]);
    assert!(w.bodies.get(raw(handles[0])).unwrap().is_fixed());
    assert!(!w.bodies.get(raw(handles[1])).unwrap().is_fixed());
    w.pin_body(Handle { index: 77, generation: 0 });
    assert_eq!(w.bodies.len(), 2);
}

#[test]
fn joints_outside_articulations_hold_their_bodies() {
    let (mut w, h) = world(2);
    assert!(!w.insert_joint(h[0], h[1], &JointBuild::Fixed, false, &joint()));
    assert_eq!(w.impulse_joints.len(), 1);
    assert_eq!(w.multibody_joints.iter().count(), 0);
    let (_, j) = w.impulse_joints.iter().next().unwrap();
    assert_eq!((j.body1, j.body2), (raw(h[0]), raw(h[1])));
}

#[test]
fn articulations_take_chains_and_refuse_loops() {
    let (mut w, h) = world(3);
    assert!(w.insert_joint(h[0], h[1], &axis(), true, &joint()));
    assert!(w.insert_joint(h[1], h[2], &axis(), true, &joint()));
    assert_eq!(w.multibody_joints.iter().count(), 2);
    assert_eq!(w.impulse_joints.len(), 0);
    // A joint that closes a loop is kept outside, if it has one axis.
    assert!(!w.insert_joint(h[2], h[0], &axis(), true, &joint()));
    assert_eq!(w.multibody_joints.iter().count(), 2);
    assert_eq!(w.impulse_joints.len(), 1);
    assert!(!w.insert_joint(h[0], h[2], &JointBuild::Fixed, true, &joint()));
    assert_eq!(w.impulse_joints.len(), 1);
}

#[test]
fn articulations_grow_together_at_their_roots() {
    let (mut w, h) = world(5);
    assert!(w.insert_joint(h[0], h[1], &axis(), true, &joint()));
    assert!(w.insert_joint(h[2], h[3], &axis(), true, &joint()));
    // The root of one articulation can hang on a body of another.
    assert!(w.insert_joint(h[1], h[2], &axis(), true, &joint()));
    assert_eq!(w.multibody_joints.iter().count(), 3);
    // A body hangs on one other body only, and the root not on what hangs on it.
    assert!(!w.insert_joint(h[4], h[3], &axis(), true, &joint()));
    assert!(!w.insert_joint(h[3], h[0], &axis(), true, &joint()));
    assert!(w.insert_joint(h[3], h[4], &axis(), true, &joint()));
    assert_eq!(w.multibody_joints.iter().count(), 4);
    assert_eq!(w.impulse_joints.len(), 2);
}

#[test]
fn a_joint_between_a_body_and_itself_is_taken_once() {
    let (mut w, h) = world(1);
    assert!(w.insert_joint(h[0], h[0], &axis(), true, &joint()));
    assert!(!w.insert_joint(h[0], h[0], &axis(), true, &joint()));
    assert_eq!(w.impulse_joints.len(), 1);
}

#[test]
fn joints_lock_what_their_kind_says() {
    let mut wild = joint();
    wild.locked_axes = JointAxesMask::from_bits_retain(0xff);
    for (build, locked) in [
        (axis_that(true), JointAxesMask::LOCKED_REVOLUTE_AXES),
        (axis_that(false), JointAxesMask::LOCKED_PRISMATIC_AXES),
        (JointBuild::Fixed, JointAxesMask::LOCKED_FIXED_AXES),
        (JointBuild::Spherical, JointAxesMask::LOCKED_SPHERICAL_AXES),
    ] {
        assert_eq!(locked_axes(&build), locked.bits());
        let (mut w, h) = world(4);
        assert!(w.insert_joint(h[0], h[1], &build, true, &wild));
        let (_, _, multibody, link) = w.multibody_joints.iter().next().unwrap();
        assert_eq!(link.joint.data.locked_axes, locked);
        assert_eq!(multibody.num_links(), 2);
        assert!(!w.insert_joint(h[2], h[3], &build, false, &wild));
        let (_, j) = w.impulse_joints.iter().next().unwrap();
        assert_eq!(j.data.locked_axes, locked);
    }
}
