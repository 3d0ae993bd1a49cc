//! Joints.

use crate::ieee::{narrowing_keeps_nans, narrowing_keeps_the_order, Double, Single};
use crate::physics::types::{Dof, JointKind, ReadDrive};
use std::collections::HashMap;
use vstd::prelude::*;

verus! {

/// The handle of a body or a collider of the world.
#[derive(Debug, Clone, Copy, PartialEq, Eq, Structural, Hash)]
pub struct Handle {
    pub index: u32,
    pub generation: u32,
}

impl Handle {
    /// The two numbers that a handle is made of.
    pub open spec fn raw(self) -> (u32, u32) {
        (self.index, self.generation)
    }
}

/// A joint of the scene.
#[derive(Debug, Clone)]
pub struct JointMarker {
    pub kind: JointKind,
    pub body0: Option<u64>,
    pub body1: Option<u64>,
    pub joint_enabled: bool,
    pub exclude_from_articulation: bool,
    /// Whether the frames of the joint on its two bodies are turned alike.
    pub same_basis: bool,
    pub built_in_limit: Option<(Single, Single)>,
    pub drives: Vec<ReadDrive>,
}

/// The range of a joint.
#[derive(Debug, Clone, Copy, PartialEq, Eq, Structural)]
pub enum LimitPlan {
    Free,
    Range(Single, Single),
    /// No motion at all.
    Locked,
}

/// What moves a joint.
#[derive(Debug, Clone, Copy, PartialEq, Eq, Structural)]
pub enum MotorPlan {
    Nothing,
    /// Towards a position.
    Position { target: Single, stiffness: Single, damping: Single },
    /// Towards a velocity.
    Velocity { target: Single, damping: Single },
}

/// How to build a joint of one axis.
#[derive(Debug, Clone, Copy)]
pub struct AxisJointPlan {
    /// Whether the joint turns; it slides otherwise.
    pub turns: bool,
    /// Whether it is built from frames of its own on each body, which it must
    /// be where they are turned differently.
    pub generic: bool,
    pub limits: LimitPlan,
    /// Whether its motor is set to act by force.
    pub force_based: bool,
    pub motor: MotorPlan,
    pub max_force: Option<Single>,
}

/// The joint to build.
#[derive(Debug, Clone, Copy)]
pub enum JointBuild {
    Axis(AxisJointPlan),
    Fixed,
    Spherical,
}

/// What to do about a joint.
#[derive(Debug, Clone, Copy)]
pub enum JointAction {
    /// It is switched off, or of a kind that the world has no joint for: it
    /// counts as attached.
    Skip,
    /// It holds one body to the world, which becomes fixed; nothing happens
    /// where the world does not have the body. It counts as attached.
    Pin(Option<Handle>),
    /// One of its bodies is not in the world yet: it is looked at again.
    Wait,
    /// It is inserted between two bodies, into the articulations where
    /// `multibody` says so, and counts as attached.
    Insert {
        body0: Handle,
        body1: Handle,
        multibody: bool,
        build: JointBuild,
        /// Whether the two bodies may touch each other. Their shapes overlap
        /// where the joint is, so they may not.
        contacts: bool,
    },
}

/// Whether a drive on a degree of freedom is one of a joint that turns.
pub open spec fn is_turn(dof: Dof) -> bool {
    dof == Dof::Angular || dof == Dof::RotX || dof == Dof::RotY || dof == Dof::RotZ
}

/// Whether a drive on a degree of freedom is one of a joint that slides.
pub open spec fn is_slide(dof: Dof) -> bool {
    dof == Dof::Linear || dof == Dof::TransX || dof == Dof::TransY || dof == Dof::TransZ
}

/// Whether a drive on a degree of freedom is one of a joint that turns.
pub fn dof_matches_revolute(dof: Dof) -> (r: bool)
    ensures
        r == is_turn(dof),
{
    match dof {
        Dof::Angular | Dof::RotX | Dof::RotY | Dof::RotZ => true,
        _ => false,
    }
}

/// Whether a drive on a degree of freedom is one of a joint that slides.
pub fn dof_matches_prismatic(dof: Dof) -> (r: bool)
    ensures
        r == is_slide(dof),
{
    match dof {
        Dof::Linear | Dof::TransX | Dof::TransY | Dof::TransZ => true,
        _ => false,
    }
}

/// Whether a drive moves a joint that turns, or one that slides.
pub open spec fn drives_joint(dof: Dof, turns: bool) -> bool {
    if turns {
        is_turn(dof)
    } else {
        is_slide(dof)
    }
}

/// The first drive that moves a joint.
pub open spec fn first_drive(drives: Seq<ReadDrive>, turns: bool) -> Option<ReadDrive>
    decreases drives.len(),
{
    if drives.len() == 0 {
        None
    } else if drives_joint(drives[0].dof, turns) {
        Some(drives[0])
    } else {
        first_drive(drives.skip(1), turns)
    }
}

/// The range that a pair of ends stands for. A lower end above the upper one
/// locks the joint.
pub open spec fn limit_plan_of(limit: Option<(Single, Single)>) -> LimitPlan {
    match limit {
        None => LimitPlan::Free,
        Some((lo, hi)) => if hi.below(lo) {
            LimitPlan::Locked
        } else {
            LimitPlan::Range(lo, hi)
        },
    }
}

/// The motor of a drive: towards its position where it has one, else towards
/// its velocity.
pub open spec fn motor_of(drive: Option<ReadDrive>) -> MotorPlan {
    match drive {
        None => MotorPlan::Nothing,
        Some(d) => match (d.target_position, d.target_velocity) {
            (Some(target), _) => MotorPlan::Position {
                target,
                stiffness: d.stiffness,
                damping: d.damping,
            },
            (None, Some(target)) => MotorPlan::Velocity { target, damping: d.damping },
            (None, None) => MotorPlan::Nothing,
        },
    }
}

/// How to build a revolute or prismatic joint; a joint of another kind is not
/// one of one axis.
pub open spec fn axis_plan_of(j: JointMarker) -> Option<AxisJointPlan> {
    if j.kind == JointKind::Revolute || j.kind == JointKind::Prismatic {
        let turns = j.kind == JointKind::Revolute;
        let drive = first_drive(j.drives@, turns);
        Some(
            AxisJointPlan {
                turns,
                generic: !j.same_basis,
                limits: limit_plan_of(j.built_in_limit),
                force_based: j.same_basis && drive is Some,
                motor: motor_of(drive),
                max_force: match drive {
                    Some(d) => d.max_force,
                    None => None,
                },
            },
        )
    } else {
        None
    }
}

/// What to build for a joint, where the world has joints of its kind.
pub open spec fn build_of(j: JointMarker) -> Option<JointBuild> {
    match j.kind {
        JointKind::Revolute | JointKind::Prismatic => Some(JointBuild::Axis(axis_plan_of(j)->0)),
        JointKind::Fixed => Some(JointBuild::Fixed),
        JointKind::Spherical => Some(JointBuild::Spherical),
        JointKind::Distance | JointKind::Generic => None,
    }
}

/// The entry of a map.
pub open spec fn lookup<V>(map: Map<u64, V>, key: u64) -> Option<V> {
    if map.dom().contains(key) {
        Some(map[key])
    } else {
        None
    }
}

/// What to do about a joint, given the bodies that the world has and whether
/// the scene has an articulation.
pub open spec fn action_of(j: JointMarker, bodies: Map<u64, Handle>, any_articulation: bool) -> JointAction {
    if !j.joint_enabled {
        JointAction::Skip
    } else {
        match (j.body0, j.body1) {
            (Some(e0), Some(e1)) => match (lookup(bodies, e0), lookup(bodies, e1)) {
                (Some(body0), Some(body1)) => match build_of(j) {
                    Some(build) => JointAction::Insert {
                        body0,
                        body1,
                        multibody: any_articulation && !j.exclude_from_articulation,
                        build,
                        contacts: false,
                    },
                    None => JointAction::Skip,
                },
                _ => JointAction::Wait,
            },
            (_, Some(target)) => JointAction::Pin(lookup(bodies, target)),
            (Some(target), None) => JointAction::Pin(lookup(bodies, target)),
            (None, None) => JointAction::Pin(None),
        }
    }
}

/// Finds the first drive that moves a joint.
fn find_drive(drives: &Vec<ReadDrive>, turns: bool) -> (r: Option<ReadDrive>)
    ensures
        r == first_drive(drives@, turns),
{
    let mut i: usize = 0;
    assert(drives@.skip(0) =~= drives@);
    while i < drives.len()
        invariant
            i <= drives.len(),
            first_drive(drives@, turns) == first_drive(drives@.skip(i as int), turns),
        decreases drives.len() - i,
    {
        let d: ReadDrive = drives[i];
        let hit: bool = if turns {
            dof_matches_revolute(d.dof)
        } else {
            dof_matches_prismatic(d.dof)
        };
        if hit {
            return Some(d);
        }
        assert(drives@.skip(i as int).skip(1) =~= drives@.skip(i + 1));
        i = i + 1;
    }
    None
}

/// Decides how to build a revolute or prismatic joint.
pub fn plan_axis_joint(j: &JointMarker) -> (r: Option<AxisJointPlan>)
    ensures
        r == axis_plan_of(*j),
{
    let turns: bool = match j.kind {
        JointKind::Revolute => true,
        JointKind::Prismatic => false,
        _ => return None,
    };
    let limits: LimitPlan = match j.built_in_limit {
        None => LimitPlan::Free,
        Some((lo, hi)) => if hi.less(lo) {
            LimitPlan::Locked
        } else {
            LimitPlan::Range(lo, hi)
        },
    };
    let drive: Option<ReadDrive> = find_drive(&j.drives, turns);
    let motor: MotorPlan = match drive {
        None => MotorPlan::Nothing,
        Some(d) => match (d.target_position, d.target_velocity) {
            (Some(target), _) => MotorPlan::Position {
                target,
                stiffness: d.stiffness,
                damping: d.damping,
            },
            (None, Some(target)) => MotorPlan::Velocity { target, damping: d.damping },
            (None, None) => MotorPlan::Nothing,
        },
    };
    Some(
        AxisJointPlan {
            turns,
            generic: !j.same_basis,
            limits,
            force_based: j.same_basis && drive.is_some(),
            motor,
            max_force: match drive {
                Some(d) => d.max_force,
                None => None,
            },
        },
    )
}

/// Finds the entry of a map.
pub fn find_entry<V: Copy>(map: &HashMap<u64, V>, key: u64) -> (r: Option<V>)
    ensures
        r == lookup(map@, key),
{
    broadcast use vstd::std_specs::hash::group_hash_axioms;

    match map.get(&key) {
        Some(v) => Some(*v),
        None => None,
    }
}

/// The axes that a joint locks, one bit each: the three that it could slide along,
/// then the three that it could turn about. A joint of one axis leaves the first of
/// its three.
pub open spec fn locked_axes_of(build: JointBuild) -> u8 {
    match build {
        JointBuild::Axis(plan) => if plan.turns {
            0b11_0111u8
        } else {
            0b11_1110u8
        },
        JointBuild::Fixed => 0b11_1111u8,
        JointBuild::Spherical => 0b00_0111u8,
    }
}

/// Finds the axes that a joint locks.
pub fn locked_axes(build: &JointBuild) -> (r: u8)
    ensures
        r == locked_axes_of(*build),
        r < 64,
{
    match build {
        JointBuild::Axis(plan) => if plan.turns {
            0b11_0111
        } else {
            0b11_1110
        },
        JointBuild::Fixed => 0b11_1111,
        JointBuild::Spherical => 0b00_0111,
    }
}

/// Decides what to do about a joint.
pub fn plan_joint(j: &JointMarker, bodies: &HashMap<u64, Handle>, any_articulation: bool) -> (r:
    JointAction)
    ensures
        r == action_of(*j, bodies@, any_articulation),
{
    if !j.joint_enabled {
        return JointAction::Skip;
    }
    let (e0, e1): (u64, u64) = match (j.body0, j.body1) {
        (Some(e0), Some(e1)) => (e0, e1),
        (_, Some(target)) => return JointAction::Pin(find_entry(bodies, target)),
        (Some(target), None) => return JointAction::Pin(find_entry(bodies, target)),
        (None, None) => return JointAction::Pin(None),
    };
    let (body0, body1): (Handle, Handle) = match (find_entry(bodies, e0), find_entry(bodies, e1)) {
        (Some(body0), Some(body1)) => (body0, body1),
        _ => return JointAction::Wait,
    };
    let multibody: bool = any_articulation && !j.exclude_from_articulation;
    let build: JointBuild = match j.kind {
        JointKind::Revolute | JointKind::Prismatic => match plan_axis_joint(j) {
            Some(plan) => JointBuild::Axis(plan),
            None => return JointAction::Skip,
        },
        JointKind::Fixed => JointBuild::Fixed,
        JointKind::Spherical => JointBuild::Spherical,
        JointKind::Distance | JointKind::Generic => return JointAction::Skip,
    };
    JointAction::Insert { body0, body1, multibody, build, contacts: false }
}

/// Decides what to do about every joint that is not attached yet.
pub fn convert_joints(
    joints: &Vec<JointMarker>,
    bodies: &HashMap<u64, Handle>,
    any_articulation: bool,
) -> (r: Vec<JointAction>)
    ensures
        r.len() == joints.len(),
        forall|i: int|
            0 <= i < joints.len() ==> #[trigger] r@[i] == action_of(
                joints@[i],
                bodies@,
                any_articulation,
            ),
{
    let mut out: Vec<JointAction> = Vec::new();
    let mut i: usize = 0;
    while i < joints.len()
        invariant
            i <= joints.len(),
            out.len() == i,
            forall|k: int|
                0 <= k < i ==> #[trigger] out@[k] == action_of(
                    joints@[k],
                    bodies@,
                    any_articulation,
                ),
        decreases joints.len() - i,
    {
        out.push(plan_joint(&joints[i], bodies, any_articulation));
        i = i + 1;
    }
    out
}

/// Whether a joint counts as attached after an action, and is not looked at
/// again.
pub open spec fn settles(action: JointAction) -> bool {
    !(action is Wait)
}

/// Whether a joint counts as attached after an action.
pub fn is_settled(action: &JointAction) -> (r: bool)
    ensures
        r == settles(*action),
{
    match action {
        JointAction::Wait => false,
        _ => true,
    }
}

/// Whether a joint goes, or also goes, into the set of joints outside
/// articulations: one that is not meant for an articulation does, and so does
/// one of one axis that the articulations refused, as they refuse a loop.
pub fn needs_impulse_joint(build: &JointBuild, multibody: bool, accepted: bool) -> (r: bool)
    ensures
        r == (!multibody || (!accepted && build is Axis)),
{
    !multibody || (!accepted && match build {
        JointBuild::Axis(_) => true,
        _ => false,
    })
}

/// A joint is looked at again only while one of its two bodies is missing from
/// the world.
pub proof fn only_missing_bodies_wait(
    j: JointMarker,
    bodies: Map<u64, Handle>,
    any_articulation: bool,
)
    ensures
        settles(action_of(j, bodies, any_articulation)) <==> !(j.joint_enabled && j.body0 is Some
            && j.body1 is Some && (!bodies.dom().contains(j.body0->0) || !bodies.dom().contains(
            j.body1->0,
        ))),
{
}

/// Without an articulation in the scene, no joint goes into one; with one, every
/// inserted joint does, unless it is excluded.
pub proof fn articulations_take_what_is_not_excluded(
    j: JointMarker,
    bodies: Map<u64, Handle>,
    any_articulation: bool,
)
    ensures
        action_of(j, bodies, any_articulation) matches JointAction::Insert { multibody, .. }
            ==> multibody == (any_articulation && !j.exclude_from_articulation),
{
}

/// The bodies of a joint that is inserted never touch each other.
pub proof fn jointed_bodies_do_not_touch(
    j: JointMarker,
    bodies: Map<u64, Handle>,
    any_articulation: bool,
)
    ensures
        action_of(j, bodies, any_articulation) matches JointAction::Insert { contacts, .. }
            ==> !contacts,
{
}

/// A range whose lower end is not above its upper one never locks a joint, also
/// when its ends have been narrowed.
pub proof fn ranges_stay_open(lower: Double, upper: Double)
    requires
        !upper.below(lower),
    ensures
        !(limit_plan_of(Some((lower.nearest(), upper.nearest()))) is Locked),
{
    if lower.nan() {
        narrowing_keeps_nans(lower);
    } else if upper.nan() {
        narrowing_keeps_nans(upper);
    } else {
        narrowing_keeps_the_order(lower, upper);
    }
}

/// No drive moves both a joint that turns and one that slides, and the only
/// degree of freedom that moves neither is the distance.
pub proof fn drives_are_told_apart(dof: Dof)
    ensures
        !(is_turn(dof) && is_slide(dof)),
        !is_turn(dof) && !is_slide(dof) <==> dof == Dof::Distance,
{
}

/// The drive of a joint is one of those it has, and no earlier one moves it.
pub proof fn first_drive_is_the_first(drives: Seq<ReadDrive>, turns: bool)
    ensures
        match first_drive(drives, turns) {
            Some(d) => exists|i: int|
                0 <= i < drives.len() && #[trigger] drives[i] == d && drives_joint(d.dof, turns)
                    && forall|k: int| 0 <= k < i ==> !drives_joint(#[trigger] drives[k].dof, turns),
            None => forall|k: int|
                0 <= k < drives.len() ==> !drives_joint(#[trigger] drives[k].dof, turns),
        },
    decreases drives.len(),
{
    if drives.len() > 0 && !drives_joint(drives[0].dof, turns) {
        let rest = drives.skip(1);
        first_drive_is_the_first(rest, turns);
        match first_drive(rest, turns) {
            Some(d) => {
                let i = choose|i: int|
                    0 <= i < rest.len() && #[trigger] rest[i] == d && drives_joint(d.dof, turns)
                        && forall|k: int|
                        0 <= k < i ==> !drives_joint(#[trigger] rest[k].dof, turns);
                assert(drives[i + 1] == d);
                assert forall|k: int| 0 <= k < i + 1 implies !drives_joint(
                    #[trigger] drives[k].dof,
                    turns,
                ) by {
                    if k > 0 {
                        assert(rest[k - 1] == drives[k]);
                    }
                }
            },
            None => {
                assert forall|k: int| 0 <= k < drives.len() implies !drives_joint(
                    #[trigger] drives[k].dof,
                    turns,
                ) by {
                    if k > 0 {
                        assert(rest[k - 1] == drives[k]);
                    }
                }
            },
        }
    }
}

} // verus!
