//! What holds of bodies, colliders and joints, said of what goes in and what
//! comes out.

use crate::ieee::{Double, Single};
use crate::physics::types::{CollisionApprox, Dof, JointKind, ReadDrive};
use crate::rapier::bodies::{
    body_plan_of, body_plans, BodyMarker, BodyRequest, BodyType, MassMarker, MassPlan,
};
use crate::rapier::colliders::{
    are_collider_plans, closest_axis, is_collider_plan, is_mesh_plan, is_ready, material_plan_of,
    material_plans, ColliderPlan, ColliderRequest, Entities, MaterialMarker, MeshPlan,
};
use crate::rapier::groups::{groups_of, may_touch, Groups};
use crate::rapier::hierarchy::{ancestor, is_nearest};
use crate::rapier::joints::{
    action_of, axis_plan_of, is_slide, is_turn, locked_axes_of, lookup, settles, Handle,
    JointAction, JointBuild, JointMarker, LimitPlan, MotorPlan,
};
use crate::rapier::scene::gravity_plan_of;
use crate::rapier::world::{locks_after, pairs_after, parents_after};
use crate::xform::Axis;
use vstd::multiset::Multiset;
use vstd::prelude::*;

verus! {

/// A joint that turns or slides keeps the range that it was given, whatever its
/// kind, its frames and its drives: it is free exactly where no ends are given,
/// locked exactly where the lower end is above the upper one, and any range it
/// has is the given pair of ends.
pub proof fn ranges_are_kept(j: JointMarker)
    requires
        j.kind == JointKind::Revolute || j.kind == JointKind::Prismatic,
    ensures
        axis_plan_of(j) is Some,
        axis_plan_of(j)->0.limits is Free <==> j.built_in_limit is None,
        axis_plan_of(j)->0.limits is Locked <==> (j.built_in_limit matches Some((lo, hi))
            && !lo.nan() && !hi.nan() && lo.place() > hi.place()),
        axis_plan_of(j)->0.limits matches LimitPlan::Range(lo, hi) ==> j.built_in_limit == Some(
            (lo, hi),
        ),
{
}

/// Two joints that turn or slide have the same range where they were given the
/// same ends, however else they differ.
pub proof fn ranges_depend_on_the_ends_alone(a: JointMarker, b: JointMarker)
    requires
        a.kind == JointKind::Revolute || a.kind == JointKind::Prismatic,
        b.kind == JointKind::Revolute || b.kind == JointKind::Prismatic,
        a.built_in_limit == b.built_in_limit,
    ensures
        axis_plan_of(a)->0.limits == axis_plan_of(b)->0.limits,
{
}

/// A joint is one of one axis exactly where it turns or slides. It is built from
/// frames of its own on each body exactly where these are turned differently.
pub proof fn axis_joints_turn_or_slide(j: JointMarker)
    ensures
        axis_plan_of(j) is Some <==> j.kind == JointKind::Revolute || j.kind
            == JointKind::Prismatic,
        axis_plan_of(j) matches Some(plan) ==> plan.turns == (j.kind == JointKind::Revolute),
        axis_plan_of(j) matches Some(plan) ==> plan.generic != j.same_basis,
{
}

/// A drive moves a joint that turns where it is named for an angle or a rotation,
/// and one that slides where it is named for a line or a translation.
pub proof fn drives_are_told_by_their_names(dof: Dof)
    ensures
        is_turn(dof) <==> "rot"@.is_prefix_of(dof.token()) || dof.token() == "angular"@,
        is_slide(dof) <==> "trans"@.is_prefix_of(dof.token()) || dof.token() == "linear"@,
{
    reveal_strlit("transX");
    reveal_strlit("transY");
    reveal_strlit("transZ");
    reveal_strlit("rotX");
    reveal_strlit("rotY");
    reveal_strlit("rotZ");
    reveal_strlit("linear");
    reveal_strlit("angular");
    reveal_strlit("distance");
    reveal_strlit("rot");
    reveal_strlit("trans");
    let t = dof.token();
    if is_turn(dof) && dof != Dof::Angular {
        assert("rot"@ =~= t.take(3));
    }
    if is_slide(dof) && dof != Dof::Linear {
        assert("trans"@ =~= t.take(5));
    }
    if "rot"@.is_prefix_of(t) {
        assert("rot"@[0] == t[0]);
    }
    if "trans"@.is_prefix_of(t) {
        assert("trans"@[0] == t[0]);
    }
    if t == "angular"@ {
        assert(t[0] == 'a');
    }
    if t == "linear"@ {
        assert(t[0] == 'l');
    }
}

/// The first drive of a joint that is one of its motion sets the motor: towards
/// its position, where it has one, with its stiffness and damping; else towards
/// its velocity, with its damping; else nothing. Its largest force is that of the
/// motor, which acts by force where the frames of the joint are turned alike.
/// Drives of other motions, and later ones, count for nothing.
pub proof fn motors_follow_the_first_drive(j: JointMarker, i: int)
    requires
        j.kind == JointKind::Revolute || j.kind == JointKind::Prismatic,
        0 <= i < j.drives@.len(),
        if j.kind == JointKind::Revolute {
            is_turn(j.drives@[i].dof)
        } else {
            is_slide(j.drives@[i].dof)
        },
        forall|k: int|
            0 <= k < i ==> if j.kind == JointKind::Revolute {
                !is_turn((#[trigger] j.drives@[k]).dof)
            } else {
                !is_slide(j.drives@[k].dof)
            },
    ensures
        ({
            let d = j.drives@[i];
            let plan = axis_plan_of(j)->0;
            &&& plan.max_force == d.max_force
            &&& plan.force_based == j.same_basis
            &&& d.target_position is Some ==> plan.motor == (MotorPlan::Position {
                target: d.target_position->0,
                stiffness: d.stiffness,
                damping: d.damping,
            })
            &&& d.target_position is None && d.target_velocity is Some ==> plan.motor == (
            MotorPlan::Velocity { target: d.target_velocity->0, damping: d.damping })
            &&& plan.motor is Nothing <==> d.target_position is None && d.target_velocity is None
        }),
{
    lemma_first_drive(j.drives@, j.kind == JointKind::Revolute, i);
}

/// The drive that moves a joint is the first one of its motion.
proof fn lemma_first_drive(drives: Seq<ReadDrive>, turns: bool, i: int)
    requires
        0 <= i < drives.len(),
        if turns {
            is_turn(drives[i].dof)
        } else {
            is_slide(drives[i].dof)
        },
        forall|k: int|
            0 <= k < i ==> if turns {
                !is_turn((#[trigger] drives[k]).dof)
            } else {
                !is_slide(drives[k].dof)
            },
    ensures
        crate::rapier::joints::first_drive(drives, turns) == Some(drives[i]),
    decreases i,
{
    if i > 0 {
        assert(drives[0] == drives[0int]);
        let rest = drives.skip(1);
        assert forall|k: int| 0 <= k < i - 1 implies if turns {
            !is_turn((#[trigger] rest[k]).dof)
        } else {
            !is_slide(rest[k].dof)
        } by {
            assert(rest[k] == drives[k + 1]);
        }
        lemma_first_drive(rest, turns, i - 1);
    }
}

/// A joint that has no drive of its motion has no motor.
pub proof fn undriven_joints_have_no_motor(j: JointMarker)
    requires
        j.kind == JointKind::Revolute || j.kind == JointKind::Prismatic,
        forall|k: int|
            0 <= k < j.drives@.len() ==> if j.kind == JointKind::Revolute {
                !is_turn((#[trigger] j.drives@[k]).dof)
            } else {
                !is_slide(j.drives@[k].dof)
            },
    ensures
        axis_plan_of(j)->0.motor is Nothing,
        axis_plan_of(j)->0.max_force is None,
        !axis_plan_of(j)->0.force_based,
{
    lemma_no_drive(j.drives@, j.kind == JointKind::Revolute);
}

/// Among drives of other motions there is none to move a joint.
proof fn lemma_no_drive(drives: Seq<ReadDrive>, turns: bool)
    requires
        forall|k: int|
            0 <= k < drives.len() ==> if turns {
                !is_turn((#[trigger] drives[k]).dof)
            } else {
                !is_slide(drives[k].dof)
            },
    ensures
        crate::rapier::joints::first_drive(drives, turns) is None,
    decreases drives.len(),
{
    if drives.len() > 0 {
        assert(drives[0] == drives[0int]);
        let rest = drives.skip(1);
        assert forall|k: int| 0 <= k < rest.len() implies if turns {
            !is_turn((#[trigger] rest[k]).dof)
        } else {
            !is_slide(rest[k].dof)
        } by {
            assert(rest[k] == drives[k + 1]);
        }
        lemma_no_drive(rest, turns);
    }
}

/// A joint that is switched off is skipped, whatever it joins.
pub proof fn disabled_joints_are_skipped(
    j: JointMarker,
    bodies: Map<u64, Handle>,
    any_articulation: bool,
)
    requires
        !j.joint_enabled,
    ensures
        action_of(j, bodies, any_articulation) is Skip,
{
}

/// A joint between two bodies of the world is inserted between these two, the
/// first of them first, and is what its kind says: one of one axis as planned, a
/// fixed one, or a spherical one. The world has no joint for the other kinds, and
/// they are skipped.
pub proof fn joints_join_their_bodies(
    j: JointMarker,
    bodies: Map<u64, Handle>,
    any_articulation: bool,
    e0: u64,
    e1: u64,
)
    requires
        j.joint_enabled,
        j.body0 == Some(e0),
        j.body1 == Some(e1),
        bodies.dom().contains(e0),
        bodies.dom().contains(e1),
    ensures
        action_of(j, bodies, any_articulation) is Skip || action_of(
            j,
            bodies,
            any_articulation,
        ) is Insert,
        action_of(j, bodies, any_articulation) is Skip <==> j.kind == JointKind::Distance || j.kind
            == JointKind::Generic,
        action_of(j, bodies, any_articulation) matches JointAction::Insert {
            body0,
            body1,
            multibody,
            build,
            contacts,
        } ==> {
            &&& body0 == bodies[e0]
            &&& body1 == bodies[e1]
            &&& multibody == (any_articulation && !j.exclude_from_articulation)
            &&& !contacts
            &&& build is Fixed <==> j.kind == JointKind::Fixed
            &&& build is Spherical <==> j.kind == JointKind::Spherical
            &&& build matches JointBuild::Axis(plan) ==> axis_plan_of(j) == Some(plan)
        },
{
}

/// A joint between two bodies, one of which the world does not have, waits.
pub proof fn joints_wait_for_their_bodies(
    j: JointMarker,
    bodies: Map<u64, Handle>,
    any_articulation: bool,
    e0: u64,
    e1: u64,
)
    requires
        j.joint_enabled,
        j.body0 == Some(e0),
        j.body1 == Some(e1),
        !bodies.dom().contains(e0) || !bodies.dom().contains(e1),
    ensures
        action_of(j, bodies, any_articulation) is Wait,
        !settles(action_of(j, bodies, any_articulation)),
{
}

/// A joint of one body alone, on whichever side, holds that body to the world,
/// if the world has it; a joint of no body holds none.
pub proof fn lone_bodies_are_pinned(
    j: JointMarker,
    bodies: Map<u64, Handle>,
    any_articulation: bool,
)
    requires
        j.joint_enabled,
        j.body0 is None || j.body1 is None,
    ensures
        ({
            let action = action_of(j, bodies, any_articulation);
            &&& action is Pin
            &&& j.body0 is None && j.body1 is None ==> action == JointAction::Pin(None)
            &&& forall|e: u64|
                (j.body0 == Some(e) || j.body1 == Some(e)) && bodies.dom().contains(e)
                    ==> action == JointAction::Pin(Some(#[trigger] bodies[e]))
            &&& forall|e: u64|
                (j.body0 == Some(e) || j.body1 == Some(e)) && !(#[trigger] bodies.dom().contains(
                    e,
                )) ==> action == JointAction::Pin(None)
        }),
{
}

/// Of the six axes of a joint, the three that it could slide along and then the
/// three that it could turn about, a fixed joint locks all, a spherical one those
/// to slide along, one that turns all but the first to turn about, and one that
/// slides all but the first to slide along.
pub proof fn joints_lock_the_axes_they_do_not_move_about(build: JointBuild, k: u8)
    requires
        k < 6,
    ensures
        (locked_axes_of(build) >> k) & 1u8 == 1u8 <==> match build {
            JointBuild::Fixed => true,
            JointBuild::Spherical => k < 3,
            JointBuild::Axis(plan) => k != (if plan.turns {
                3u8
            } else {
                0u8
            }),
        },
{
    assert((0b11_0111u8 >> k) & 1u8 == 1u8 <==> k != 3) by (bit_vector)
        requires
            k < 6,
    ;
    assert((0b11_1110u8 >> k) & 1u8 == 1u8 <==> k != 0) by (bit_vector)
        requires
            k < 6,
    ;
    assert((0b11_1111u8 >> k) & 1u8 == 1u8) by (bit_vector)
        requires
            k < 6,
    ;
    assert((0b00_0111u8 >> k) & 1u8 == 1u8 <==> k < 3) by (bit_vector)
        requires
            k < 6,
    ;
}

/// A body is built for its entity, with its velocities, asleep where it starts so.
/// It is fixed exactly where it is switched off, and kinematic exactly where it is
/// both on and kinematic; only the rest, which forces move, is damped, by a tenth
/// along lines and by a half about axes.
pub proof fn bodies_are_built_as_marked(entity: u64, rb: BodyMarker, mass: Option<MassMarker>)
    ensures
        ({
            let plan = body_plan_of(entity, rb, mass);
            &&& plan.entity == entity
            &&& plan.velocity == rb.velocity
            &&& plan.angular_velocity == rb.angular_velocity
            &&& plan.sleeping == rb.starts_asleep
            &&& plan.body_type == BodyType::Fixed <==> !rb.enabled
            &&& plan.body_type == BodyType::KinematicPositionBased <==> rb.enabled && rb.kinematic
            &&& plan.damping is Some <==> rb.enabled && !rb.kinematic
            &&& plan.damping matches Some(d) ==> d.linear == (Double {
                bits: 0x3fb9_9999_9999_999a,
            }) && d.angular == (Double { bits: 0x3fe0_0000_0000_0000 })
        }),
{
}

/// A body for which a mass is given gets that mass, about the centre that is
/// given, or the origin only where none is, and with the inertia that is given,
/// whatever else the body is and whatever density it has.
pub proof fn given_masses_are_kept(entity: u64, rb: BodyMarker, m: MassMarker, kg: Single)
    requires
        m.mass == Some(kg),
    ensures
        ({
            let plan = body_plan_of(entity, rb, Some(m)).mass;
            &&& plan is Given
            &&& plan->Given_mass == kg
            &&& plan->Given_inertia == m.diagonal_inertia
            &&& m.center_of_mass matches Some(c) ==> plan->Given_center == c
            &&& m.center_of_mass is None ==> forall|i: int|
                0 <= i < 3 ==> (#[trigger] plan->Given_center[i]).bits == 0
        }),
{
}

/// A body without a given mass gets a density exactly where one above zero is
/// given, and then that one. Where neither counts, a body that forces move gets a
/// mass of a thousandth and an inertia of a ten-thousandth, and any other nothing.
pub proof fn other_masses_come_from_the_density(
    entity: u64,
    rb: BodyMarker,
    mass: Option<MassMarker>,
)
    requires
        mass matches Some(m) ==> m.mass is None,
    ensures
        ({
            let plan = body_plan_of(entity, rb, mass).mass;
            let counts = mass matches Some(m) && m.density is Some && !m.density->0.nan()
                && m.density->0.place() > 0;
            &&& !(plan is Given)
            &&& plan is Density <==> counts
            &&& plan is Density ==> mass->0.density == Some(plan->Density_density)
            &&& plan is Safety <==> !counts && rb.enabled && !rb.kinematic
            &&& plan is Safety ==> plan->least_mass == (Double { bits: 0x3f50_624d_d2f1_a9fc })
                && plan->least_inertia == (Double { bits: 0x3f1a_36e2_eb1c_432d })
        }),
{
}

/// The bodies to build of two lists, one behind the other, are those of the first
/// and then those of the second; a single body is built, as it is marked, exactly
/// where the world does not have it.
pub proof fn bodies_are_built_one_by_one(a: Seq<BodyRequest>, b: Seq<BodyRequest>, q: BodyRequest)
    ensures
        body_plans(a + b) == body_plans(a) + body_plans(b),
        body_plans(seq![q]).len() == if q.attached {
            0int
        } else {
            1
        },
        !q.attached ==> body_plans(seq![q])[0] == body_plan_of(q.entity, q.body, q.mass),
{
    let keep = |q: BodyRequest| !q.attached;
    Seq::filter_distributes_over_add(a, b, keep);
    assert(body_plans(a + b) =~= body_plans(a) + body_plans(b));
    reveal(Seq::filter);
    assert(seq![q].drop_last() =~= seq![]);
    reveal_with_fuel(Seq::filter, 2);
}

/// What to set on a collider is settled by the material of its entity: there is
/// something exactly where the entity has a material and a collider in the world,
/// and it names that collider, with the restitution that the material gives, or
/// gives none of.
pub proof fn materials_are_set_on_their_colliders(
    entity: u64,
    material: Option<MaterialMarker>,
    colliders: Map<u64, Handle>,
)
    ensures
        material_plan_of(entity, material, colliders) is Some <==> material is Some
            && colliders.dom().contains(entity),
        material_plan_of(entity, material, colliders) matches Some(plan) ==> plan.collider
            == colliders[entity] && plan.restitution == material->0.restitution,
{
}

/// The friction of a collider is that of moving, where its material gives it;
/// where it gives that of resting alone, that; and a half where it gives neither.
pub proof fn friction_of_moving_goes_first(
    entity: u64,
    m: MaterialMarker,
    colliders: Map<u64, Handle>,
)
    requires
        colliders.dom().contains(entity),
    ensures
        ({
            let friction = material_plan_of(entity, Some(m), colliders)->0.friction;
            &&& m.dynamic_friction matches Some(x) ==> friction == x
            &&& m.dynamic_friction is None && m.static_friction is Some ==> m.static_friction
                == Some(friction)
            &&& m.dynamic_friction is None && m.static_friction is None ==> friction.bits
                == 0x3f00_0000
        }),
{
}

/// What is set on the colliders of two lists of entities, one behind the other, is
/// what is set for the first and then what is set for the second; for a single
/// entity it is what its material says, if anything.
pub proof fn materials_are_set_one_by_one(
    a: Seq<(u64, Option<MaterialMarker>)>,
    b: Seq<(u64, Option<MaterialMarker>)>,
    one: (u64, Option<MaterialMarker>),
    colliders: Map<u64, Handle>,
)
    ensures
        material_plans(a + b, colliders) == material_plans(a, colliders) + material_plans(
            b,
            colliders,
        ),
        material_plans(seq![one], colliders).len() == if one.1 is Some && colliders.dom().contains(
            one.0,
        ) {
            1int
        } else {
            0
        },
        one.1 is Some && colliders.dom().contains(one.0) ==> Some(
            material_plans(seq![one], colliders)[0],
        ) == material_plan_of(one.0, one.1, colliders),
    decreases b.len(),
{
    reveal_with_fuel(material_plans, 2);
    assert(seq![one].drop_last() =~= seq![]);
    if b.len() == 0 {
        assert(a + b =~= a);
        assert(material_plans(a, colliders) + material_plans(b, colliders) =~= material_plans(
            a,
            colliders,
        ));
    } else {
        materials_are_set_one_by_one(a, b.drop_last(), one, colliders);
        assert((a + b).drop_last() =~= a + b.drop_last());
        assert((a + b).last() == b.last());
        assert(material_plans(a + b, colliders) =~= material_plans(a, colliders) + material_plans(
            b,
            colliders,
        ));
    }
}

/// A mesh becomes its triangles exactly where it is left to the engine, or
/// simplified, and forces do not move its body; it becomes a decomposition exactly
/// where it says so and has an index list, and nothing where it says so and has
/// none; in all other cases it becomes its convex hull.
pub proof fn meshes_become_what_they_say(
    plan: MeshPlan,
    approximation: Option<CollisionApprox>,
    is_dynamic: bool,
    indices: Option<Vec<u32>>,
    vertices: usize,
)
    requires
        is_mesh_plan(plan, approximation, is_dynamic, indices, vertices),
    ensures
        plan is TriMesh <==> !is_dynamic && (approximation is None || approximation == Some(
            CollisionApprox::EngineDefault,
        ) || approximation == Some(CollisionApprox::MeshSimplification)),
        plan is ConvexDecomposition <==> approximation == Some(
            CollisionApprox::ConvexDecomposition,
        ) && indices is Some,
        plan is Nothing <==> approximation == Some(CollisionApprox::ConvexDecomposition)
            && indices is None,
{
}

/// The triangles of the collider of a mesh are made of the corners of the mesh in
/// their order, three by three, and as many as there are: corner `k` of triangle
/// `i` is entry `3 * i + k` of the index list, and without one vertex `3 * i + k`.
pub proof fn triangles_keep_the_corners(
    plan: MeshPlan,
    approximation: Option<CollisionApprox>,
    is_dynamic: bool,
    indices: Option<Vec<u32>>,
    vertices: usize,
    i: int,
    k: int,
)
    requires
        is_mesh_plan(plan, approximation, is_dynamic, indices, vertices),
        plan is TriMesh || plan is ConvexDecomposition,
        vertices <= u32::MAX,
        0 <= k < 3,
    ensures
        ({
            let triangles = match plan {
                MeshPlan::TriMesh(list) => list@,
                MeshPlan::ConvexDecomposition(list) => list@,
                _ => seq![],
            };
            match indices {
                Some(corners) => {
                    &&& 3 * triangles.len() <= corners@.len() < 3 * triangles.len() + 3
                    &&& 0 <= i < triangles.len() ==> triangles[i][k] == corners@[3 * i + k]
                },
                None => {
                    &&& 3 * triangles.len() <= vertices < 3 * triangles.len() + 3
                    &&& 0 <= i < triangles.len() ==> triangles[i][k] == 3 * i + k
                },
            }
        }),
{
    assert(k == 0 || k == 1 || k == 2);
}

/// The axis of a cylinder is one along which its direction reaches furthest. Where
/// several are as far, the second one goes before the others and the third before
/// the first; a part that is no number is passed over for the second one.
pub proof fn cylinders_lie_along_their_longest_part(direction: [Single; 3])
    ensures
        ({
            let x = direction[0];
            let y = direction[1];
            let z = direction[2];
            let axis = closest_axis(direction);
            &&& axis == Axis::X ==> !x.nan() && !y.nan() && !z.nan() && x.magnitude()
                > y.magnitude() && x.magnitude() > z.magnitude()
            &&& axis == Axis::Z ==> !y.nan() && !z.nan() && z.magnitude() > y.magnitude()
            &&& axis == Axis::Z && !x.nan() ==> z.magnitude() >= x.magnitude()
            &&& axis == Axis::Y && !y.nan() && !z.nan() ==> y.magnitude() >= z.magnitude()
            &&& axis == Axis::Y && !x.nan() && !y.nan() && !z.nan() ==> y.magnitude()
                >= x.magnitude()
        }),
{
}

/// Whether a collider waits depends on its mesh alone: one of another shape never
/// does. The mesh of a collider is that of its entity, where that has one.
pub proof fn only_meshes_wait(q: ColliderRequest, loaded: Set<u64>)
    ensures
        !(q.shape is Mesh) ==> is_ready(q, loaded),
        q.shape is Mesh ==> (q.mesh matches Some(m) ==> is_ready(q, loaded) == loaded.contains(m)),
{
}

/// Where the entity of a collider has no mesh, the mesh is that of the first of its
/// children that has one; without any, the collider waits.
pub proof fn first_child_lends_its_mesh(
    q: ColliderRequest,
    loaded: Set<u64>,
    plan: ColliderPlan,
    known: Entities,
    i: int,
)
    requires
        q.shape is Mesh,
        q.mesh is None,
        0 <= i <= q.child_meshes@.len(),
        forall|k: int| 0 <= k < i ==> (#[trigger] q.child_meshes@[k]) is None,
        i < q.child_meshes@.len() ==> q.child_meshes@[i] is Some,
    ensures
        i == q.child_meshes@.len() ==> !is_ready(q, loaded),
        i < q.child_meshes@.len() ==> is_ready(q, loaded) == loaded.contains(
            q.child_meshes@[i]->0,
        ),
        i < q.child_meshes@.len() && is_collider_plan(plan, q, known) ==> plan.mesh
            == q.child_meshes@[i],
{
    lemma_first_mesh(q.child_meshes@, i);
}

/// The first mesh of a list is the one in front of which there is none.
proof fn lemma_first_mesh(meshes: Seq<Option<u64>>, i: int)
    requires
        0 <= i <= meshes.len(),
        forall|k: int| 0 <= k < i ==> (#[trigger] meshes[k]) is None,
        i < meshes.len() ==> meshes[i] is Some,
    ensures
        crate::rapier::colliders::first_mesh(meshes) == if i < meshes.len() {
            meshes[i]
        } else {
            None
        },
    decreases i,
{
    if i > 0 {
        assert(meshes[0] is None);
        let rest = meshes.skip(1);
        assert forall|k: int| 0 <= k < i - 1 implies (#[trigger] rest[k]) is None by {
            assert(rest[k] == meshes[k + 1]);
        }
        if i < meshes.len() {
            assert(rest[i - 1] == meshes[i]);
        }
        lemma_first_mesh(rest, i - 1);
    }
}

/// A collider is inserted for its entity, under the body that the nearest body
/// above it has in the world; it is of a moving body exactly where that one was
/// built to be moved by forces, and has a density exactly where that one was built
/// with it. Only a mesh is made of a mesh, and only a cylinder is turned to its
/// axis.
pub proof fn colliders_follow_their_body(plan: ColliderPlan, q: ColliderRequest, known: Entities)
    requires
        is_collider_plan(plan, q, known),
    ensures
        plan.entity == q.entity,
        is_nearest(known.parents@, known.attached@, q.entity, plan.body_entity),
        plan.body is Some <==> (plan.body_entity matches Some(e) && known.bodies@.dom().contains(
            e,
        )),
        plan.body matches Some(body) ==> body == known.bodies@[plan.body_entity->0],
        plan.is_dynamic <==> (plan.body_entity matches Some(e) && known.plans@.dom().contains(e)
            && known.plans@[e].body_type == BodyType::Dynamic),
        plan.density is Some <==> (plan.body_entity matches Some(e) && known.plans@.dom().contains(
            e,
        ) && known.plans@[e].mass is Density),
        plan.density matches Some(d) ==> known.plans@[plan.body_entity->0].mass == (
        MassPlan::Density { density: d }),
        !(q.shape is Mesh) ==> plan.mesh is None,
        q.shape is Mesh && q.mesh is Some ==> plan.mesh == q.mesh,
        plan.remap_axis == (q.shape is Cylinder),
{
}

/// A collider has groups exactly where there is the root of an articulation at or
/// above its entity, and then those of the nearest one.
pub proof fn colliders_have_the_groups_of_their_articulation(
    plan: ColliderPlan,
    q: ColliderRequest,
    known: Entities,
    root: Option<u64>,
)
    requires
        is_collider_plan(plan, q, known),
        is_nearest(known.parents@, known.roots@, q.entity, root),
    ensures
        plan.groups is Some <==> root is Some,
        root matches Some(r) ==> plan.groups == Some(groups_of(r)),
{
    match plan.groups {
        Some(groups) => {
            let r = choose|r: u64|
                is_nearest(known.parents@, known.roots@, q.entity, Some(r)) && groups
                    == #[trigger] groups_of(r);
            crate::rapier::hierarchy::nearest_is_unique(
                known.parents@,
                known.roots@,
                q.entity,
                Some(r),
                root,
            );
        },
        None => {
            crate::rapier::hierarchy::nearest_is_unique(
                known.parents@,
                known.roots@,
                q.entity,
                None,
                root,
            );
        },
    }
}

/// Every collider that can be built is, once, and in its place: the colliders that
/// the plans are for, which are returned by their places, rise, and are exactly
/// those that can be built.
pub proof fn ready_colliders_are_built_in_order(
    plans: Seq<ColliderPlan>,
    requests: Seq<ColliderRequest>,
    known: Entities,
) -> (at: Seq<int>)
    requires
        are_collider_plans(plans, requests, known),
    ensures
        at.len() == plans.len(),
        forall|k: int|
            0 <= k < at.len() ==> 0 <= (#[trigger] at[k]) < requests.len() && is_ready(
                requests[at[k]],
                known.loaded@,
            ) && is_collider_plan(plans[k], requests[at[k]], known),
        forall|k: int, l: int| 0 <= k < l < at.len() ==> (#[trigger] at[k]) < (#[trigger] at[l]),
        forall|i: int|
            0 <= i < requests.len() && is_ready(#[trigger] requests[i], known.loaded@)
                ==> at.contains(i),
    decreases requests.len(),
{
    if requests.len() == 0 {
        seq![]
    } else {
        let front = requests.drop_last();
        let last = requests.len() - 1;
        if is_ready(requests.last(), known.loaded@) {
            let before = ready_colliders_are_built_in_order(plans.drop_last(), front, known);
            let at = before.push(last);
            assert forall|k: int| 0 <= k < at.len() implies 0 <= (#[trigger] at[k])
                < requests.len() && is_ready(requests[at[k]], known.loaded@) && is_collider_plan(
                plans[k],
                requests[at[k]],
                known,
            ) by {
                if k < before.len() {
                    assert(at[k] == before[k]);
                    assert(front[before[k]] == requests[before[k]]);
                }
            }
            assert forall|i: int|
                0 <= i < requests.len() && is_ready(
                    #[trigger] requests[i],
                    known.loaded@,
                ) implies at.contains(i) by {
                if i < last {
                    assert(front[i] == requests[i]);
                    assert(before.contains(i));
                    let k = choose|k: int| 0 <= k < before.len() && before[k] == i;
                    assert(at[k] == i);
                } else {
                    assert(at[before.len() as int] == i);
                }
            }
            at
        } else {
            let at = ready_colliders_are_built_in_order(plans, front, known);
            assert forall|k: int| 0 <= k < at.len() implies 0 <= (#[trigger] at[k])
                < requests.len() && is_ready(requests[at[k]], known.loaded@) && is_collider_plan(
                plans[k],
                requests[at[k]],
                known,
            ) by {
                assert(front[at[k]] == requests[at[k]]);
            }
            assert forall|i: int|
                0 <= i < requests.len() && is_ready(
                    #[trigger] requests[i],
                    known.loaded@,
                ) implies at.contains(i) by {
                if i < last {
                    assert(front[i] == requests[i]);
                }
            }
            at
        }
    }
}

/// The colliders of an articulation are in one group, whose number is one more than
/// what its root leaves when divided by 31, and they collide with all groups but
/// that one.
pub proof fn articulations_are_in_one_group(root: u64, k: u32)
    requires
        k < 32,
    ensures
        (groups_of(root).memberships >> k) & 1u32 == 1u32 <==> k == root % 31 + 1,
        (groups_of(root).filter >> k) & 1u32 == 1u32 <==> k != root % 31 + 1,
{
    let i = (root % 31 + 1) as u32;
    let x: u32 = 1u32 << i;
    assert(((x >> k) & 1u32 == 1u32 <==> k == i) && ((!x >> k) & 1u32 == 1u32 <==> k != i))
        by (bit_vector)
        requires
            x == 1u32 << i,
            i < 32,
            k < 32,
    ;
}

/// Colliders of two articulations pass through each other exactly where their roots
/// leave the same when divided by 31.
pub proof fn articulations_meet_by_their_roots(a: u64, b: u64)
    ensures
        may_touch(groups_of(a), groups_of(b)) <==> a % 31 != b % 31,
{
    crate::rapier::groups::articulations_touch_by_their_bits(a, b);
}

/// Two colliders touch only where each is in a group that the other collides with,
/// whichever of them is looked at first.
pub proof fn touching_is_mutual(a: Groups, b: Groups)
    ensures
        may_touch(a, b) == may_touch(b, a),
        may_touch(a, b) <==> a.memberships & b.filter != 0 && b.memberships & a.filter != 0,
{
}

/// The marked entity nearest above an entity is the entity itself, where that is
/// marked; else the one nearest above its parent; and there is none where an entity
/// is not marked and has no parent.
pub proof fn nearest_goes_up_by_parents(
    parents: Map<u64, u64>,
    marked: Set<u64>,
    e: u64,
    found: Option<u64>,
)
    ensures
        marked.contains(e) ==> (is_nearest(parents, marked, e, found) <==> found == Some(e)),
        !marked.contains(e) && !parents.dom().contains(e) ==> (is_nearest(
            parents,
            marked,
            e,
            found,
        ) <==> found is None),
        !marked.contains(e) && parents.dom().contains(e) ==> (is_nearest(parents, marked, e, found)
            <==> is_nearest(parents, marked, parents[e], found)),
{
    assert(ancestor(parents, e, 0) == Some(e));
    if !parents.dom().contains(e) {
        assert forall|n: nat| n > 0 implies #[trigger] ancestor(parents, e, n) is None by {
            lemma_top_has_nothing_above(parents, e, n);
        }
    } else {
        let p = parents[e];
        assert forall|n: nat| #[trigger] ancestor(parents, p, n) == ancestor(parents, e, n + 1) by {
            lemma_ancestors_shift(parents, e, n);
        }
        if !marked.contains(e) {
            if is_nearest(parents, marked, p, found) {
                match found {
                    Some(a) => {
                        let n = choose|n: nat|
                            #![trigger ancestor(parents, p, n)]
                            ancestor(parents, p, n) == Some(a) && marked.contains(a) && forall|
                                k: nat,
                            |
                                #![trigger ancestor(parents, p, k)]
                                k < n ==> !marked.contains(ancestor(parents, p, k)->0);
                        assert(ancestor(parents, e, n + 1) == Some(a));
                        assert forall|k: nat|
                            #![trigger ancestor(parents, e, k)]
                            k < n + 1 implies !marked.contains(ancestor(parents, e, k)->0) by {
                            if k > 0 {
                                lemma_ancestors_shift(parents, e, (k - 1) as nat);
                            }
                        }
                    },
                    None => {
                        assert forall|n: nat|
                            #![trigger ancestor(parents, e, n)]
                            ancestor(parents, e, n) is Some implies !marked.contains(
                            ancestor(parents, e, n)->0,
                        ) by {
                            if n > 0 {
                                lemma_ancestors_shift(parents, e, (n - 1) as nat);
                            }
                        }
                    },
                }
            }
            if is_nearest(parents, marked, e, found) {
                match found {
                    Some(a) => {
                        let n = choose|n: nat|
                            #![trigger ancestor(parents, e, n)]
                            ancestor(parents, e, n) == Some(a) && marked.contains(a) && forall|
                                k: nat,
                            |
                                #![trigger ancestor(parents, e, k)]
                                k < n ==> !marked.contains(ancestor(parents, e, k)->0);
                        assert(n > 0);
                        lemma_ancestors_shift(parents, e, (n - 1) as nat);
                        assert forall|k: nat|
                            #![trigger ancestor(parents, p, k)]
                            k < n - 1 implies !marked.contains(ancestor(parents, p, k)->0) by {
                            lemma_ancestors_shift(parents, e, k);
                        }
                        assert(ancestor(parents, p, (n - 1) as nat) == Some(a));
                    },
                    None => {},
                }
            }
        }
    }
}

/// Going up to the parent and then by `n` steps is going up by `n + 1`.
proof fn lemma_ancestors_shift(parents: Map<u64, u64>, e: u64, n: nat)
    requires
        parents.dom().contains(e),
    ensures
        ancestor(parents, e, n + 1) == ancestor(parents, parents[e], n),
    decreases n,
{
    if n > 0 {
        lemma_ancestors_shift(parents, e, (n - 1) as nat);
    } else {
        assert(ancestor(parents, e, 0) == Some(e));
    }
}

/// Above an entity without a parent there is nothing.
proof fn lemma_top_has_nothing_above(parents: Map<u64, u64>, e: u64, n: nat)
    requires
        !parents.dom().contains(e),
        n > 0,
    ensures
        ancestor(parents, e, n) is None,
    decreases n,
{
    if n > 1 {
        lemma_top_has_nothing_above(parents, e, (n - 1) as nat);
    } else {
        assert(ancestor(parents, e, 0) == Some(e));
    }
}

/// A scene sets the gravity of the world exactly where none has, there is a new
/// scene, and there is a world; the first of the new scenes does. Once gravity is
/// set, every other new scene is counted as passed over; before that, none is.
pub proof fn gravity_is_set_by_one_scene(settled: bool, new_scenes: usize, has_world: bool)
    ensures
        ({
            let plan = gravity_plan_of(settled, new_scenes, has_world);
            &&& plan.applied is Some <==> !settled && new_scenes > 0 && has_world
            &&& plan.applied matches Some(i) ==> i == 0
            &&& settled || plan.applied is Some ==> plan.ignored + (if plan.applied is Some {
                1int
            } else {
                0
            }) == new_scenes
            &&& !settled && plan.applied is None ==> plan.ignored == 0
        }),
{
}

/// Two handles are of the same body exactly where their numbers are the same.
pub proof fn handles_are_told_by_their_numbers(a: Handle, b: Handle)
    ensures
        a.raw() == b.raw() <==> a == b,
        a.raw().0 == a.index,
        a.raw().1 == a.generation,
{
}

/// A joint that is not meant for the articulations goes outside them, once. One that
/// they took does not, and neither does one they refused, unless it is of one axis.
pub proof fn joints_go_outside_when_they_must(
    pairs: Multiset<((u32, u32), (u32, u32), u8)>,
    joint: ((u32, u32), (u32, u32), u8),
    build: JointBuild,
    taken: bool,
    other: ((u32, u32), (u32, u32), u8),
)
    ensures
        pairs_after(pairs, joint, build, false, taken).count(joint) == pairs.count(joint) + 1,
        other != joint ==> pairs_after(pairs, joint, build, false, taken).count(other)
            == pairs.count(other),
        pairs_after(pairs, joint, build, true, true) == pairs,
        !(build is Axis) ==> pairs_after(pairs, joint, build, true, false) == pairs,
        build is Axis ==> pairs_after(pairs, joint, build, true, false).count(joint)
            == pairs.count(joint) + 1,
{
}

/// A joint that the articulations took hangs its second body on its first, and locks
/// what it locks there; what hangs elsewhere stays, and one that they refused changes
/// nothing.
pub proof fn taken_joints_hang_the_second_body_on_the_first(
    parents: Map<(u32, u32), (u32, u32)>,
    locks: Map<(u32, u32), u8>,
    body0: (u32, u32),
    body1: (u32, u32),
    locked: u8,
    other: (u32, u32),
)
    ensures
        parents_after(parents, body0, body1, true).dom().contains(body1),
        parents_after(parents, body0, body1, true)[body1] == body0,
        locks_after(locks, body1, locked, true).dom().contains(body1),
        locks_after(locks, body1, locked, true)[body1] == locked,
        other != body1 ==> {
            &&& parents_after(parents, body0, body1, true).dom().contains(other)
                == parents.dom().contains(other)
            &&& parents_after(parents, body0, body1, true)[other] == parents[other]
            &&& locks_after(locks, body1, locked, true).dom().contains(other)
                == locks.dom().contains(other)
            &&& locks_after(locks, body1, locked, true)[other] == locks[other]
        },
        parents_after(parents, body0, body1, false) == parents,
        locks_after(locks, body1, locked, false) == locks,
{
}

/// The entry of a map is the one under the key, and there is none where the map does
/// not have the key.
pub proof fn entries_are_found_by_their_key(map: Map<u64, Handle>, key: u64, v: Handle)
    ensures
        lookup(map, key) == Some(v) <==> map.dom().contains(key) && map[key] == v,
        lookup(map, key) is None <==> !map.dom().contains(key),
{
}

/// A joint is looked at again only where it was told to wait.
pub proof fn joints_that_wait_are_not_settled(action: JointAction)
    ensures
        action is Wait ==> !settles(action),
        action is Skip || action is Pin || action is Insert ==> settles(action),
{
}

} // verus!
