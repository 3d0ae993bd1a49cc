//! What is authored for the physics schemas, attribute by attribute.

use crate::ieee::{Double, Single};
use crate::path::{is_property, property_of};
use crate::physics::author::{
    apply_error, authored_ends, axis_of, DegreeLimit, DriveProps, JointFrame, JointLimit, MassProps,
};
use crate::physics::types::CollisionApprox;
use crate::stage::{merged, StageError, StageView};
use crate::stage_laws::{
    attribute_reads_back, lists_properties, prim_reads_back, relationship_reads_back,
    schemas_read_back,
};
use crate::tokens::property_marks;
use crate::value::ValueView;
use vstd::prelude::*;

verus! {

/// Whether an attribute of a prim has a value, a type, and is uniform or varies.
pub open spec fn is_authored(
    s: StageView,
    prim: Seq<char>,
    name: Seq<char>,
    kind: Seq<char>,
    value: ValueView,
    uniform: bool,
) -> bool {
    let path = property_of(prim, name);
    &&& s.attribute(prim, name) == Ok::<Option<ValueView>, StageError>(Some(value))
    &&& s.field(path, "typeName"@) == Ok::<Option<ValueView>, StageError>(
        Some(ValueView::Token(kind)),
    )
    &&& s.field(path, "variability"@) == Ok::<Option<ValueView>, StageError>(
        Some(ValueView::Token(if uniform {
            "uniform"@
        } else {
            "varying"@
        })),
    )
}

/// An attribute that has been defined is authored as it was given, and those of
/// other names stay as they were.
proof fn lemma_defined(
    s: StageView,
    prim: Seq<char>,
    name: Seq<char>,
    kind: Seq<char>,
    value: ValueView,
    uniform: bool,
)
    requires
        !is_property(prim),
        name.len() > 1,
        lists_properties(s, prim),
    ensures
        ({
            let t = s.with_attribute(prim, name, kind, value, uniform);
            &&& is_authored(t, prim, name, kind, value, uniform)
            &&& lists_properties(t, prim)
            &&& t.api_schemas(prim) == s.api_schemas(prim)
            &&& t.prim_type(prim) == s.prim_type(prim)
            &&& forall|n: Seq<char>, k: Seq<char>, v: ValueView, u: bool|
                n != name ==> #[trigger] is_authored(t, prim, n, k, v, u) == is_authored(
                    s,
                    prim,
                    n,
                    k,
                    v,
                    u,
                )
            &&& forall|n: Seq<char>|
                n != name ==> #[trigger] t.attribute(prim, n) == s.attribute(prim, n)
            &&& forall|n: Seq<char>| #[trigger] t.targets(prim, n) == s.targets(prim, n)
        }),
{
    attribute_reads_back(s, prim, name, kind, value, uniform);
    let t = s.with_attribute(prim, name, kind, value, uniform);
    reveal_strlit("typeName");
    reveal_strlit("variability");
    reveal_strlit("default");
    assert("typeName"@.len() == 8 && "variability"@.len() == 11 && "default"@.len() == 7);
    assert(is_authored(t, prim, name, kind, value, uniform));
    assert forall|n: Seq<char>, k: Seq<char>, v: ValueView, u: bool| n != name implies #[trigger]
    is_authored(t, prim, n, k, v, u) == is_authored(s, prim, n, k, v, u) by {
        crate::path::property_paths_differ(prim, name, n);
        assert(t.attribute(prim, n) == s.attribute(prim, n));
    }
}

/// A number that has been authored, where there is one.
proof fn lemma_optional(s: StageView, prim: Seq<char>, name: Seq<char>, x: Option<Single>)
    requires
        !is_property(prim),
        name.len() > 1,
        lists_properties(s, prim),
    ensures
        ({
            let t = s.with_optional_float(prim, name, x);
            &&& x matches Some(v) ==> is_authored(
                t,
                prim,
                name,
                "float"@,
                ValueView::Float(v),
                false,
            )
            &&& x is None ==> t == s
            &&& lists_properties(t, prim)
            &&& t.api_schemas(prim) == s.api_schemas(prim)
            &&& forall|n: Seq<char>, k: Seq<char>, v: ValueView, u: bool|
                n != name ==> #[trigger] is_authored(t, prim, n, k, v, u) == is_authored(
                    s,
                    prim,
                    n,
                    k,
                    v,
                    u,
                )
            &&& forall|n: Seq<char>|
                n != name ==> #[trigger] t.attribute(prim, n) == s.attribute(prim, n)
        }),
{
    if let Some(v) = x {
        lemma_defined(s, prim, name, "float"@, ValueView::Float(v), false);
    }
}

/// Schemas can be applied to every prim whose schemas can be read, and to no
/// property; where they cannot be read, the failure to is the error.
pub proof fn schemas_are_applied_to_prims(s: StageView, prim: Seq<char>)
    ensures
        is_property(prim) ==> apply_error(s, prim) == Some(StageError::InvalidPath),
        !is_property(prim) ==> (s.api_schemas(prim) matches Err(e) ==> apply_error(s, prim) == Some(
            e,
        )),
        !is_property(prim) && s.api_schemas(prim) is Ok ==> apply_error(s, prim) is None,
{
}

/// Authoring the inertia of a body applies the mass schema, and leaves its mass, its
/// centre, its diagonal inertia and its principal axes as they were given, each
/// under its name and with its type. The mass and the entries of the centre are
/// narrowed; nothing changes places.
pub proof fn masses_are_authored_as_given(
    s: StageView,
    prim: Seq<char>,
    props: MassProps,
    name: Seq<char>,
)
    requires
        apply_error(s, prim) is None,
        lists_properties(s, prim),
    ensures
        ({
            let t = s.with_mass(prim, props);
            let com = props.center_of_mass;
            &&& t.api_schemas(prim) == Ok::<Seq<Seq<char>>, StageError>(
                merged(s.api_schemas(prim)->Ok_0, seq!["PhysicsMassAPI"@]),
            )
            &&& is_authored(
                t,
                prim,
                "physics:mass"@,
                "float"@,
                ValueView::Float(props.mass.nearest()),
                false,
            )
            &&& is_authored(
                t,
                prim,
                "physics:centerOfMass"@,
                "point3f"@,
                ValueView::Vec3f([com[0].nearest(), com[1].nearest(), com[2].nearest()]),
                false,
            )
            &&& is_authored(
                t,
                prim,
                "physics:diagonalInertia"@,
                "float3"@,
                ValueView::Vec3f(props.diagonal_inertia),
                false,
            )
            &&& is_authored(
                t,
                prim,
                "physics:principalAxes"@,
                "quatf"@,
                ValueView::Quatf(props.principal_axes),
                false,
            )
            &&& name != "physics:mass"@ && name != "physics:centerOfMass"@ && name
                != "physics:diagonalInertia"@ && name != "physics:principalAxes"@ ==> t.attribute(
                prim,
                name,
            ) == s.attribute(prim, name)
        }),
{
    property_marks();
    let com = props.center_of_mass;
    let mass = ValueView::Float(props.mass.nearest());
    let centre = ValueView::Vec3f([com[0].nearest(), com[1].nearest(), com[2].nearest()]);
    let inertia = ValueView::Vec3f(props.diagonal_inertia);
    let axes = ValueView::Quatf(props.principal_axes);
    let s1 = s.with_schemas(prim, seq!["PhysicsMassAPI"@]);
    schemas_read_back(s, prim, seq!["PhysicsMassAPI"@]);
    lemma_defined(s1, prim, "physics:mass"@, "float"@, mass, false);
    let s2 = s1.with_attribute(prim, "physics:mass"@, "float"@, mass, false);
    lemma_defined(s2, prim, "physics:centerOfMass"@, "point3f"@, centre, false);
    let s3 = s2.with_attribute(prim, "physics:centerOfMass"@, "point3f"@, centre, false);
    lemma_defined(s3, prim, "physics:diagonalInertia"@, "float3"@, inertia, false);
    let s4 = s3.with_attribute(prim, "physics:diagonalInertia"@, "float3"@, inertia, false);
    lemma_defined(s4, prim, "physics:principalAxes"@, "quatf"@, axes, false);
}

/// Authoring a material applies the material schema, and leaves each number that was
/// given under its name, as a number; one that was not given leaves its attribute
/// as it was.
pub proof fn materials_are_authored_as_given(
    s: StageView,
    prim: Seq<char>,
    static_friction: Option<Single>,
    dynamic_friction: Option<Single>,
    restitution: Option<Single>,
    density: Option<Single>,
)
    requires
        apply_error(s, prim) is None,
        lists_properties(s, prim),
    ensures
        ({
            let t = s.with_material(prim, static_friction, dynamic_friction, restitution, density);
            let float = "float"@;
            &&& t.api_schemas(prim) == Ok::<Seq<Seq<char>>, StageError>(
                merged(s.api_schemas(prim)->Ok_0, seq!["PhysicsMaterialAPI"@]),
            )
            &&& static_friction matches Some(x) ==> is_authored(
                t,
                prim,
                "physics:staticFriction"@,
                float,
                ValueView::Float(x),
                false,
            )
            &&& static_friction is None ==> t.attribute(prim, "physics:staticFriction"@)
                == s.attribute(prim, "physics:staticFriction"@)
            &&& dynamic_friction matches Some(x) ==> is_authored(
                t,
                prim,
                "physics:dynamicFriction"@,
                float,
                ValueView::Float(x),
                false,
            )
            &&& dynamic_friction is None ==> t.attribute(prim, "physics:dynamicFriction"@)
                == s.attribute(prim, "physics:dynamicFriction"@)
            &&& restitution matches Some(x) ==> is_authored(
                t,
                prim,
                "physics:restitution"@,
                float,
                ValueView::Float(x),
                false,
            )
            &&& restitution is None ==> t.attribute(prim, "physics:restitution"@) == s.attribute(
                prim,
                "physics:restitution"@,
            )
            &&& density matches Some(x) ==> is_authored(
                t,
                prim,
                "physics:density"@,
                float,
                ValueView::Float(x),
                false,
            )
            &&& density is None ==> t.attribute(prim, "physics:density"@) == s.attribute(
                prim,
                "physics:density"@,
            )
        }),
{
    property_marks();
    let s1 = s.with_schemas(prim, seq!["PhysicsMaterialAPI"@]);
    schemas_read_back(s, prim, seq!["PhysicsMaterialAPI"@]);
    lemma_optional(s1, prim, "physics:staticFriction"@, static_friction);
    let s2 = s1.with_optional_float(prim, "physics:staticFriction"@, static_friction);
    lemma_optional(s2, prim, "physics:dynamicFriction"@, dynamic_friction);
    let s3 = s2.with_optional_float(prim, "physics:dynamicFriction"@, dynamic_friction);
    lemma_optional(s3, prim, "physics:restitution"@, restitution);
    let s4 = s3.with_optional_float(prim, "physics:restitution"@, restitution);
    lemma_optional(s4, prim, "physics:density"@, density);
}

/// Making a mesh collide applies the collision schema and the mesh schema, in this
/// order, and leaves the token of the approximation, which is uniform.
pub proof fn mesh_collisions_are_authored_as_given(
    s: StageView,
    prim: Seq<char>,
    approximation: CollisionApprox,
)
    requires
        apply_error(s, prim) is None,
        lists_properties(s, prim),
    ensures
        ({
            let t = s.with_mesh_collision(prim, approximation);
            &&& t.api_schemas(prim) == Ok::<Seq<Seq<char>>, StageError>(
                merged(
                    s.api_schemas(prim)->Ok_0,
                    seq!["PhysicsCollisionAPI"@, "PhysicsMeshCollisionAPI"@],
                ),
            )
            &&& is_authored(
                t,
                prim,
                "physics:approximation"@,
                "token"@,
                ValueView::Token(approximation.token()),
                true,
            )
        }),
{
    property_marks();
    let both = seq!["PhysicsCollisionAPI"@, "PhysicsMeshCollisionAPI"@];
    schemas_read_back(s, prim, both);
    lemma_defined(
        s.with_schemas(prim, both),
        prim,
        "physics:approximation"@,
        "token"@,
        ValueView::Token(approximation.token()),
        true,
    );
}

/// A relationship to one target, where there is one, leaves all attributes as they
/// were.
proof fn lemma_target(s: StageView, prim: Seq<char>, name: Seq<char>, target: Option<String>)
    requires
        !is_property(prim),
        name.len() > 1,
        lists_properties(s, prim),
    ensures
        ({
            let t = s.with_optional_target(prim, name, target);
            &&& target matches Some(p) ==> t.targets(prim, name) == Ok::<
                Seq<Seq<char>>,
                StageError,
            >(seq![p@])
            &&& target is None ==> t == s
            &&& lists_properties(t, prim)
            &&& forall|n: Seq<char>|
                n != name ==> #[trigger] t.targets(prim, n) == s.targets(prim, n)
            &&& t.prim_type(prim) == s.prim_type(prim)
            &&& t.api_schemas(prim) == s.api_schemas(prim)
        }),
{
    if let Some(p) = target {
        relationship_reads_back(s, prim, name, seq![p@]);
    }
}

/// Defining a joint gives the prim its type, and leaves the two bodies and the frame
/// on each, each under its name and with its type: what belongs to the first body is
/// numbered zero, what belongs to the second one. A body that is not given leaves
/// its relationship as it was.
pub proof fn frames_are_authored_as_given(
    s: StageView,
    joint: Seq<char>,
    kind: Seq<char>,
    f: JointFrame,
)
    requires
        !is_property(joint),
        lists_properties(s, joint),
    ensures
        ({
            let t = s.with_joint(joint, kind, f);
            let pos = "point3f"@;
            let rot = "quatf"@;
            &&& t.prims.contains(joint)
            &&& t.prim_type(joint) == Ok::<Option<Seq<char>>, StageError>(Some(kind))
            &&& f.body0 matches Some(b) ==> t.targets(joint, "physics:body0"@) == Ok::<
                Seq<Seq<char>>,
                StageError,
            >(seq![b@])
            &&& f.body0 is None ==> t.targets(joint, "physics:body0"@) == s.targets(
                joint,
                "physics:body0"@,
            )
            &&& f.body1 matches Some(b) ==> t.targets(joint, "physics:body1"@) == Ok::<
                Seq<Seq<char>>,
                StageError,
            >(seq![b@])
            &&& f.body1 is None ==> t.targets(joint, "physics:body1"@) == s.targets(
                joint,
                "physics:body1"@,
            )
            &&& is_authored(
                t,
                joint,
                "physics:localPos0"@,
                pos,
                ValueView::Vec3f(f.local_pos0),
                false,
            )
            &&& is_authored(
                t,
                joint,
                "physics:localRot0"@,
                rot,
                ValueView::Quatf(f.local_rot0),
                false,
            )
            &&& is_authored(
                t,
                joint,
                "physics:localPos1"@,
                pos,
                ValueView::Vec3f(f.local_pos1),
                false,
            )
            &&& is_authored(
                t,
                joint,
                "physics:localRot1"@,
                rot,
                ValueView::Quatf(f.local_rot1),
                false,
            )
        }),
{
    property_marks();
    let s1 = s.with_prim(joint, kind);
    prim_reads_back(s, joint, kind);
    lemma_target(s1, joint, "physics:body0"@, f.body0);
    let s2 = s1.with_optional_target(joint, "physics:body0"@, f.body0);
    lemma_target(s2, joint, "physics:body1"@, f.body1);
    let s3 = s2.with_optional_target(joint, "physics:body1"@, f.body1);
    let pos0 = ValueView::Vec3f(f.local_pos0);
    let rot0 = ValueView::Quatf(f.local_rot0);
    let pos1 = ValueView::Vec3f(f.local_pos1);
    let rot1 = ValueView::Quatf(f.local_rot1);
    lemma_defined(s3, joint, "physics:localPos0"@, "point3f"@, pos0, false);
    let s4 = s3.with_attribute(joint, "physics:localPos0"@, "point3f"@, pos0, false);
    lemma_defined(s4, joint, "physics:localRot0"@, "quatf"@, rot0, false);
    let s5 = s4.with_attribute(joint, "physics:localRot0"@, "quatf"@, rot0, false);
    lemma_defined(s5, joint, "physics:localPos1"@, "point3f"@, pos1, false);
    let s6 = s5.with_attribute(joint, "physics:localPos1"@, "point3f"@, pos1, false);
    lemma_defined(s6, joint, "physics:localRot1"@, "quatf"@, rot1, false);
}

/// The axis of a joint is left as a uniform token, and its limits as numbers, each
/// end narrowed and under its own name; without limits nothing is authored.
pub proof fn axes_and_limits_are_authored_as_given(
    s: StageView,
    joint: Seq<char>,
    axis: Seq<char>,
    limits: Option<JointLimit>,
)
    requires
        !is_property(joint),
        lists_properties(s, joint),
    ensures
        ({
            let t = s.with_axis(joint, axis).with_limits(joint, limits);
            &&& is_authored(t, joint, "physics:axis"@, "token"@, ValueView::Token(axis), true)
            &&& limits matches Some(l) ==> is_authored(
                t,
                joint,
                "physics:lowerLimit"@,
                "float"@,
                ValueView::Float(l.lower.nearest()),
                false,
            ) && is_authored(
                t,
                joint,
                "physics:upperLimit"@,
                "float"@,
                ValueView::Float(l.upper.nearest()),
                false,
            )
            &&& limits is None ==> t == s.with_axis(joint, axis)
        }),
{
    property_marks();
    lemma_defined(s, joint, "physics:axis"@, "token"@, ValueView::Token(axis), true);
    let s1 = s.with_axis(joint, axis);
    if let Some(l) = limits {
        let lower = ValueView::Float(l.lower.nearest());
        let upper = ValueView::Float(l.upper.nearest());
        lemma_defined(s1, joint, "physics:lowerLimit"@, "float"@, lower, false);
        let s2 = s1.with_attribute(joint, "physics:lowerLimit"@, "float"@, lower, false);
        lemma_defined(s2, joint, "physics:upperLimit"@, "float"@, upper, false);
    }
}

/// The ends of a range in degrees are authored as they are, the lower one as the
/// lower one.
pub proof fn degrees_are_authored_as_given(limits: Option<DegreeLimit>)
    ensures
        authored_ends(limits) is Some <==> limits is Some,
        limits matches Some(l) ==> authored_ends(limits)->0.lower == l.lower && authored_ends(
            limits,
        )->0.upper == l.upper,
{
}

/// The token of a vector is that of the second or third axis exactly where its part
/// along that axis is above a millionth and those along the other two are below, and
/// that of the first axis otherwise. The signs of the parts do not count.
pub proof fn axes_are_told_by_their_parts(axis: [Double; 3], other: [Double; 3])
    ensures
        ({
            let small = 0x3eb0_c6f7_a0b5_ed8dint;
            let x = axis[0].magnitude();
            let y = axis[1].magnitude();
            let z = axis[2].magnitude();
            let top = 0x7ff0_0000_0000_0000int;
            &&& axis_of(axis) == "X"@ || axis_of(axis) == "Y"@ || axis_of(axis) == "Z"@
            &&& axis_of(axis) == "Y"@ <==> x < small && z < small && small < y <= top
            &&& axis_of(axis) == "Z"@ <==> x < small && y < small && small < z <= top
            &&& x == other[0].magnitude() && y == other[1].magnitude() && z
                == other[2].magnitude() ==> axis_of(axis) == axis_of(other)
        }),
{
    reveal_strlit("X");
    reveal_strlit("Y");
    reveal_strlit("Z");
    assert("X"@[0] == 'X' && "Y"@[0] == 'Y' && "Z"@[0] == 'Z');
}

/// Limiting a degree of freedom applies the limit schema to it, and leaves the two
/// ends as numbers under its name, the lower one as the low one.
pub proof fn dof_limits_are_authored_as_given(
    s: StageView,
    joint: Seq<char>,
    dof: Seq<char>,
    lower: Single,
    upper: Single,
)
    requires
        apply_error(s, joint) is None,
        lists_properties(s, joint),
    ensures
        ({
            let t = s.with_dof_limit(joint, dof, lower, upper);
            let stem = "limit:"@ + dof + ":physics:"@;
            &&& t.api_schemas(joint) == Ok::<Seq<Seq<char>>, StageError>(
                merged(s.api_schemas(joint)->Ok_0, seq!["PhysicsLimitAPI"@ + seq![':'] + dof]),
            )
            &&& is_authored(t, joint, stem + "low"@, "float"@, ValueView::Float(lower), false)
            &&& is_authored(t, joint, stem + "high"@, "float"@, ValueView::Float(upper), false)
        }),
{
    let stem = "limit:"@ + dof + ":physics:"@;
    reveal_strlit("limit:");
    reveal_strlit(":physics:");
    reveal_strlit("low");
    reveal_strlit("high");
    let low = stem + "low"@;
    let high = stem + "high"@;
    let applied = seq!["PhysicsLimitAPI"@ + seq![':'] + dof];
    let s1 = s.with_schemas(joint, applied);
    schemas_read_back(s, joint, applied);
    assert(low.len() != high.len());
    lemma_defined(s1, joint, low, "float"@, ValueView::Float(lower), false);
    let s2 = s1.with_attribute(joint, low, "float"@, ValueView::Float(lower), false);
    lemma_defined(s2, joint, high, "float"@, ValueView::Float(upper), false);
}

/// Driving a degree of freedom applies the drive schema to it, and leaves the type as
/// a uniform token and every number that was given as a number, each under the name
/// of its part; a part that was not given stays as it was.
pub proof fn drives_are_authored_as_given(
    s: StageView,
    joint: Seq<char>,
    dof: Seq<char>,
    drive: DriveProps,
)
    requires
        apply_error(s, joint) is None,
        lists_properties(s, joint),
    ensures
        ({
            let t = s.with_drive(joint, dof, drive);
            let stem = "drive:"@ + dof + ":physics:"@;
            let float = "float"@;
            &&& t.api_schemas(joint) == Ok::<Seq<Seq<char>>, StageError>(
                merged(s.api_schemas(joint)->Ok_0, seq!["PhysicsDriveAPI"@ + seq![':'] + dof]),
            )
            &&& is_authored(
                t,
                joint,
                stem + "type"@,
                "token"@,
                ValueView::Token(drive.drive_type.token()),
                true,
            )
            &&& is_authored(
                t,
                joint,
                stem + "damping"@,
                float,
                ValueView::Float(drive.damping),
                false,
            )
            &&& is_authored(
                t,
                joint,
                stem + "stiffness"@,
                float,
                ValueView::Float(drive.stiffness),
                false,
            )
            &&& drive.target_position matches Some(x) ==> is_authored(
                t,
                joint,
                stem + "targetPosition"@,
                float,
                ValueView::Float(x),
                false,
            )
            &&& drive.target_position is None ==> t.attribute(joint, stem + "targetPosition"@)
                == s.attribute(joint, stem + "targetPosition"@)
            &&& drive.target_velocity matches Some(x) ==> is_authored(
                t,
                joint,
                stem + "targetVelocity"@,
                float,
                ValueView::Float(x),
                false,
            )
            &&& drive.target_velocity is None ==> t.attribute(joint, stem + "targetVelocity"@)
                == s.attribute(joint, stem + "targetVelocity"@)
            &&& drive.max_force matches Some(x) ==> is_authored(
                t,
                joint,
                stem + "maxForce"@,
                float,
                ValueView::Float(x),
                false,
            )
            &&& drive.max_force is None ==> t.attribute(joint, stem + "maxForce"@) == s.attribute(
                joint,
                stem + "maxForce"@,
            )
        }),
{
    let stem = "drive:"@ + dof + ":physics:"@;
    reveal_strlit("drive:");
    reveal_strlit(":physics:");
    reveal_strlit("type");
    reveal_strlit("targetPosition");
    reveal_strlit("targetVelocity");
    reveal_strlit("damping");
    reveal_strlit("stiffness");
    reveal_strlit("maxForce");
    let n = stem.len() as int;
    let kind = stem + "type"@;
    let position = stem + "targetPosition"@;
    let velocity = stem + "targetVelocity"@;
    let damping = stem + "damping"@;
    let stiffness = stem + "stiffness"@;
    let force = stem + "maxForce"@;
    assert(kind.len() == n + 4 && damping.len() == n + 7 && stiffness.len() == n + 9);
    assert(force.len() == n + 8 && position.len() == n + 14 && velocity.len() == n + 14);
    assert(position[n + 6] == 'P' && velocity[n + 6] == 'V');
    let token = ValueView::Token(drive.drive_type.token());
    let applied = seq!["PhysicsDriveAPI"@ + seq![':'] + dof];
    let s1 = s.with_schemas(joint, applied);
    schemas_read_back(s, joint, applied);
    lemma_defined(s1, joint, kind, "token"@, token, true);
    let s2 = s1.with_attribute(joint, kind, "token"@, token, true);
    lemma_optional(s2, joint, position, drive.target_position);
    let s3 = s2.with_optional_float(joint, position, drive.target_position);
    lemma_optional(s3, joint, velocity, drive.target_velocity);
    let s4 = s3.with_optional_float(joint, velocity, drive.target_velocity);
    lemma_defined(s4, joint, damping, "float"@, ValueView::Float(drive.damping), false);
    let s5 = s4.with_float(joint, damping, drive.damping);
    lemma_defined(s5, joint, stiffness, "float"@, ValueView::Float(drive.stiffness), false);
    let s6 = s5.with_float(joint, stiffness, drive.stiffness);
    lemma_optional(s6, joint, force, drive.max_force);
}

} // verus!
