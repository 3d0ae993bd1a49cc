//! What is read of the physics schemas, attribute by attribute.

use crate::attributes::{to_quat, to_scalar, to_text, to_vec3};
use crate::physics::names::{applied_schema, dof_attribute, schema_dof};
use crate::physics::read::{
    drive_of, drive_readable, drives_of, group_of, group_readable, has_schema, has_type,
    is_joint_type, joint_of, joint_prims, joint_properties_readable, joint_readable, limit_of,
    limit_readable, limits_of, mass_of, mass_readable, material_of, material_readable,
    prims_of_type, prims_with_schema, scene_of, scene_readable, shape_of, shape_readable,
    sorts_prims,
};
use crate::physics::types::{
    CollisionApprox, Dof, DriveType, JointKind, PhysicsPrims, ReadCollisionGroup,
    ReadCollisionShape, ReadJoint, ReadMass, ReadPhysicsMaterial, ReadPhysicsScene,
};
use crate::stage::{StageError, StageView};
use crate::text::{text_of, texts};
use crate::value::ValueView;
use vstd::prelude::*;

verus! {

/// The kinds of joints are the prim types that are spelled so.
pub proof fn joint_types_are_spelled()
    ensures
        JointKind::Fixed.prim_type() == "PhysicsFixedJoint"@,
        JointKind::Revolute.prim_type() == "PhysicsRevoluteJoint"@,
        JointKind::Prismatic.prim_type() == "PhysicsPrismaticJoint"@,
        JointKind::Spherical.prim_type() == "PhysicsSphericalJoint"@,
        JointKind::Distance.prim_type() == "PhysicsDistanceJoint"@,
        JointKind::Generic.prim_type() == "PhysicsJoint"@,
{
}

/// A prim type is that of joints exactly where it is one of some kind, and then it
/// names that kind.
pub proof fn joint_types_name_their_kind(kind: JointKind, s: Seq<char>)
    ensures
        JointKind::named(kind.prim_type()) == Some(kind),
        JointKind::named(s) matches Some(k) ==> k.prim_type() == s,
        is_joint_type(Some(s)) <==> exists|k: JointKind| #[trigger] k.prim_type() == s,
        !is_joint_type(None),
{
    JointKind::prim_types_are_distinct(kind, kind);
}

/// The degrees of freedom are the tokens that are spelled so.
pub proof fn dofs_are_spelled()
    ensures
        Dof::TransX.token() == "transX"@,
        Dof::TransY.token() == "transY"@,
        Dof::TransZ.token() == "transZ"@,
        Dof::RotX.token() == "rotX"@,
        Dof::RotY.token() == "rotY"@,
        Dof::RotZ.token() == "rotZ"@,
        Dof::Linear.token() == "linear"@,
        Dof::Angular.token() == "angular"@,
        Dof::Distance.token() == "distance"@,
{
}

/// The types of drives and the approximations of meshes are the tokens that are
/// spelled so. What is left to the engine is spelled `none`.
pub proof fn drive_types_and_approximations_are_spelled()
    ensures
        DriveType::Force.token() == "force"@,
        DriveType::Acceleration.token() == "acceleration"@,
        CollisionApprox::EngineDefault.token() == "none"@,
        CollisionApprox::ConvexHull.token() == "convexHull"@,
        CollisionApprox::ConvexDecomposition.token() == "convexDecomposition"@,
        CollisionApprox::BoundingSphere.token() == "boundingSphere"@,
        CollisionApprox::BoundingCube.token() == "boundingCube"@,
        CollisionApprox::MeshSimplification.token() == "meshSimplification"@,
{
}

/// A token names a degree of freedom, a type of drive or an approximation exactly
/// where it is its token.
pub proof fn tokens_name_what_they_spell(
    s: Seq<char>,
    dof: Dof,
    kind: DriveType,
    approx: CollisionApprox,
)
    ensures
        Dof::named(s) == Some(dof) <==> s == dof.token(),
        DriveType::named(s) == Some(kind) <==> s == kind.token(),
        CollisionApprox::named(s) == Some(approx) <==> s == approx.token(),
{
    Dof::tokens_are_distinct(dof, dof);
    DriveType::tokens_are_distinct(kind, kind);
    CollisionApprox::tokens_are_distinct(approx, approx);
}

/// The name of a schema applied to a degree of freedom is that of the schema, a
/// colon, and the token; it names the degree of freedom, and no other schema does
/// that has another name or no colon behind it.
pub proof fn applied_schemas_are_told_by_their_name(schema: Seq<char>, dof: Dof, s: Seq<char>)
    ensures
        applied_schema(schema, dof.token()).take(schema.len() as int) == schema,
        applied_schema(schema, dof.token())[schema.len() as int] == ':',
        applied_schema(schema, dof.token()).skip(schema.len() as int + 1) == dof.token(),
        schema_dof(s, schema) == Some(dof) <==> s == schema + seq![':'] + dof.token(),
{
    let name = applied_schema(schema, dof.token());
    assert(name.take(schema.len() as int) =~= schema);
    assert(name.skip(schema.len() as int + 1) =~= dof.token());
    crate::physics::names::applied_schema_names_its_dof(schema, dof);
    if schema_dof(s, schema) == Some(dof) {
        let prefix = schema + seq![':'];
        let rest = s.skip(prefix.len() as int);
        assert(Dof::named(rest) == Some(dof));
        assert(rest == dof.token());
        assert(s =~= prefix + rest);
    }
}

/// The name of an attribute of a limit or a drive is made of the family, the token,
/// `:physics:` and the part, one behind the other.
pub proof fn dof_attributes_are_spelled(family: Seq<char>, token: Seq<char>, part: Seq<char>)
    ensures
        dof_attribute(family, token, part) == family + (token + (":physics:"@ + part)),
{
    assert(dof_attribute(family, token, part) =~= family + (token + (":physics:"@ + part)));
}

/// The inertia that is read of a prim is its mass, its centre of mass, its diagonal
/// inertia, its principal axes and its density, each from the attribute of that
/// name; and it can be read exactly where these can.
pub proof fn masses_are_read_by_attribute(s: StageView, prim: Seq<char>, m: ReadMass)
    ensures
        mass_readable(s, prim) <==> s.attribute(prim, "physics:mass"@) is Ok && s.attribute(
            prim,
            "physics:centerOfMass"@,
        ) is Ok && s.attribute(prim, "physics:diagonalInertia"@) is Ok && s.attribute(
            prim,
            "physics:principalAxes"@,
        ) is Ok && s.attribute(prim, "physics:density"@) is Ok,
        mass_of(s, prim, m) ==> {
            &&& m.mass == to_scalar(s.attribute(prim, "physics:mass"@)->Ok_0)
            &&& m.center_of_mass == to_vec3(s.attribute(prim, "physics:centerOfMass"@)->Ok_0)
            &&& m.diagonal_inertia == to_vec3(s.attribute(prim, "physics:diagonalInertia"@)->Ok_0)
            &&& m.principal_axes == to_quat(s.attribute(prim, "physics:principalAxes"@)->Ok_0)
            &&& m.density == to_scalar(s.attribute(prim, "physics:density"@)->Ok_0)
        },
{
}

/// The scene that is read of a prim has its path, and the direction and the
/// magnitude of its gravity, each from the attribute of that name.
pub proof fn scenes_are_read_by_attribute(s: StageView, prim: Seq<char>, scene: ReadPhysicsScene)
    ensures
        scene_readable(s, prim) <==> s.attribute(prim, "physics:gravityDirection"@) is Ok
            && s.attribute(prim, "physics:gravityMagnitude"@) is Ok,
        scene_of(s, prim, scene) ==> {
            &&& scene.path@ == prim
            &&& scene.gravity_direction == to_vec3(
                s.attribute(prim, "physics:gravityDirection"@)->Ok_0,
            )
            &&& scene.gravity_magnitude == to_scalar(
                s.attribute(prim, "physics:gravityMagnitude"@)->Ok_0,
            )
        },
{
}

/// The material that is read of a prim has its path, its two frictions, its
/// restitution and its density, each from the attribute of that name.
pub proof fn materials_are_read_by_attribute(s: StageView, prim: Seq<char>, m: ReadPhysicsMaterial)
    ensures
        material_readable(s, prim) <==> s.attribute(prim, "physics:staticFriction"@) is Ok
            && s.attribute(prim, "physics:dynamicFriction"@) is Ok && s.attribute(
            prim,
            "physics:restitution"@,
        ) is Ok && s.attribute(prim, "physics:density"@) is Ok,
        material_of(s, prim, m) ==> {
            &&& m.path@ == prim
            &&& m.static_friction == to_scalar(s.attribute(prim, "physics:staticFriction"@)->Ok_0)
            &&& m.dynamic_friction == to_scalar(s.attribute(prim, "physics:dynamicFriction"@)->Ok_0)
            &&& m.restitution == to_scalar(s.attribute(prim, "physics:restitution"@)->Ok_0)
            &&& m.density == to_scalar(s.attribute(prim, "physics:density"@)->Ok_0)
        },
{
}

/// A prim that collides is switched on unless its attribute says no. It is
/// approximated only where the mesh schema is applied, and then by what the token
/// of its attribute names, if anything.
pub proof fn shapes_are_read_by_attribute(
    s: StageView,
    prim: Seq<char>,
    shape: ReadCollisionShape,
    approx: CollisionApprox,
)
    requires
        shape_of(s, prim, shape),
    ensures
        ({
            let meshed = s.api_schemas(prim)->Ok_0.contains("PhysicsMeshCollisionAPI"@);
            let token = to_text(s.attribute(prim, "physics:approximation"@)->Ok_0);
            &&& shape.has_collision_api
            &&& shape.has_mesh_collision_api == meshed
            &&& !shape.collision_enabled <==> s.attribute(
                prim,
                "physics:collisionEnabled"@,
            )->Ok_0 == Some(ValueView::Bool(false))
            &&& !meshed ==> shape.approximation is None
            &&& meshed ==> (shape.approximation == Some(approx) <==> token == Some(approx.token()))
        }),
{
    CollisionApprox::tokens_are_distinct(approx, approx);
}

/// The owner of a prim that collides is the first target of its relationship. Its
/// material is the first one bound for physics, and the first one bound for
/// everything only where none is bound for physics.
pub proof fn materials_bound_for_physics_go_first(
    s: StageView,
    prim: Seq<char>,
    shape: ReadCollisionShape,
)
    requires
        shape_of(s, prim, shape),
    ensures
        ({
            let owners = s.targets(prim, "physics:simulationOwner"@)->Ok_0;
            let physics = s.targets(prim, "material:binding:physics"@)->Ok_0;
            let all = s.targets(prim, "material:binding"@)->Ok_0;
            &&& owners.len() > 0 ==> text_of(shape.simulation_owner) == Some(owners[0])
            &&& owners.len() == 0 ==> shape.simulation_owner is None
            &&& physics.len() > 0 ==> text_of(shape.physics_material_path) == Some(physics[0])
            &&& physics.len() == 0 && all.len() > 0 ==> text_of(shape.physics_material_path)
                == Some(all[0])
            &&& physics.len() == 0 && all.len() == 0 ==> shape.physics_material_path is None
        }),
{
}

/// What is read of a prim that collides can be read exactly where each part can;
/// the approximation counts only where the mesh schema is applied.
pub proof fn shapes_need_their_parts(s: StageView, prim: Seq<char>)
    ensures
        shape_readable(s, prim) <==> s.attribute(prim, "physics:collisionEnabled"@) is Ok
            && s.targets(prim, "physics:simulationOwner"@) is Ok && s.targets(
            prim,
            "material:binding:physics"@,
        ) is Ok && s.targets(prim, "material:binding"@) is Ok && (s.api_schemas(
            prim,
        )->Ok_0.contains("PhysicsMeshCollisionAPI"@) ==> s.attribute(
            prim,
            "physics:approximation"@,
        ) is Ok),
{
}

/// The limit on a degree of freedom has the ends that its two attributes hold, and
/// zero where one holds no number.
pub proof fn limits_are_read_by_attribute(s: StageView, prim: Seq<char>, dof: Dof)
    ensures
        ({
            let limit = limit_of(s, prim, dof);
            let low = "limit:"@ + dof.token() + ":physics:"@ + "low"@;
            let high = "limit:"@ + dof.token() + ":physics:"@ + "high"@;
            let a = to_scalar(s.attribute(prim, low)->Ok_0);
            let b = to_scalar(s.attribute(prim, high)->Ok_0);
            &&& limit.dof == dof
            &&& a matches Some(x) ==> limit.low == x
            &&& a is None ==> limit.low.bits == 0
            &&& b matches Some(x) ==> limit.high == x
            &&& b is None ==> limit.high.bits == 0
            &&& limit_readable(s, prim, dof) <==> s.attribute(prim, low) is Ok && s.attribute(
                prim,
                high,
            ) is Ok
        }),
{
}

/// The drive on a degree of freedom accelerates exactly where its type says so, and
/// acts by force otherwise; its targets and its largest force are those of its
/// attributes, if they hold numbers, and so are its damping and its stiffness, which
/// are zero otherwise.
pub proof fn drives_are_read_by_attribute(s: StageView, prim: Seq<char>, dof: Dof)
    ensures
        ({
            let drive = drive_of(s, prim, dof);
            let stem = "drive:"@ + dof.token() + ":physics:"@;
            let kind = to_text(s.attribute(prim, stem + "type"@)->Ok_0);
            let damping = to_scalar(s.attribute(prim, stem + "damping"@)->Ok_0);
            let stiffness = to_scalar(s.attribute(prim, stem + "stiffness"@)->Ok_0);
            &&& drive.dof == dof
            &&& drive.drive_type == DriveType::Acceleration <==> kind == Some("acceleration"@)
            &&& drive.target_position == to_scalar(
                s.attribute(prim, stem + "targetPosition"@)->Ok_0,
            )
            &&& drive.target_velocity == to_scalar(
                s.attribute(prim, stem + "targetVelocity"@)->Ok_0,
            )
            &&& drive.max_force == to_scalar(s.attribute(prim, stem + "maxForce"@)->Ok_0)
            &&& damping matches Some(x) ==> drive.damping == x
            &&& damping is None ==> drive.damping.bits == 0
            &&& stiffness matches Some(x) ==> drive.stiffness == x
            &&& stiffness is None ==> drive.stiffness.bits == 0
        }),
{
    DriveType::tokens_are_distinct(DriveType::Acceleration, DriveType::Force);
}

/// A drive can be read exactly where its six attributes can.
pub proof fn drives_need_their_parts(s: StageView, prim: Seq<char>, dof: Dof)
    ensures
        ({
            let stem = "drive:"@ + dof.token() + ":physics:"@;
            drive_readable(s, prim, dof) <==> s.attribute(prim, stem + "type"@) is Ok
                && s.attribute(prim, stem + "targetPosition"@) is Ok && s.attribute(
                prim,
                stem + "targetVelocity"@,
            ) is Ok && s.attribute(prim, stem + "damping"@) is Ok && s.attribute(
                prim,
                stem + "stiffness"@,
            ) is Ok && s.attribute(prim, stem + "maxForce"@) is Ok
        }),
{
}

/// The limits of two lists of schemas are those of the first and then those of the
/// second; a single schema gives one exactly where it is the limit schema applied to
/// a degree of freedom, and then the limit on that one.
pub proof fn limits_are_read_schema_by_schema(
    s: StageView,
    prim: Seq<char>,
    a: Seq<Seq<char>>,
    b: Seq<Seq<char>>,
    schema: Seq<char>,
    dof: Dof,
)
    ensures
        limits_of(s, prim, a + b) == limits_of(s, prim, a) + limits_of(s, prim, b),
        schema == "PhysicsLimitAPI"@ + seq![':'] + dof.token() ==> limits_of(s, prim, seq![schema])
            == seq![limit_of(s, prim, dof)],
        (forall|d: Dof| schema != "PhysicsLimitAPI"@ + seq![':'] + #[trigger] d.token())
            ==> limits_of(s, prim, seq![schema]).len() == 0,
    decreases b.len(),
{
    reveal_with_fuel(limits_of, 2);
    assert(seq![schema].drop_last() =~= seq![]);
    applied_schemas_are_told_by_their_name("PhysicsLimitAPI"@, dof, schema);
    if schema == "PhysicsLimitAPI"@ + seq![':'] + dof.token() {
        assert(limits_of(s, prim, seq![schema]) =~= seq![limit_of(s, prim, dof)]);
    }
    if let Some(d) = schema_dof(schema, "PhysicsLimitAPI"@) {
        applied_schemas_are_told_by_their_name("PhysicsLimitAPI"@, d, schema);
    }
    if b.len() == 0 {
        assert(a + b =~= a);
        assert(limits_of(s, prim, a) + limits_of(s, prim, b) =~= limits_of(s, prim, a));
    } else {
        limits_are_read_schema_by_schema(s, prim, a, b.drop_last(), schema, dof);
        assert((a + b).drop_last() =~= a + b.drop_last());
        assert((a + b).last() == b.last());
        assert(limits_of(s, prim, a + b) =~= limits_of(s, prim, a) + limits_of(s, prim, b));
    }
}

/// The drives of two lists of schemas are those of the first and then those of the
/// second; a single schema gives one exactly where it is the drive schema applied to
/// a degree of freedom, and then the drive on that one.
pub proof fn drives_are_read_schema_by_schema(
    s: StageView,
    prim: Seq<char>,
    a: Seq<Seq<char>>,
    b: Seq<Seq<char>>,
    schema: Seq<char>,
    dof: Dof,
)
    ensures
        drives_of(s, prim, a + b) == drives_of(s, prim, a) + drives_of(s, prim, b),
        schema == "PhysicsDriveAPI"@ + seq![':'] + dof.token() ==> drives_of(s, prim, seq![schema])
            == seq![drive_of(s, prim, dof)],
        (forall|d: Dof| schema != "PhysicsDriveAPI"@ + seq![':'] + #[trigger] d.token())
            ==> drives_of(s, prim, seq![schema]).len() == 0,
    decreases b.len(),
{
    reveal_with_fuel(drives_of, 2);
    assert(seq![schema].drop_last() =~= seq![]);
    applied_schemas_are_told_by_their_name("PhysicsDriveAPI"@, dof, schema);
    if schema == "PhysicsDriveAPI"@ + seq![':'] + dof.token() {
        assert(drives_of(s, prim, seq![schema]) =~= seq![drive_of(s, prim, dof)]);
    }
    if let Some(d) = schema_dof(schema, "PhysicsDriveAPI"@) {
        applied_schemas_are_told_by_their_name("PhysicsDriveAPI"@, d, schema);
    }
    if b.len() == 0 {
        assert(a + b =~= a);
        assert(drives_of(s, prim, a) + drives_of(s, prim, b) =~= drives_of(s, prim, a));
    } else {
        drives_are_read_schema_by_schema(s, prim, a, b.drop_last(), schema, dof);
        assert((a + b).drop_last() =~= a + b.drop_last());
        assert((a + b).last() == b.last());
        assert(drives_of(s, prim, a + b) =~= drives_of(s, prim, a) + drives_of(s, prim, b));
    }
}

/// A joint has the path and the kind of its prim, and joins the first target of each
/// of its two relationships, where there is one.
pub proof fn joints_join_their_first_targets(s: StageView, prim: Seq<char>, j: ReadJoint)
    requires
        joint_of(s, prim, j),
    ensures
        ({
            let a = s.targets(prim, "physics:body0"@)->Ok_0;
            let b = s.targets(prim, "physics:body1"@)->Ok_0;
            &&& j.path@ == prim
            &&& s.prim_type(prim) == Ok::<Option<Seq<char>>, StageError>(Some(j.kind.prim_type()))
            &&& a.len() > 0 ==> text_of(j.body0) == Some(a[0])
            &&& a.len() == 0 ==> j.body0 is None
            &&& b.len() > 0 ==> text_of(j.body1) == Some(b[0])
            &&& b.len() == 0 ==> j.body1 is None
        }),
{
}

/// A joint sits on each body where the attributes for that body say; where they hold
/// no vector it sits at the origin, and where they hold no quaternion it is not
/// turned.
pub proof fn joints_sit_where_their_frames_say(s: StageView, prim: Seq<char>, j: ReadJoint, i: int)
    requires
        joint_of(s, prim, j),
    ensures
        ({
            let pos0 = to_vec3(s.attribute(prim, "physics:localPos0"@)->Ok_0);
            let rot0 = to_quat(s.attribute(prim, "physics:localRot0"@)->Ok_0);
            let pos1 = to_vec3(s.attribute(prim, "physics:localPos1"@)->Ok_0);
            let rot1 = to_quat(s.attribute(prim, "physics:localRot1"@)->Ok_0);
            &&& pos0 matches Some(a) ==> j.local_pos0 == a
            &&& pos1 matches Some(a) ==> j.local_pos1 == a
            &&& rot0 matches Some(a) ==> j.local_rot0 == a
            &&& rot1 matches Some(a) ==> j.local_rot1 == a
            &&& 0 <= i < 3 && pos0 is None ==> j.local_pos0[i].bits == 0
            &&& 0 <= i < 3 && pos1 is None ==> j.local_pos1[i].bits == 0
            &&& 0 <= i < 4 && rot0 is None ==> j.local_rot0[i].bits == if i == 0 {
                0x3f80_0000u32
            } else {
                0u32
            }
            &&& 0 <= i < 4 && rot1 is None ==> j.local_rot1[i].bits == if i == 0 {
                0x3f80_0000u32
            } else {
                0u32
            }
        }),
{
}

/// The axis, the limits, the distances, the cone and what breaks a joint are those
/// of the attributes of these names.
pub proof fn joints_are_read_by_attribute(s: StageView, prim: Seq<char>, j: ReadJoint)
    requires
        joint_of(s, prim, j),
    ensures
        text_of(j.axis) == to_text(s.attribute(prim, "physics:axis"@)->Ok_0),
        j.lower_limit == to_scalar(s.attribute(prim, "physics:lowerLimit"@)->Ok_0),
        j.upper_limit == to_scalar(s.attribute(prim, "physics:upperLimit"@)->Ok_0),
        j.break_force == to_scalar(s.attribute(prim, "physics:breakForce"@)->Ok_0),
        j.break_torque == to_scalar(s.attribute(prim, "physics:breakTorque"@)->Ok_0),
        j.min_distance == to_scalar(s.attribute(prim, "physics:minDistance"@)->Ok_0),
        j.max_distance == to_scalar(s.attribute(prim, "physics:maxDistance"@)->Ok_0),
        j.cone_angle_0 == to_scalar(s.attribute(prim, "physics:coneAngle0Limit"@)->Ok_0),
        j.cone_angle_1 == to_scalar(s.attribute(prim, "physics:coneAngle1Limit"@)->Ok_0),
        j.limits@ == limits_of(s, prim, s.api_schemas(prim)->Ok_0),
        j.drives@ == drives_of(s, prim, s.api_schemas(prim)->Ok_0),
{
}

/// A joint is switched on unless its attribute says no; its bodies collide, and it
/// is left out of articulations, only where its attributes say yes.
pub proof fn joints_are_on_unless_switched_off(s: StageView, prim: Seq<char>, j: ReadJoint)
    requires
        joint_of(s, prim, j),
    ensures
        !j.joint_enabled <==> s.attribute(prim, "physics:jointEnabled"@)->Ok_0 == Some(
            ValueView::Bool(false),
        ),
        j.collision_enabled <==> s.attribute(prim, "physics:collisionEnabled"@)->Ok_0 == Some(
            ValueView::Bool(true),
        ),
        j.exclude_from_articulation <==> s.attribute(
            prim,
            "physics:excludeFromArticulation"@,
        )->Ok_0 == Some(ValueView::Bool(true)),
{
}

/// What is read of a joint can be read exactly where each of its properties can.
pub proof fn joints_need_their_properties(s: StageView, prim: Seq<char>)
    ensures
        joint_properties_readable(s, prim) <==> {
            &&& s.targets(prim, "physics:body0"@) is Ok
            &&& s.targets(prim, "physics:body1"@) is Ok
            &&& s.attribute(prim, "physics:localPos0"@) is Ok
            &&& s.attribute(prim, "physics:localPos1"@) is Ok
            &&& s.attribute(prim, "physics:localRot0"@) is Ok
            &&& s.attribute(prim, "physics:localRot1"@) is Ok
            &&& s.attribute(prim, "physics:axis"@) is Ok
            &&& s.attribute(prim, "physics:lowerLimit"@) is Ok
            &&& s.attribute(prim, "physics:upperLimit"@) is Ok
            &&& s.attribute(prim, "physics:collisionEnabled"@) is Ok
            &&& s.attribute(prim, "physics:jointEnabled"@) is Ok
            &&& s.attribute(prim, "physics:excludeFromArticulation"@) is Ok
            &&& s.attribute(prim, "physics:breakForce"@) is Ok
            &&& s.attribute(prim, "physics:breakTorque"@) is Ok
            &&& s.attribute(prim, "physics:minDistance"@) is Ok
            &&& s.attribute(prim, "physics:maxDistance"@) is Ok
            &&& s.attribute(prim, "physics:coneAngle0Limit"@) is Ok
            &&& s.attribute(prim, "physics:coneAngle1Limit"@) is Ok
        },
{
}

/// A collision group has the path of its prim; its members are the targets that its
/// collection lists, and the groups that it filters are the targets listed for that,
/// each in their order; it filters the others only where its attribute says yes.
pub proof fn groups_are_read_by_property(s: StageView, prim: Seq<char>, g: ReadCollisionGroup)
    ensures
        group_readable(s, prim) <==> s.targets(prim, "collection:colliders:includes"@) is Ok
            && s.targets(prim, "physics:filteredGroups"@) is Ok && s.attribute(
            prim,
            "physics:mergeGroup"@,
        ) is Ok && s.attribute(prim, "physics:invertFilteredGroups"@) is Ok,
        group_of(s, prim, g) ==> {
            &&& g.path@ == prim
            &&& texts(g.members@) == s.targets(prim, "collection:colliders:includes"@)->Ok_0
            &&& texts(g.filtered_groups@) == s.targets(prim, "physics:filteredGroups"@)->Ok_0
            &&& text_of(g.merge_group) == to_text(s.attribute(prim, "physics:mergeGroup"@)->Ok_0)
            &&& g.invert_filtered_groups <==> s.attribute(
                prim,
                "physics:invertFilteredGroups"@,
            )->Ok_0 == Some(ValueView::Bool(true))
        },
{
}

/// The prims that physics knows are found by their types and their schemas: each
/// list holds exactly the prims of the stage that are of its kind.
pub proof fn physics_prims_are_what_they_say(s: StageView, found: PhysicsPrims, p: Seq<char>)
    requires
        sorts_prims(s, found),
    ensures
        texts(found.scenes@).contains(p) <==> s.prims.contains(p) && s.prim_type(p) == Ok::<
            Option<Seq<char>>,
            StageError,
        >(Some("PhysicsScene"@)),
        texts(found.collision_groups@).contains(p) <==> s.prims.contains(p) && s.prim_type(p)
            == Ok::<Option<Seq<char>>, StageError>(Some("PhysicsCollisionGroup"@)),
        texts(found.joints@).contains(p) <==> s.prims.contains(p) && (s.prim_type(
            p,
        ) matches Ok(kind) && is_joint_type(kind)),
        texts(found.rigid_bodies@).contains(p) <==> s.prims.contains(p) && (s.api_schemas(
            p,
        ) matches Ok(list) && list.contains("PhysicsRigidBodyAPI"@)),
        texts(found.articulation_roots@).contains(p) <==> s.prims.contains(p) && (s.api_schemas(
            p,
        ) matches Ok(list) && list.contains("PhysicsArticulationRootAPI"@)),
        texts(found.colliders@).contains(p) <==> s.prims.contains(p) && (s.api_schemas(
            p,
        ) matches Ok(list) && list.contains("PhysicsCollisionAPI"@)),
        texts(found.materials@).contains(p) <==> s.prims.contains(p) && (s.api_schemas(
            p,
        ) matches Ok(list) && list.contains("PhysicsMaterialAPI"@)),
        texts(found.filtered_pairs@).contains(p) <==> s.prims.contains(p) && (s.api_schemas(
            p,
        ) matches Ok(list) && list.contains("PhysicsFilteredPairsAPI"@)),
{
    crate::physics::laws::type_lists_its_prims(s, "PhysicsScene"@, p);
    crate::physics::laws::type_lists_its_prims(s, "PhysicsCollisionGroup"@, p);
    crate::physics::laws::joints_are_what_reads_as_joints(s, p);
    crate::physics::laws::schema_lists_its_prims(s, "PhysicsRigidBodyAPI"@, p);
    crate::physics::laws::schema_lists_its_prims(s, "PhysicsArticulationRootAPI"@, p);
    crate::physics::laws::schema_lists_its_prims(s, "PhysicsCollisionAPI"@, p);
    crate::physics::laws::schema_lists_its_prims(s, "PhysicsMaterialAPI"@, p);
    crate::physics::laws::schema_lists_its_prims(s, "PhysicsFilteredPairsAPI"@, p);
}

/// The prims of a kind are found in the order of the stage: those among its first
/// prims come before those among the rest.
pub proof fn physics_prims_keep_their_order(
    s: StageView,
    a: Seq<Seq<char>>,
    b: Seq<Seq<char>>,
    name: Seq<char>,
)
    requires
        s.prims == a + b,
    ensures
        ({
            let front = StageView { prims: a, ..s };
            let back = StageView { prims: b, ..s };
            &&& prims_of_type(s, name) == prims_of_type(front, name) + prims_of_type(back, name)
            &&& prims_with_schema(s, name) == prims_with_schema(front, name) + prims_with_schema(
                back,
                name,
            )
            &&& joint_prims(s) == joint_prims(front) + joint_prims(back)
        }),
{
    let front = StageView { prims: a, ..s };
    let back = StageView { prims: b, ..s };
    let by_type = |p: Seq<char>| has_type(s, p, name);
    assert((|p: Seq<char>| has_type(front, p, name)) =~= by_type);
    assert((|p: Seq<char>| has_type(back, p, name)) =~= by_type);
    Seq::filter_distributes_over_add(a, b, by_type);
    let by_schema = |p: Seq<char>|
        s.api_schemas(p) is Ok && has_schema(s, p, name);
    assert((|p: Seq<char>|
        front.api_schemas(p) is Ok && has_schema(front, p, name))
        =~= by_schema);
    assert((|p: Seq<char>|
        back.api_schemas(p) is Ok && has_schema(back, p, name))
        =~= by_schema);
    Seq::filter_distributes_over_add(a, b, by_schema);
    let joints = |p: Seq<char>| s.prim_type(p) matches Ok(kind) && is_joint_type(kind);
    assert((|p: Seq<char>| front.prim_type(p) matches Ok(kind) && is_joint_type(kind)) =~= joints);
    assert((|p: Seq<char>| back.prim_type(p) matches Ok(kind) && is_joint_type(kind)) =~= joints);
    Seq::filter_distributes_over_add(a, b, joints);
}

/// A joint can be read exactly where its properties and its schemas can, and every
/// limit and every drive that a schema applies to a degree of freedom.
pub proof fn joints_need_their_limits_and_drives(s: StageView, prim: Seq<char>)
    ensures
        joint_readable(s, prim) <==> {
            &&& joint_properties_readable(s, prim)
            &&& s.api_schemas(prim) is Ok
            &&& forall|i: int, dof: Dof|
                #![trigger s.api_schemas(prim)->Ok_0[i], limit_readable(s, prim, dof)]
                0 <= i < s.api_schemas(prim)->Ok_0.len() && s.api_schemas(prim)->Ok_0[i]
                    == "PhysicsLimitAPI"@ + seq![':'] + dof.token() ==> limit_readable(
                    s,
                    prim,
                    dof,
                )
            &&& forall|i: int, dof: Dof|
                #![trigger s.api_schemas(prim)->Ok_0[i], drive_readable(s, prim, dof)]
                0 <= i < s.api_schemas(prim)->Ok_0.len() && s.api_schemas(prim)->Ok_0[i]
                    == "PhysicsDriveAPI"@ + seq![':'] + dof.token() ==> drive_readable(
                    s,
                    prim,
                    dof,
                )
        },
{
    if s.api_schemas(prim) is Ok {
        let list = s.api_schemas(prim)->Ok_0;
        assert forall|i: int, dof: Dof|
            #![trigger list[i], limit_readable(s, prim, dof)]
            0 <= i < list.len() implies (schema_dof(list[i], "PhysicsLimitAPI"@) == Some(dof)
            <==> list[i] == "PhysicsLimitAPI"@ + seq![':'] + dof.token()) by {
            applied_schemas_are_told_by_their_name("PhysicsLimitAPI"@, dof, list[i]);
        }
        assert forall|i: int, dof: Dof|
            #![trigger list[i], drive_readable(s, prim, dof)]
            0 <= i < list.len() implies (schema_dof(list[i], "PhysicsDriveAPI"@) == Some(dof)
            <==> list[i] == "PhysicsDriveAPI"@ + seq![':'] + dof.token()) by {
            applied_schemas_are_told_by_their_name("PhysicsDriveAPI"@, dof, list[i]);
        }
    }
}

/// A prim has a schema exactly where its list of schemas holds it, and is of a type
/// exactly where its type reads as that.
pub proof fn schemas_and_types_are_those_listed(s: StageView, prim: Seq<char>, name: Seq<char>)
    ensures
        s.api_schemas(prim) matches Ok(list) ==> (has_schema(s, prim, name) <==> list.contains(
            name,
        )),
        has_type(s, prim, name) <==> (s.prim_type(prim) matches Ok(Some(kind)) && kind == name),
{
}

} // verus!
