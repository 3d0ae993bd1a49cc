//! Reading the physics schemas.
//!
//! Values stay in the units of the scene, quaternions keep their real part
//! first, and angles stay in degrees.

use crate::attributes::{
    attribute, first, property_error, read_bool, read_first_target, read_quat, read_scalar,
    read_targets, read_token, read_vec3, targets, to_bool, to_quat, to_scalar, to_text, to_vec3,
};
use crate::ieee::{Single, SINGLE_ONE};
use crate::physics::names::{dof_attribute, dof_attribute_name, read_schema_dof, schema_dof};
use crate::physics::types::{
    CollisionApprox, Dof, DriveType, JointKind, PhysicsPrims, ReadCollisionGroup,
    ReadCollisionShape, ReadDrive, ReadFilteredPairs, ReadJoint, ReadLimit, ReadMass,
    ReadPhysicsMaterial, ReadPhysicsScene,
};
use crate::stage::{list_reads_as, StageData, StageError, StageView};
use crate::text::{holds_text, same_text, text_of, texts};
use crate::tokens::{
    property_marks, API_ARTICULATION_ROOT, API_COLLISION, API_DRIVE, API_FILTERED_PAIRS,
    API_LIMIT, API_MASS, API_MESH_COLLISION, API_PHYSICS_MATERIAL, API_RIGID_BODY, A_APPROXIMATION,
    A_AXIS, A_BODY0, A_BODY1, A_BREAK_FORCE, A_BREAK_TORQUE, A_CENTER_OF_MASS, A_COLLIDERS,
    A_COLLISION_ENABLED, A_CONE_ANGLE_0_LIMIT, A_CONE_ANGLE_1_LIMIT, A_DENSITY,
    A_DIAGONAL_INERTIA, A_DYNAMIC_FRICTION, A_EXCLUDE_FROM_ARTICULATION, A_FILTERED_GROUPS,
    A_FILTERED_PAIRS, A_GRAVITY_DIRECTION, A_GRAVITY_MAGNITUDE, A_INVERT_FILTERED_GROUPS,
    A_JOINT_COLLISION_ENABLED, A_JOINT_ENABLED, A_LOCAL_POS_0, A_LOCAL_POS_1, A_LOCAL_ROT_0,
    A_LOCAL_ROT_1, A_LOWER_LIMIT, A_MASS, A_MAX_DISTANCE, A_MERGE_GROUP, A_MIN_DISTANCE,
    A_PRINCIPAL_AXES, A_RESTITUTION, A_SIMULATION_OWNER, A_STATIC_FRICTION, A_UPPER_LIMIT,
    DRIVE_SUB_DAMPING, DRIVE_SUB_MAX_FORCE, DRIVE_SUB_STIFFNESS, DRIVE_SUB_TARGET_POSITION,
    DRIVE_SUB_TARGET_VELOCITY, DRIVE_SUB_TYPE, LIMIT_SUB_HIGH, LIMIT_SUB_LOW,
    REL_MATERIAL_BINDING, REL_MATERIAL_BINDING_PHYSICS, T_PHYSICS_COLLISION_GROUP,
    T_PHYSICS_SCENE,
};
use vstd::prelude::*;

verus! {

/// Whether a prim has a schema applied, where its schemas can be read.
pub open spec fn has_schema(s: StageView, prim: Seq<char>, schema: Seq<char>) -> bool {
    s.api_schemas(prim)->Ok_0.contains(schema)
}

/// Reads the schemas applied to a prim.
pub fn read_api_schemas(stage: &StageData, prim: &str) -> (r: Result<Vec<String>, StageError>)
    ensures
        list_reads_as(r, stage@.api_schemas(prim@)),
{
    stage.api_schemas(prim)
}

/// Reads whether a schema is applied to a prim.
fn read_has_schema(stage: &StageData, prim: &str, schema: &str) -> (r: Result<bool, StageError>)
    ensures
        match r {
            Ok(b) => stage@.api_schemas(prim@) is Ok && b == has_schema(stage@, prim@, schema@),
            Err(e) => stage@.api_schemas(prim@) == Err::<Seq<Seq<char>>, _>(e),
        },
{
    let list: Vec<String> = stage.api_schemas(prim)?;
    Ok(holds_text(&list, schema))
}

/// Reads whether a prim is a rigid body.
pub fn read_has_rigid_body(stage: &StageData, prim: &str) -> (r: Result<bool, StageError>)
    ensures
        match r {
            Ok(b) => stage@.api_schemas(prim@) is Ok && b == has_schema(
                stage@,
                prim@,
                API_RIGID_BODY@,
            ),
            Err(e) => stage@.api_schemas(prim@) == Err::<Seq<Seq<char>>, _>(e),
        },
{
    read_has_schema(stage, prim, API_RIGID_BODY)
}

/// Reads whether a prim collides.
pub fn read_has_collision(stage: &StageData, prim: &str) -> (r: Result<bool, StageError>)
    ensures
        match r {
            Ok(b) => stage@.api_schemas(prim@) is Ok && b == has_schema(
                stage@,
                prim@,
                API_COLLISION@,
            ),
            Err(e) => stage@.api_schemas(prim@) == Err::<Seq<Seq<char>>, _>(e),
        },
{
    read_has_schema(stage, prim, API_COLLISION)
}

/// Reads whether a prim is the root of an articulation.
pub fn read_has_articulation_root(stage: &StageData, prim: &str) -> (r: Result<bool, StageError>)
    ensures
        match r {
            Ok(b) => stage@.api_schemas(prim@) is Ok && b == has_schema(
                stage@,
                prim@,
                API_ARTICULATION_ROOT@,
            ),
            Err(e) => stage@.api_schemas(prim@) == Err::<Seq<Seq<char>>, _>(e),
        },
{
    read_has_schema(stage, prim, API_ARTICULATION_ROOT)
}

/// Whether the inertia of a prim can be read.
pub open spec fn mass_readable(s: StageView, prim: Seq<char>) -> bool {
    &&& s.attribute(prim, A_MASS@) is Ok
    &&& s.attribute(prim, A_CENTER_OF_MASS@) is Ok
    &&& s.attribute(prim, A_DIAGONAL_INERTIA@) is Ok
    &&& s.attribute(prim, A_PRINCIPAL_AXES@) is Ok
    &&& s.attribute(prim, A_DENSITY@) is Ok
}

/// Whether `m` is the inertia that the attributes of a prim describe.
pub open spec fn mass_of(s: StageView, prim: Seq<char>, m: ReadMass) -> bool {
    &&& m.mass == to_scalar(attribute(s, prim, A_MASS@))
    &&& m.center_of_mass == to_vec3(attribute(s, prim, A_CENTER_OF_MASS@))
    &&& m.diagonal_inertia == to_vec3(attribute(s, prim, A_DIAGONAL_INERTIA@))
    &&& m.principal_axes == to_quat(attribute(s, prim, A_PRINCIPAL_AXES@))
    &&& m.density == to_scalar(attribute(s, prim, A_DENSITY@))
}

/// Reads the inertia of a prim that has the mass schema. A prim without it has
/// none, which is not the same as a mass of zero.
pub fn read_mass(stage: &StageData, prim: &str) -> (r: Result<Option<ReadMass>, StageError>)
    ensures
        match stage@.api_schemas(prim@) {
            Err(e) => r == Err::<Option<ReadMass>, _>(e),
            Ok(list) => if !list.contains(API_MASS@) {
                r == Ok::<Option<ReadMass>, StageError>(None)
            } else if !mass_readable(stage@, prim@) {
                r == Err::<Option<ReadMass>, _>(property_error(prim@))
            } else {
                r matches Ok(Some(m)) && mass_of(stage@, prim@, m)
            },
        },
{
    if !read_has_schema(stage, prim, API_MASS)? {
        return Ok(None);
    }
    proof {
        property_marks();
    }
    let mass: Option<Single> = read_scalar(stage, prim, A_MASS)?;
    let center_of_mass: Option<[Single; 3]> = read_vec3(stage, prim, A_CENTER_OF_MASS)?;
    let diagonal_inertia: Option<[Single; 3]> = read_vec3(stage, prim, A_DIAGONAL_INERTIA)?;
    let principal_axes: Option<[Single; 4]> = read_quat(stage, prim, A_PRINCIPAL_AXES)?;
    let density: Option<Single> = read_scalar(stage, prim, A_DENSITY)?;
    Ok(Some(ReadMass { mass, center_of_mass, diagonal_inertia, principal_axes, density }))
}

/// Whether a prim is of a type.
pub open spec fn has_type(s: StageView, prim: Seq<char>, kind: Seq<char>) -> bool {
    s.prim_type(prim) == Ok::<Option<Seq<char>>, StageError>(Some(kind))
}

/// Reads whether a prim is of a type.
fn read_has_type(stage: &StageData, prim: &str, kind: &str) -> (r: Result<bool, StageError>)
    ensures
        match r {
            Ok(b) => stage@.prim_type(prim@) is Ok && b == has_type(stage@, prim@, kind@),
            Err(e) => stage@.prim_type(prim@) == Err::<Option<Seq<char>>, _>(e),
        },
{
    match stage.prim_type(prim)? {
        Some(s) => Ok(same_text(s, kind)),
        None => Ok(false),
    }
}

/// Reads whether a prim is a physics scene.
pub fn read_is_physics_scene(stage: &StageData, prim: &str) -> (r: Result<bool, StageError>)
    ensures
        match r {
            Ok(b) => stage@.prim_type(prim@) is Ok && b == has_type(
                stage@,
                prim@,
                T_PHYSICS_SCENE@,
            ),
            Err(e) => stage@.prim_type(prim@) == Err::<Option<Seq<char>>, _>(e),
        },
{
    read_has_type(stage, prim, T_PHYSICS_SCENE)
}

/// Whether the attributes of a physics scene can be read.
pub open spec fn scene_readable(s: StageView, prim: Seq<char>) -> bool {
    &&& s.attribute(prim, A_GRAVITY_DIRECTION@) is Ok
    &&& s.attribute(prim, A_GRAVITY_MAGNITUDE@) is Ok
}

/// Whether `scene` is the physics scene that a prim describes.
pub open spec fn scene_of(s: StageView, prim: Seq<char>, scene: ReadPhysicsScene) -> bool {
    &&& scene.path@ == prim
    &&& scene.gravity_direction == to_vec3(attribute(s, prim, A_GRAVITY_DIRECTION@))
    &&& scene.gravity_magnitude == to_scalar(attribute(s, prim, A_GRAVITY_MAGNITUDE@))
}

/// Reads a physics scene; a prim of another type is none.
pub fn read_physics_scene(stage: &StageData, prim: &str) -> (r: Result<
    Option<ReadPhysicsScene>,
    StageError,
>)
    ensures
        match stage@.prim_type(prim@) {
            Err(e) => r == Err::<Option<ReadPhysicsScene>, _>(e),
            Ok(kind) => if kind != Some(T_PHYSICS_SCENE@) {
                r == Ok::<Option<ReadPhysicsScene>, StageError>(None)
            } else if !scene_readable(stage@, prim@) {
                r == Err::<Option<ReadPhysicsScene>, _>(property_error(prim@))
            } else {
                r matches Ok(Some(scene)) && scene_of(stage@, prim@, scene)
            },
        },
{
    if !read_is_physics_scene(stage, prim)? {
        return Ok(None);
    }
    proof {
        property_marks();
    }
    let gravity_direction: Option<[Single; 3]> = read_vec3(stage, prim, A_GRAVITY_DIRECTION)?;
    let gravity_magnitude: Option<Single> = read_scalar(stage, prim, A_GRAVITY_MAGNITUDE)?;
    Ok(Some(ReadPhysicsScene { path: prim.to_owned(), gravity_direction, gravity_magnitude }))
}

/// Whether the collision state of a prim can be read. The approximation counts
/// only where the mesh collision schema is applied.
pub open spec fn shape_readable(s: StageView, prim: Seq<char>) -> bool {
    &&& s.attribute(prim, A_COLLISION_ENABLED@) is Ok
    &&& has_schema(s, prim, API_MESH_COLLISION@) ==> s.attribute(prim, A_APPROXIMATION@) is Ok
    &&& s.targets(prim, A_SIMULATION_OWNER@) is Ok
    &&& s.targets(prim, REL_MATERIAL_BINDING_PHYSICS@) is Ok
    &&& s.targets(prim, REL_MATERIAL_BINDING@) is Ok
}

/// The approximation that an attribute names.
pub open spec fn to_approximation(name: Option<Seq<char>>) -> Option<CollisionApprox> {
    match name {
        Some(s) => CollisionApprox::named(s),
        None => None,
    }
}

/// The first of two optional paths.
pub open spec fn either(a: Option<Seq<char>>, b: Option<Seq<char>>) -> Option<Seq<char>> {
    if a is Some {
        a
    } else {
        b
    }
}

/// Whether `shape` is the collision state that a prim describes.
pub open spec fn shape_of(s: StageView, prim: Seq<char>, shape: ReadCollisionShape) -> bool {
    &&& shape.has_collision_api
    &&& shape.has_mesh_collision_api == has_schema(s, prim, API_MESH_COLLISION@)
    &&& shape.collision_enabled == (to_bool(attribute(s, prim, A_COLLISION_ENABLED@)) != Some(
        false,
    ))
    &&& shape.approximation == if has_schema(s, prim, API_MESH_COLLISION@) {
        to_approximation(to_text(attribute(s, prim, A_APPROXIMATION@)))
    } else {
        None
    }
    &&& text_of(shape.simulation_owner) == first(targets(s, prim, A_SIMULATION_OWNER@))
    &&& text_of(shape.physics_material_path) == either(
        first(targets(s, prim, REL_MATERIAL_BINDING_PHYSICS@)),
        first(targets(s, prim, REL_MATERIAL_BINDING@)),
    )
}

/// Reads the collision state of a prim; a prim without the collision schema has
/// none.
pub fn read_collision_shape(stage: &StageData, prim: &str) -> (r: Result<
    Option<ReadCollisionShape>,
    StageError,
>)
    ensures
        match stage@.api_schemas(prim@) {
            Err(e) => r == Err::<Option<ReadCollisionShape>, _>(e),
            Ok(list) => if !list.contains(API_COLLISION@) {
                r == Ok::<Option<ReadCollisionShape>, StageError>(None)
            } else if !shape_readable(stage@, prim@) {
                r == Err::<Option<ReadCollisionShape>, _>(property_error(prim@))
            } else {
                r matches Ok(Some(shape)) && shape_of(stage@, prim@, shape)
            },
        },
{
    let api: Vec<String> = stage.api_schemas(prim)?;
    if !holds_text(&api, API_COLLISION) {
        return Ok(None);
    }
    proof {
        property_marks();
    }
    let has_mesh_collision_api: bool = holds_text(&api, API_MESH_COLLISION);
    let collision_enabled: bool = match read_bool(stage, prim, A_COLLISION_ENABLED)? {
        Some(b) => b,
        None => true,
    };
    let approximation: Option<CollisionApprox> = if has_mesh_collision_api {
        match read_token(stage, prim, A_APPROXIMATION)? {
            Some(s) => CollisionApprox::from_token(s.as_str()),
            None => None,
        }
    } else {
        None
    };
    let simulation_owner: Option<String> = read_first_target(stage, prim, A_SIMULATION_OWNER)?;
    let for_physics: Option<String> = read_first_target(stage, prim, REL_MATERIAL_BINDING_PHYSICS)?;
    let for_all: Option<String> = read_first_target(stage, prim, REL_MATERIAL_BINDING)?;
    let physics_material_path: Option<String> = match for_physics {
        Some(path) => Some(path),
        None => for_all,
    };
    Ok(
        Some(
            ReadCollisionShape {
                has_collision_api: true,
                has_mesh_collision_api,
                collision_enabled,
                approximation,
                simulation_owner,
                physics_material_path,
            },
        ),
    )
}

/// Whether the attributes of a physics material can be read.
pub open spec fn material_readable(s: StageView, prim: Seq<char>) -> bool {
    &&& s.attribute(prim, A_STATIC_FRICTION@) is Ok
    &&& s.attribute(prim, A_DYNAMIC_FRICTION@) is Ok
    &&& s.attribute(prim, A_RESTITUTION@) is Ok
    &&& s.attribute(prim, A_DENSITY@) is Ok
}

/// Whether `m` is the physics material that a prim describes.
pub open spec fn material_of(s: StageView, prim: Seq<char>, m: ReadPhysicsMaterial) -> bool {
    &&& m.path@ == prim
    &&& m.static_friction == to_scalar(attribute(s, prim, A_STATIC_FRICTION@))
    &&& m.dynamic_friction == to_scalar(attribute(s, prim, A_DYNAMIC_FRICTION@))
    &&& m.restitution == to_scalar(attribute(s, prim, A_RESTITUTION@))
    &&& m.density == to_scalar(attribute(s, prim, A_DENSITY@))
}

/// Reads a physics material, whatever the type of the prim; a prim without the
/// material schema is none.
pub fn read_physics_material(stage: &StageData, prim: &str) -> (r: Result<
    Option<ReadPhysicsMaterial>,
    StageError,
>)
    ensures
        match stage@.api_schemas(prim@) {
            Err(e) => r == Err::<Option<ReadPhysicsMaterial>, _>(e),
            Ok(list) => if !list.contains(API_PHYSICS_MATERIAL@) {
                r == Ok::<Option<ReadPhysicsMaterial>, StageError>(None)
            } else if !material_readable(stage@, prim@) {
                r == Err::<Option<ReadPhysicsMaterial>, _>(property_error(prim@))
            } else {
                r matches Ok(Some(m)) && material_of(stage@, prim@, m)
            },
        },
{
    if !read_has_schema(stage, prim, API_PHYSICS_MATERIAL)? {
        return Ok(None);
    }
    proof {
        property_marks();
    }
    let static_friction: Option<Single> = read_scalar(stage, prim, A_STATIC_FRICTION)?;
    let dynamic_friction: Option<Single> = read_scalar(stage, prim, A_DYNAMIC_FRICTION)?;
    let restitution: Option<Single> = read_scalar(stage, prim, A_RESTITUTION)?;
    let density: Option<Single> = read_scalar(stage, prim, A_DENSITY)?;
    Ok(
        Some(
            ReadPhysicsMaterial {
                path: prim.to_owned(),
                static_friction,
                dynamic_friction,
                restitution,
                density,
            },
        ),
    )
}

/// The lower or upper end of a limit; zero where it is not set.
pub open spec fn limit_end(s: StageView, prim: Seq<char>, dof: Dof, part: Seq<char>) -> Single {
    or_zero(to_scalar(attribute(s, prim, dof_attribute("limit:"@, dof.token(), part))))
}

/// A number, or zero.
pub open spec fn or_zero(x: Option<Single>) -> Single {
    match x {
        Some(x) => x,
        None => Single { bits: 0 },
    }
}

/// The limit on one degree of freedom.
pub open spec fn limit_of(s: StageView, prim: Seq<char>, dof: Dof) -> ReadLimit {
    ReadLimit {
        dof,
        low: limit_end(s, prim, dof, LIMIT_SUB_LOW@),
        high: limit_end(s, prim, dof, LIMIT_SUB_HIGH@),
    }
}

/// Whether the limit on one degree of freedom can be read.
pub open spec fn limit_readable(s: StageView, prim: Seq<char>, dof: Dof) -> bool {
    &&& s.attribute(prim, dof_attribute("limit:"@, dof.token(), LIMIT_SUB_LOW@)) is Ok
    &&& s.attribute(prim, dof_attribute("limit:"@, dof.token(), LIMIT_SUB_HIGH@)) is Ok
}

/// The limits that a list of applied schemas names, in its order.
pub open spec fn limits_of(s: StageView, prim: Seq<char>, list: Seq<Seq<char>>) -> Seq<ReadLimit>
    decreases list.len(),
{
    if list.len() == 0 {
        seq![]
    } else {
        let front = limits_of(s, prim, list.drop_last());
        match schema_dof(list.last(), API_LIMIT@) {
            Some(dof) => front.push(limit_of(s, prim, dof)),
            None => front,
        }
    }
}

/// Whether every limit that a list of applied schemas names can be read.
pub open spec fn limits_readable(s: StageView, prim: Seq<char>, list: Seq<Seq<char>>) -> bool {
    forall|i: int|
        0 <= i < list.len() ==> (schema_dof(#[trigger] list[i], API_LIMIT@) matches Some(dof)
            ==> limit_readable(s, prim, dof))
}

/// Reads the limits applied to single degrees of freedom of a joint.
pub fn read_joint_limits(stage: &StageData, prim: &str) -> (r: Result<Vec<ReadLimit>, StageError>)
    ensures
        match stage@.api_schemas(prim@) {
            Err(e) => r == Err::<Vec<ReadLimit>, _>(e),
            Ok(list) => if !limits_readable(stage@, prim@, list) {
                r == Err::<Vec<ReadLimit>, _>(property_error(prim@))
            } else {
                r matches Ok(limits) && limits@ == limits_of(stage@, prim@, list)
            },
        },
{
    let api: Vec<String> = stage.api_schemas(prim)?;
    let ghost list = texts(api@);
    let mut out: Vec<ReadLimit> = Vec::new();
    let mut i: usize = 0;
    while i < api.len()
        invariant
            i <= api.len(),
            list == texts(api@),
            stage@.api_schemas(prim@) == Ok::<Seq<Seq<char>>, StageError>(list),
            limits_readable(stage@, prim@, list.take(i as int)),
            out@ == limits_of(stage@, prim@, list.take(i as int)),
        decreases api.len() - i,
    {
        proof {
            let next = list.take(i + 1);
            assert(next.drop_last() =~= list.take(i as int));
            assert(next.last() == api@[i as int]@);
            reveal_strlit("limit:");
        }
        if let Some(dof) = read_schema_dof(api[i].as_str(), API_LIMIT) {
            assert(schema_dof(list[i as int], API_LIMIT@) == Some(dof));
            let low_name: String = dof_attribute_name("limit:", dof.as_token(), LIMIT_SUB_LOW);
            let high_name: String = dof_attribute_name("limit:", dof.as_token(), LIMIT_SUB_HIGH);
            let low: Single = read_scalar(stage, prim, low_name.as_str())?.unwrap_or(
                Single { bits: 0 },
            );
            let high: Single = read_scalar(stage, prim, high_name.as_str())?.unwrap_or(
                Single { bits: 0 },
            );
            out.push(ReadLimit { dof, low, high });
        }
        i = i + 1;
        proof {
            assert forall|j: int| 0 <= j < i implies (schema_dof(
                #[trigger] list.take(i as int)[j],
                API_LIMIT@,
            ) matches Some(dof) ==> limit_readable(stage@, prim@, dof)) by {
                if j < i - 1 {
                    assert(list.take(i as int)[j] == list.take(i - 1)[j]);
                }
            }
        }
    }
    assert(list.take(i as int) =~= list);
    Ok(out)
}

/// The drive type that an attribute names; force where it names none.
pub open spec fn to_drive_type(name: Option<Seq<char>>) -> DriveType {
    match name {
        Some(s) => match DriveType::named(s) {
            Some(kind) => kind,
            None => DriveType::Force,
        },
        None => DriveType::Force,
    }
}

/// A part of a drive.
pub open spec fn drive_part(s: StageView, prim: Seq<char>, dof: Dof, part: Seq<char>) -> Option<
    Single,
> {
    to_scalar(attribute(s, prim, dof_attribute("drive:"@, dof.token(), part)))
}

/// The drive on one degree of freedom.
pub open spec fn drive_of(s: StageView, prim: Seq<char>, dof: Dof) -> ReadDrive {
    ReadDrive {
        dof,
        drive_type: to_drive_type(
            to_text(attribute(s, prim, dof_attribute("drive:"@, dof.token(), DRIVE_SUB_TYPE@))),
        ),
        target_position: drive_part(s, prim, dof, DRIVE_SUB_TARGET_POSITION@),
        target_velocity: drive_part(s, prim, dof, DRIVE_SUB_TARGET_VELOCITY@),
        damping: or_zero(drive_part(s, prim, dof, DRIVE_SUB_DAMPING@)),
        stiffness: or_zero(drive_part(s, prim, dof, DRIVE_SUB_STIFFNESS@)),
        max_force: drive_part(s, prim, dof, DRIVE_SUB_MAX_FORCE@),
    }
}

/// Whether the drive on one degree of freedom can be read.
pub open spec fn drive_readable(s: StageView, prim: Seq<char>, dof: Dof) -> bool {
    &&& s.attribute(prim, dof_attribute("drive:"@, dof.token(), DRIVE_SUB_TYPE@)) is Ok
    &&& s.attribute(prim, dof_attribute("drive:"@, dof.token(), DRIVE_SUB_TARGET_POSITION@)) is Ok
    &&& s.attribute(prim, dof_attribute("drive:"@, dof.token(), DRIVE_SUB_TARGET_VELOCITY@)) is Ok
    &&& s.attribute(prim, dof_attribute("drive:"@, dof.token(), DRIVE_SUB_DAMPING@)) is Ok
    &&& s.attribute(prim, dof_attribute("drive:"@, dof.token(), DRIVE_SUB_STIFFNESS@)) is Ok
    &&& s.attribute(prim, dof_attribute("drive:"@, dof.token(), DRIVE_SUB_MAX_FORCE@)) is Ok
}

/// The drives that a list of applied schemas names, in its order.
pub open spec fn drives_of(s: StageView, prim: Seq<char>, list: Seq<Seq<char>>) -> Seq<ReadDrive>
    decreases list.len(),
{
    if list.len() == 0 {
        seq![]
    } else {
        let front = drives_of(s, prim, list.drop_last());
        match schema_dof(list.last(), API_DRIVE@) {
            Some(dof) => front.push(drive_of(s, prim, dof)),
            None => front,
        }
    }
}

/// Whether every drive that a list of applied schemas names can be read.
pub open spec fn drives_readable(s: StageView, prim: Seq<char>, list: Seq<Seq<char>>) -> bool {
    forall|i: int|
        0 <= i < list.len() ==> (schema_dof(#[trigger] list[i], API_DRIVE@) matches Some(dof)
            ==> drive_readable(s, prim, dof))
}

/// Reads a part of a drive.
fn read_drive_part(stage: &StageData, prim: &str, dof: Dof, part: &str) -> (r: Result<
    Option<Single>,
    StageError,
>)
    ensures
        match r {
            Ok(x) => {
                &&& stage@.attribute(prim@, dof_attribute("drive:"@, dof.token(), part@)) is Ok
                &&& x == drive_part(stage@, prim@, dof, part@)
            },
            Err(e) => {
                &&& stage@.attribute(prim@, dof_attribute("drive:"@, dof.token(), part@)) is Err
                &&& e == property_error(prim@)
            },
        },
{
    let name: String = dof_attribute_name("drive:", dof.as_token(), part);
    proof {
        reveal_strlit("drive:");
    }
    read_scalar(stage, prim, name.as_str())
}

/// Reads the drive on one degree of freedom.
fn read_drive(stage: &StageData, prim: &str, dof: Dof) -> (r: Result<ReadDrive, StageError>)
    ensures
        match r {
            Ok(drive) => drive_readable(stage@, prim@, dof) && drive == drive_of(
                stage@,
                prim@,
                dof,
            ),
            Err(e) => !drive_readable(stage@, prim@, dof) && e == property_error(prim@),
        },
{
    let type_part: String = dof_attribute_name("drive:", dof.as_token(), DRIVE_SUB_TYPE);
    proof {
        reveal_strlit("drive:");
    }
    let drive_type: DriveType = match read_token(stage, prim, type_part.as_str())? {
        Some(s) => DriveType::from_token(s.as_str()).unwrap_or(DriveType::Force),
        None => DriveType::Force,
    };
    let zero: Single = Single { bits: 0 };
    Ok(
        ReadDrive {
            dof,
            drive_type,
            target_position: read_drive_part(stage, prim, dof, DRIVE_SUB_TARGET_POSITION)?,
            target_velocity: read_drive_part(stage, prim, dof, DRIVE_SUB_TARGET_VELOCITY)?,
            damping: read_drive_part(stage, prim, dof, DRIVE_SUB_DAMPING)?.unwrap_or(zero),
            stiffness: read_drive_part(stage, prim, dof, DRIVE_SUB_STIFFNESS)?.unwrap_or(zero),
            max_force: read_drive_part(stage, prim, dof, DRIVE_SUB_MAX_FORCE)?,
        },
    )
}

/// Reads the drives applied to single degrees of freedom of a joint.
pub fn read_joint_drives(stage: &StageData, prim: &str) -> (r: Result<Vec<ReadDrive>, StageError>)
    ensures
        match stage@.api_schemas(prim@) {
            Err(e) => r == Err::<Vec<ReadDrive>, _>(e),
            Ok(list) => if !drives_readable(stage@, prim@, list) {
                r == Err::<Vec<ReadDrive>, _>(property_error(prim@))
            } else {
                r matches Ok(drives) && drives@ == drives_of(stage@, prim@, list)
            },
        },
{
    let api: Vec<String> = stage.api_schemas(prim)?;
    let ghost list = texts(api@);
    let mut out: Vec<ReadDrive> = Vec::new();
    let mut i: usize = 0;
    while i < api.len()
        invariant
            i <= api.len(),
            list == texts(api@),
            stage@.api_schemas(prim@) == Ok::<Seq<Seq<char>>, StageError>(list),
            drives_readable(stage@, prim@, list.take(i as int)),
            out@ == drives_of(stage@, prim@, list.take(i as int)),
        decreases api.len() - i,
    {
        proof {
            let next = list.take(i + 1);
            assert(next.drop_last() =~= list.take(i as int));
            assert(next.last() == api@[i as int]@);
        }
        if let Some(dof) = read_schema_dof(api[i].as_str(), API_DRIVE) {
            assert(schema_dof(list[i as int], API_DRIVE@) == Some(dof));
            out.push(read_drive(stage, prim, dof)?);
        }
        i = i + 1;
        proof {
            assert forall|j: int| 0 <= j < i implies (schema_dof(
                #[trigger] list.take(i as int)[j],
                API_DRIVE@,
            ) matches Some(dof) ==> drive_readable(stage@, prim@, dof)) by {
                if j < i - 1 {
                    assert(list.take(i as int)[j] == list.take(i - 1)[j]);
                }
            }
        }
    }
    assert(list.take(i as int) =~= list);
    Ok(out)
}

/// A vector, or the zero vector.
pub open spec fn or_origin(a: Option<[Single; 3]>) -> [Single; 3] {
    match a {
        Some(a) => a,
        None => [Single { bits: 0 }, Single { bits: 0 }, Single { bits: 0 }],
    }
}

/// A quaternion, or the one that turns nothing.
pub open spec fn or_unturned(a: Option<[Single; 4]>) -> [Single; 4] {
    match a {
        Some(a) => a,
        None => [
            Single { bits: SINGLE_ONE },
            Single { bits: 0 },
            Single { bits: 0 },
            Single { bits: 0 },
        ],
    }
}

/// Whether the properties that every joint may have can be read.
pub open spec fn joint_properties_readable(s: StageView, prim: Seq<char>) -> bool {
    &&& s.targets(prim, A_BODY0@) is Ok
    &&& s.targets(prim, A_BODY1@) is Ok
    &&& s.attribute(prim, A_LOCAL_POS_0@) is Ok
    &&& s.attribute(prim, A_LOCAL_POS_1@) is Ok
    &&& s.attribute(prim, A_LOCAL_ROT_0@) is Ok
    &&& s.attribute(prim, A_LOCAL_ROT_1@) is Ok
    &&& s.attribute(prim, A_AXIS@) is Ok
    &&& s.attribute(prim, A_LOWER_LIMIT@) is Ok
    &&& s.attribute(prim, A_UPPER_LIMIT@) is Ok
    &&& s.attribute(prim, A_JOINT_COLLISION_ENABLED@) is Ok
    &&& s.attribute(prim, A_JOINT_ENABLED@) is Ok
    &&& s.attribute(prim, A_EXCLUDE_FROM_ARTICULATION@) is Ok
    &&& s.attribute(prim, A_BREAK_FORCE@) is Ok
    &&& s.attribute(prim, A_BREAK_TORQUE@) is Ok
    &&& s.attribute(prim, A_MIN_DISTANCE@) is Ok
    &&& s.attribute(prim, A_MAX_DISTANCE@) is Ok
    &&& s.attribute(prim, A_CONE_ANGLE_0_LIMIT@) is Ok
    &&& s.attribute(prim, A_CONE_ANGLE_1_LIMIT@) is Ok
}

/// Whether everything about a joint can be read.
pub open spec fn joint_readable(s: StageView, prim: Seq<char>) -> bool {
    &&& joint_properties_readable(s, prim)
    &&& s.api_schemas(prim) matches Ok(list) && limits_readable(s, prim, list) && drives_readable(
        s,
        prim,
        list,
    )
}

/// Whether `j` is the joint that a prim describes.
pub open spec fn joint_of(s: StageView, prim: Seq<char>, j: ReadJoint) -> bool {
    &&& j.path@ == prim
    &&& has_type(s, prim, j.kind.prim_type())
    &&& text_of(j.body0) == first(targets(s, prim, A_BODY0@))
    &&& text_of(j.body1) == first(targets(s, prim, A_BODY1@))
    &&& j.local_pos0 == or_origin(to_vec3(attribute(s, prim, A_LOCAL_POS_0@)))
    &&& j.local_rot0 == or_unturned(to_quat(attribute(s, prim, A_LOCAL_ROT_0@)))
    &&& j.local_pos1 == or_origin(to_vec3(attribute(s, prim, A_LOCAL_POS_1@)))
    &&& j.local_rot1 == or_unturned(to_quat(attribute(s, prim, A_LOCAL_ROT_1@)))
    &&& text_of(j.axis) == to_text(attribute(s, prim, A_AXIS@))
    &&& j.lower_limit == to_scalar(attribute(s, prim, A_LOWER_LIMIT@))
    &&& j.upper_limit == to_scalar(attribute(s, prim, A_UPPER_LIMIT@))
    &&& j.collision_enabled == (to_bool(attribute(s, prim, A_JOINT_COLLISION_ENABLED@)) == Some(
        true,
    ))
    &&& j.joint_enabled == (to_bool(attribute(s, prim, A_JOINT_ENABLED@)) != Some(false))
    &&& j.exclude_from_articulation == (to_bool(
        attribute(s, prim, A_EXCLUDE_FROM_ARTICULATION@),
    ) == Some(true))
    &&& j.break_force == to_scalar(attribute(s, prim, A_BREAK_FORCE@))
    &&& j.break_torque == to_scalar(attribute(s, prim, A_BREAK_TORQUE@))
    &&& j.min_distance == to_scalar(attribute(s, prim, A_MIN_DISTANCE@))
    &&& j.max_distance == to_scalar(attribute(s, prim, A_MAX_DISTANCE@))
    &&& j.cone_angle_0 == to_scalar(attribute(s, prim, A_CONE_ANGLE_0_LIMIT@))
    &&& j.cone_angle_1 == to_scalar(attribute(s, prim, A_CONE_ANGLE_1_LIMIT@))
    &&& j.limits@ == limits_of(s, prim, s.api_schemas(prim)->Ok_0)
    &&& j.drives@ == drives_of(s, prim, s.api_schemas(prim)->Ok_0)
}

/// Whether a prim's type is that of a joint.
pub open spec fn is_joint_type(kind: Option<Seq<char>>) -> bool {
    kind matches Some(kind) && JointKind::named(kind) is Some
}

/// Reads a joint; a prim of another type is none.
pub fn read_joint(stage: &StageData, prim: &str) -> (r: Result<Option<ReadJoint>, StageError>)
    ensures
        match stage@.prim_type(prim@) {
            Err(e) => r == Err::<Option<ReadJoint>, _>(e),
            Ok(kind) => if !is_joint_type(kind) {
                r == Ok::<Option<ReadJoint>, StageError>(None)
            } else if !joint_readable(stage@, prim@) {
                r == Err::<Option<ReadJoint>, _>(property_error(prim@))
            } else {
                r matches Ok(Some(j)) && joint_of(stage@, prim@, j)
            },
        },
{
    let kind: JointKind = match stage.prim_type(prim)? {
        Some(s) => match JointKind::from_prim_type(s) {
            Some(kind) => kind,
            None => return Ok(None),
        },
        None => return Ok(None),
    };
    proof {
        property_marks();
    }
    let zero: Single = Single { bits: 0 };
    let one: Single = Single { bits: SINGLE_ONE };
    let origin: [Single; 3] = [zero, zero, zero];
    let unturned: [Single; 4] = [one, zero, zero, zero];
    let body0: Option<String> = read_first_target(stage, prim, A_BODY0)?;
    let body1: Option<String> = read_first_target(stage, prim, A_BODY1)?;
    let local_pos0: [Single; 3] = read_vec3(stage, prim, A_LOCAL_POS_0)?.unwrap_or(origin);
    let local_pos1: [Single; 3] = read_vec3(stage, prim, A_LOCAL_POS_1)?.unwrap_or(origin);
    let local_rot0: [Single; 4] = read_quat(stage, prim, A_LOCAL_ROT_0)?.unwrap_or(unturned);
    let local_rot1: [Single; 4] = read_quat(stage, prim, A_LOCAL_ROT_1)?.unwrap_or(unturned);
    let axis: Option<String> = read_token(stage, prim, A_AXIS)?;
    let lower_limit: Option<Single> = read_scalar(stage, prim, A_LOWER_LIMIT)?;
    let upper_limit: Option<Single> = read_scalar(stage, prim, A_UPPER_LIMIT)?;
    let collision: Option<bool> = read_bool(stage, prim, A_JOINT_COLLISION_ENABLED)?;
    let enabled: Option<bool> = read_bool(stage, prim, A_JOINT_ENABLED)?;
    let excluded: Option<bool> = read_bool(stage, prim, A_EXCLUDE_FROM_ARTICULATION)?;
    let break_force: Option<Single> = read_scalar(stage, prim, A_BREAK_FORCE)?;
    let break_torque: Option<Single> = read_scalar(stage, prim, A_BREAK_TORQUE)?;
    let min_distance: Option<Single> = read_scalar(stage, prim, A_MIN_DISTANCE)?;
    let max_distance: Option<Single> = read_scalar(stage, prim, A_MAX_DISTANCE)?;
    let cone_angle_0: Option<Single> = read_scalar(stage, prim, A_CONE_ANGLE_0_LIMIT)?;
    let cone_angle_1: Option<Single> = read_scalar(stage, prim, A_CONE_ANGLE_1_LIMIT)?;
    let limits: Vec<ReadLimit> = read_joint_limits(stage, prim)?;
    let drives: Vec<ReadDrive> = read_joint_drives(stage, prim)?;
    Ok(
        Some(
            ReadJoint {
                path: prim.to_owned(),
                kind,
                body0,
                body1,
                local_pos0,
                local_rot0,
                local_pos1,
                local_rot1,
                axis,
                lower_limit,
                upper_limit,
                collision_enabled: collision.unwrap_or(false),
                joint_enabled: enabled.unwrap_or(true),
                exclude_from_articulation: excluded.unwrap_or(false),
                break_force,
                break_torque,
                min_distance,
                max_distance,
                cone_angle_0,
                cone_angle_1,
                limits,
                drives,
            },
        ),
    )
}

/// Whether the properties of a collision group can be read.
pub open spec fn group_readable(s: StageView, prim: Seq<char>) -> bool {
    &&& s.targets(prim, A_COLLIDERS@) is Ok
    &&& s.targets(prim, A_FILTERED_GROUPS@) is Ok
    &&& s.attribute(prim, A_MERGE_GROUP@) is Ok
    &&& s.attribute(prim, A_INVERT_FILTERED_GROUPS@) is Ok
}

/// Whether `g` is the collision group that a prim describes.
pub open spec fn group_of(s: StageView, prim: Seq<char>, g: ReadCollisionGroup) -> bool {
    &&& g.path@ == prim
    &&& texts(g.members@) == targets(s, prim, A_COLLIDERS@)
    &&& texts(g.filtered_groups@) == targets(s, prim, A_FILTERED_GROUPS@)
    &&& text_of(g.merge_group) == to_text(attribute(s, prim, A_MERGE_GROUP@))
    &&& g.invert_filtered_groups == (to_bool(attribute(s, prim, A_INVERT_FILTERED_GROUPS@))
        == Some(true))
}

/// Reads a collision group; a prim of another type is none.
pub fn read_collision_group(stage: &StageData, prim: &str) -> (r: Result<
    Option<ReadCollisionGroup>,
    StageError,
>)
    ensures
        match stage@.prim_type(prim@) {
            Err(e) => r == Err::<Option<ReadCollisionGroup>, _>(e),
            Ok(kind) => if kind != Some(T_PHYSICS_COLLISION_GROUP@) {
                r == Ok::<Option<ReadCollisionGroup>, StageError>(None)
            } else if !group_readable(stage@, prim@) {
                r == Err::<Option<ReadCollisionGroup>, _>(property_error(prim@))
            } else {
                r matches Ok(Some(g)) && group_of(stage@, prim@, g)
            },
        },
{
    if !read_has_type(stage, prim, T_PHYSICS_COLLISION_GROUP)? {
        return Ok(None);
    }
    proof {
        property_marks();
    }
    let members: Vec<String> = read_targets(stage, prim, A_COLLIDERS)?;
    let filtered_groups: Vec<String> = read_targets(stage, prim, A_FILTERED_GROUPS)?;
    let merge_group: Option<String> = read_token(stage, prim, A_MERGE_GROUP)?;
    let invert: Option<bool> = read_bool(stage, prim, A_INVERT_FILTERED_GROUPS)?;
    Ok(
        Some(
            ReadCollisionGroup {
                path: prim.to_owned(),
                members,
                filtered_groups,
                merge_group,
                invert_filtered_groups: invert.unwrap_or(false),
            },
        ),
    )
}

/// Reads the prims that a body does not collide with; a prim without the
/// schema has none.
pub fn read_filtered_pairs(stage: &StageData, prim: &str) -> (r: Result<
    Option<ReadFilteredPairs>,
    StageError,
>)
    ensures
        match stage@.api_schemas(prim@) {
            Err(e) => r == Err::<Option<ReadFilteredPairs>, _>(e),
            Ok(list) => if !list.contains(API_FILTERED_PAIRS@) {
                r == Ok::<Option<ReadFilteredPairs>, StageError>(None)
            } else if stage@.targets(prim@, A_FILTERED_PAIRS@) is Err {
                r == Err::<Option<ReadFilteredPairs>, _>(property_error(prim@))
            } else {
                r matches Ok(Some(pairs)) && pairs.path@ == prim@ && texts(pairs.filtered@)
                    == targets(stage@, prim@, A_FILTERED_PAIRS@)
            },
        },
{
    if !read_has_schema(stage, prim, API_FILTERED_PAIRS)? {
        return Ok(None);
    }
    proof {
        property_marks();
    }
    let filtered: Vec<String> = read_targets(stage, prim, A_FILTERED_PAIRS)?;
    Ok(Some(ReadFilteredPairs { path: prim.to_owned(), filtered }))
}

/// The prims whose schemas can be read and hold a given one, in their order.
pub open spec fn prims_with_schema(s: StageView, schema: Seq<char>) -> Seq<Seq<char>> {
    s.prims.filter(|p: Seq<char>| s.api_schemas(p) is Ok && has_schema(s, p, schema))
}

/// The prims of a type, in their order.
pub open spec fn prims_of_type(s: StageView, kind: Seq<char>) -> Seq<Seq<char>> {
    s.prims.filter(|p: Seq<char>| has_type(s, p, kind))
}

/// The joints, in their order.
pub open spec fn joint_prims(s: StageView) -> Seq<Seq<char>> {
    s.prims.filter(|p: Seq<char>| s.prim_type(p) matches Ok(kind) && is_joint_type(kind))
}

/// Whether `found` sorts the prims of a stage by what physics knows of them.
pub open spec fn sorts_prims(s: StageView, found: PhysicsPrims) -> bool {
    &&& texts(found.scenes@) == prims_of_type(s, T_PHYSICS_SCENE@)
    &&& texts(found.rigid_bodies@) == prims_with_schema(s, API_RIGID_BODY@)
    &&& texts(found.articulation_roots@) == prims_with_schema(s, API_ARTICULATION_ROOT@)
    &&& texts(found.colliders@) == prims_with_schema(s, API_COLLISION@)
    &&& texts(found.joints@) == joint_prims(s)
    &&& texts(found.materials@) == prims_with_schema(s, API_PHYSICS_MATERIAL@)
    &&& texts(found.collision_groups@) == prims_of_type(s, T_PHYSICS_COLLISION_GROUP@)
    &&& texts(found.filtered_pairs@) == prims_with_schema(s, API_FILTERED_PAIRS@)
}

/// A stage of which only the first `n` prims are looked at.
spec fn first_prims(s: StageView, n: int) -> StageView {
    StageView { prims: s.prims.take(n), ..s }
}

/// Looking at one prim more adds it to the prims that hold, if it does.
proof fn lemma_filter_next(prims: Seq<Seq<char>>, n: int, keep: spec_fn(Seq<char>) -> bool)
    requires
        0 <= n < prims.len(),
    ensures
        prims.take(n + 1).filter(keep) == if keep(prims[n]) {
            prims.take(n).filter(keep).push(prims[n])
        } else {
            prims.take(n).filter(keep)
        },
{
    reveal(Seq::filter);
    assert(prims.take(n + 1).drop_last() =~= prims.take(n));
}

/// Adds a path to a list if `keep` says so.
fn keep_path(list: &mut Vec<String>, path: &str, keep: bool)
    ensures
        texts(final(list)@) == if keep {
            texts(old(list)@).push(path@)
        } else {
            texts(old(list)@)
        },
{
    if keep {
        let ghost before = list@;
        list.push(path.to_owned());
        assert(texts(list@) =~= texts(before).push(path@));
    }
}

/// Looks at every prim of a stage once and sorts those that physics is about.
///
/// A prim whose type or schemas cannot be read is passed over; a walk that
/// stopped short is an error.
pub fn find_physics_prims(stage: &StageData) -> (r: Result<PhysicsPrims, StageError>)
    ensures
        if stage@.complete {
            r matches Ok(found) && sorts_prims(stage@, found)
        } else {
            r == Err::<PhysicsPrims, _>(StageError::Unreadable)
        },
{
    if !stage.is_complete() {
        return Err(StageError::Unreadable);
    }
    let prims: &Vec<String> = stage.prims();
    let mut found: PhysicsPrims = PhysicsPrims {
        scenes: Vec::new(),
        rigid_bodies: Vec::new(),
        articulation_roots: Vec::new(),
        colliders: Vec::new(),
        joints: Vec::new(),
        materials: Vec::new(),
        collision_groups: Vec::new(),
        filtered_pairs: Vec::new(),
    };
    let ghost all = stage@.prims;
    proof {
        reveal(Seq::filter);
        assert(all.take(0) =~= seq![]);
        assert(texts(found.scenes@) =~= seq![]);
    }
    let mut i: usize = 0;
    while i < prims.len()
        invariant
            i <= prims.len(),
            all == stage@.prims,
            all == texts(prims@),
            sorts_prims(first_prims(stage@, i as int), found),
        decreases prims.len() - i,
    {
        let path: &str = prims[i].as_str();
        let mut is_scene: bool = false;
        let mut is_joint: bool = false;
        let mut is_group: bool = false;
        if let Ok(Some(kind)) = stage.prim_type(path) {
            is_scene = same_text(kind, T_PHYSICS_SCENE);
            is_joint = JointKind::from_prim_type(kind).is_some();
            is_group = same_text(kind, T_PHYSICS_COLLISION_GROUP);
        }
        let api: Vec<String> = match stage.api_schemas(path) {
            Ok(list) => list,
            Err(_) => Vec::new(),
        };
        proof {
            assert(path@ == all[i as int]);
        }
        keep_path(&mut found.scenes, path, is_scene);
        keep_path(&mut found.joints, path, is_joint);
        keep_path(&mut found.collision_groups, path, is_group);
        keep_path(&mut found.rigid_bodies, path, holds_text(&api, API_RIGID_BODY));
        keep_path(&mut found.articulation_roots, path, holds_text(&api, API_ARTICULATION_ROOT));
        keep_path(&mut found.colliders, path, holds_text(&api, API_COLLISION));
        keep_path(&mut found.materials, path, holds_text(&api, API_PHYSICS_MATERIAL));
        keep_path(&mut found.filtered_pairs, path, holds_text(&api, API_FILTERED_PAIRS));
        proof {
            let s = stage@;
            let n = i as int;
            let here = first_prims(s, n);
            let next = first_prims(s, n + 1);
            lemma_next_of_type(s, n, T_PHYSICS_SCENE@);
            lemma_next_of_type(s, n, T_PHYSICS_COLLISION_GROUP@);
            lemma_next_with_schema(s, n, API_RIGID_BODY@);
            lemma_next_with_schema(s, n, API_ARTICULATION_ROOT@);
            lemma_next_with_schema(s, n, API_COLLISION@);
            lemma_next_with_schema(s, n, API_PHYSICS_MATERIAL@);
            lemma_next_with_schema(s, n, API_FILTERED_PAIRS@);
            lemma_next_joint(s, n);
        }
        i = i + 1;
    }
    assert(first_prims(stage@, i as int) =~= stage@);
    Ok(found)
}

proof fn lemma_next_of_type(s: StageView, n: int, kind: Seq<char>)
    requires
        0 <= n < s.prims.len(),
    ensures
        prims_of_type(first_prims(s, n + 1), kind) == if has_type(s, s.prims[n], kind) {
            prims_of_type(first_prims(s, n), kind).push(s.prims[n])
        } else {
            prims_of_type(first_prims(s, n), kind)
        },
{
    let keep = |p: Seq<char>| has_type(s, p, kind);
    assert((|p: Seq<char>| has_type(first_prims(s, n), p, kind)) =~= keep);
    assert((|p: Seq<char>| has_type(first_prims(s, n + 1), p, kind)) =~= keep);
    lemma_filter_next(s.prims, n, keep);
}

proof fn lemma_next_with_schema(s: StageView, n: int, schema: Seq<char>)
    requires
        0 <= n < s.prims.len(),
    ensures
        prims_with_schema(first_prims(s, n + 1), schema) == if s.api_schemas(s.prims[n]) is Ok
            && has_schema(s, s.prims[n], schema) {
            prims_with_schema(first_prims(s, n), schema).push(s.prims[n])
        } else {
            prims_with_schema(first_prims(s, n), schema)
        },
{
    let keep = |p: Seq<char>| s.api_schemas(p) is Ok && has_schema(s, p, schema);
    let a = first_prims(s, n);
    let b = first_prims(s, n + 1);
    assert((|p: Seq<char>| a.api_schemas(p) is Ok && has_schema(a, p, schema)) =~= keep);
    assert((|p: Seq<char>| b.api_schemas(p) is Ok && has_schema(b, p, schema)) =~= keep);
    lemma_filter_next(s.prims, n, keep);
}

proof fn lemma_next_joint(s: StageView, n: int)
    requires
        0 <= n < s.prims.len(),
    ensures
        joint_prims(first_prims(s, n + 1)) == if (s.prim_type(s.prims[n]) matches Ok(kind)
            && is_joint_type(kind)) {
            joint_prims(first_prims(s, n)).push(s.prims[n])
        } else {
            joint_prims(first_prims(s, n))
        },
{
    let keep = |p: Seq<char>| s.prim_type(p) matches Ok(kind) && is_joint_type(kind);
    let a = first_prims(s, n);
    let b = first_prims(s, n + 1);
    assert((|p: Seq<char>| a.prim_type(p) matches Ok(kind) && is_joint_type(kind)) =~= keep);
    assert((|p: Seq<char>| b.prim_type(p) matches Ok(kind) && is_joint_type(kind)) =~= keep);
    lemma_filter_next(s.prims, n, keep);
}

} // verus!
