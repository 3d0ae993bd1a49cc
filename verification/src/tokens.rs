//! The names that the physics schemas give to types, schemas, attributes,
//! relationships and token values.

use vstd::prelude::*;

verus! {

pub const T_XFORM: &'static str = "Xform";
pub const T_PHYSICS_SCENE: &'static str = "PhysicsScene";
pub const T_PHYSICS_JOINT: &'static str = "PhysicsJoint";
pub const T_PHYSICS_FIXED_JOINT: &'static str = "PhysicsFixedJoint";
pub const T_PHYSICS_REVOLUTE_JOINT: &'static str = "PhysicsRevoluteJoint";
pub const T_PHYSICS_PRISMATIC_JOINT: &'static str = "PhysicsPrismaticJoint";
pub const T_PHYSICS_SPHERICAL_JOINT: &'static str = "PhysicsSphericalJoint";
pub const T_PHYSICS_DISTANCE_JOINT: &'static str = "PhysicsDistanceJoint";
pub const T_PHYSICS_COLLISION_GROUP: &'static str = "PhysicsCollisionGroup";

pub const API_RIGID_BODY: &'static str = "PhysicsRigidBodyAPI";
pub const API_MASS: &'static str = "PhysicsMassAPI";
pub const API_COLLISION: &'static str = "PhysicsCollisionAPI";
pub const API_MESH_COLLISION: &'static str = "PhysicsMeshCollisionAPI";
pub const API_PHYSICS_MATERIAL: &'static str = "PhysicsMaterialAPI";
pub const API_ARTICULATION_ROOT: &'static str = "PhysicsArticulationRootAPI";
pub const API_FILTERED_PAIRS: &'static str = "PhysicsFilteredPairsAPI";
pub const API_LIMIT: &'static str = "PhysicsLimitAPI";
pub const API_DRIVE: &'static str = "PhysicsDriveAPI";
pub const API_NEWTON_SCENE: &'static str = "NewtonSceneAPI";
pub const API_NEWTON_ARTICULATION_ROOT: &'static str = "NewtonArticulationRootAPI";
pub const API_NEWTON_MIMIC: &'static str = "NewtonMimicAPI";

pub const A_MASS: &'static str = "physics:mass";
pub const A_CENTER_OF_MASS: &'static str = "physics:centerOfMass";
pub const A_DIAGONAL_INERTIA: &'static str = "physics:diagonalInertia";
pub const A_PRINCIPAL_AXES: &'static str = "physics:principalAxes";
pub const A_DENSITY: &'static str = "physics:density";
pub const A_GRAVITY_DIRECTION: &'static str = "physics:gravityDirection";
pub const A_GRAVITY_MAGNITUDE: &'static str = "physics:gravityMagnitude";
pub const A_COLLISION_ENABLED: &'static str = "physics:collisionEnabled";
pub const A_APPROXIMATION: &'static str = "physics:approximation";
pub const A_SIMULATION_OWNER: &'static str = "physics:simulationOwner";
pub const A_STATIC_FRICTION: &'static str = "physics:staticFriction";
pub const A_DYNAMIC_FRICTION: &'static str = "physics:dynamicFriction";
pub const A_RESTITUTION: &'static str = "physics:restitution";
pub const A_BODY0: &'static str = "physics:body0";
pub const A_BODY1: &'static str = "physics:body1";
pub const A_LOCAL_POS_0: &'static str = "physics:localPos0";
pub const A_LOCAL_ROT_0: &'static str = "physics:localRot0";
pub const A_LOCAL_POS_1: &'static str = "physics:localPos1";
pub const A_LOCAL_ROT_1: &'static str = "physics:localRot1";
pub const A_AXIS: &'static str = "physics:axis";
pub const A_LOWER_LIMIT: &'static str = "physics:lowerLimit";
pub const A_UPPER_LIMIT: &'static str = "physics:upperLimit";
pub const A_JOINT_COLLISION_ENABLED: &'static str = "physics:collisionEnabled";
pub const A_JOINT_ENABLED: &'static str = "physics:jointEnabled";
pub const A_EXCLUDE_FROM_ARTICULATION: &'static str = "physics:excludeFromArticulation";
pub const A_BREAK_FORCE: &'static str = "physics:breakForce";
pub const A_BREAK_TORQUE: &'static str = "physics:breakTorque";
pub const A_MIN_DISTANCE: &'static str = "physics:minDistance";
pub const A_MAX_DISTANCE: &'static str = "physics:maxDistance";
pub const A_CONE_ANGLE_0_LIMIT: &'static str = "physics:coneAngle0Limit";
pub const A_CONE_ANGLE_1_LIMIT: &'static str = "physics:coneAngle1Limit";
pub const A_FILTERED_GROUPS: &'static str = "physics:filteredGroups";
pub const A_MERGE_GROUP: &'static str = "physics:mergeGroup";
pub const A_INVERT_FILTERED_GROUPS: &'static str = "physics:invertFilteredGroups";
pub const A_FILTERED_PAIRS: &'static str = "physics:filteredPairs";
pub const A_COLLIDERS: &'static str = "collection:colliders:includes";
pub const REL_MATERIAL_BINDING_PHYSICS: &'static str = "material:binding:physics";
pub const REL_MATERIAL_BINDING: &'static str = "material:binding";
pub const A_MIMIC_COEF0: &'static str = "newton:mimicCoef0";
pub const A_MIMIC_COEF1: &'static str = "newton:mimicCoef1";
pub const REL_MIMIC_JOINT: &'static str = "newton:mimicJoint";

pub const AXIS_X: &'static str = "X";
pub const AXIS_Y: &'static str = "Y";
pub const AXIS_Z: &'static str = "Z";

pub const DOF_TRANS_X: &'static str = "transX";
pub const DOF_TRANS_Y: &'static str = "transY";
pub const DOF_TRANS_Z: &'static str = "transZ";
pub const DOF_ROT_X: &'static str = "rotX";
pub const DOF_ROT_Y: &'static str = "rotY";
pub const DOF_ROT_Z: &'static str = "rotZ";
pub const DOF_LINEAR: &'static str = "linear";
pub const DOF_ANGULAR: &'static str = "angular";
pub const DOF_DISTANCE: &'static str = "distance";

pub const LIMIT_SUB_LOW: &'static str = "low";
pub const LIMIT_SUB_HIGH: &'static str = "high";
pub const DRIVE_SUB_TYPE: &'static str = "type";
pub const DRIVE_SUB_TARGET_POSITION: &'static str = "targetPosition";
pub const DRIVE_SUB_TARGET_VELOCITY: &'static str = "targetVelocity";
pub const DRIVE_SUB_DAMPING: &'static str = "damping";
pub const DRIVE_SUB_STIFFNESS: &'static str = "stiffness";
pub const DRIVE_SUB_MAX_FORCE: &'static str = "maxForce";
pub const DRIVE_TYPE_FORCE: &'static str = "force";
pub const DRIVE_TYPE_ACCELERATION: &'static str = "acceleration";

pub const APPROX_NONE: &'static str = "none";
pub const APPROX_CONVEX_HULL: &'static str = "convexHull";
pub const APPROX_CONVEX_DECOMPOSITION: &'static str = "convexDecomposition";
pub const APPROX_BOUNDING_SPHERE: &'static str = "boundingSphere";
pub const APPROX_BOUNDING_CUBE: &'static str = "boundingCube";
pub const APPROX_MESH_SIMPLIFICATION: &'static str = "meshSimplification";

/// The length of a property's name and six of its letters, which tell every
/// two properties of the schemas apart.
pub open spec fn mark(s: Seq<char>) -> (int, char, char, char, char, char, char) {
    let n = s.len() as int;
    (n, s[0], s[8], s[9], s[n - 6], s[n - 4], s[n - 1])
}

/// The marks of the schemas' properties.
pub proof fn property_marks()
    ensures
        mark(A_MASS@) == (12int, 'p', 'm', 'a', 's', 'm', 's'),
        mark(A_CENTER_OF_MASS@) == (20int, 'p', 'c', 'e', 'O', 'M', 's'),
        mark(A_DIAGONAL_INERTIA@) == (23int, 'p', 'd', 'i', 'n', 'r', 'a'),
        mark(A_PRINCIPAL_AXES@) == (21int, 'p', 'p', 'r', 'a', 'A', 's'),
        mark(A_DENSITY@) == (15int, 'p', 'd', 'e', 'e', 's', 'y'),
        mark(A_GRAVITY_DIRECTION@) == (24int, 'p', 'g', 'r', 'e', 't', 'n'),
        mark(A_GRAVITY_MAGNITUDE@) == (24int, 'p', 'g', 'r', 'n', 't', 'e'),
        mark(A_COLLISION_ENABLED@) == (24int, 'p', 'c', 'o', 'n', 'b', 'd'),
        mark(A_APPROXIMATION@) == (21int, 'p', 'a', 'p', 'm', 't', 'n'),
        mark(A_SIMULATION_OWNER@) == (23int, 'p', 's', 'i', 'n', 'w', 'r'),
        mark(A_STATIC_FRICTION@) == (22int, 'p', 's', 't', 'i', 't', 'n'),
        mark(A_DYNAMIC_FRICTION@) == (23int, 'p', 'd', 'y', 'i', 't', 'n'),
        mark(A_RESTITUTION@) == (19int, 'p', 'r', 'e', 't', 't', 'n'),
        mark(A_BODY0@) == (13int, 'p', 'b', 'o', ':', 'o', '0'),
        mark(A_BODY1@) == (13int, 'p', 'b', 'o', ':', 'o', '1'),
        mark(A_LOCAL_POS_0@) == (17int, 'p', 'l', 'o', 'a', 'P', '0'),
        mark(A_LOCAL_ROT_0@) == (17int, 'p', 'l', 'o', 'a', 'R', '0'),
        mark(A_LOCAL_POS_1@) == (17int, 'p', 'l', 'o', 'a', 'P', '1'),
        mark(A_LOCAL_ROT_1@) == (17int, 'p', 'l', 'o', 'a', 'R', '1'),
        mark(A_AXIS@) == (12int, 'p', 'a', 'x', 's', 'a', 's'),
        mark(A_LOWER_LIMIT@) == (18int, 'p', 'l', 'o', 'r', 'i', 't'),
        mark(A_UPPER_LIMIT@) == (18int, 'p', 'u', 'p', 'r', 'i', 't'),
        mark(A_JOINT_ENABLED@) == (20int, 'p', 'j', 'o', 'n', 'b', 'd'),
        mark(A_EXCLUDE_FROM_ARTICULATION@) == (31int, 'p', 'e', 'x', 'l', 't', 'n'),
        mark(A_BREAK_FORCE@) == (18int, 'p', 'b', 'r', 'k', 'o', 'e'),
        mark(A_BREAK_TORQUE@) == (19int, 'p', 'b', 'r', 'T', 'r', 'e'),
        mark(A_MIN_DISTANCE@) == (19int, 'p', 'm', 'i', 's', 'a', 'e'),
        mark(A_MAX_DISTANCE@) == (19int, 'p', 'm', 'a', 's', 'a', 'e'),
        mark(A_CONE_ANGLE_0_LIMIT@) == (23int, 'p', 'c', 'o', '0', 'i', 't'),
        mark(A_CONE_ANGLE_1_LIMIT@) == (23int, 'p', 'c', 'o', '1', 'i', 't'),
        mark(A_FILTERED_GROUPS@) == (22int, 'p', 'f', 'i', 'G', 'o', 's'),
        mark(A_MERGE_GROUP@) == (18int, 'p', 'm', 'e', 'e', 'r', 'p'),
        mark(A_INVERT_FILTERED_GROUPS@) == (28int, 'p', 'i', 'n', 'G', 'o', 's'),
        mark(A_FILTERED_PAIRS@) == (21int, 'p', 'f', 'i', 'd', 'a', 's'),
        mark(A_COLLIDERS@) == (29int, 'c', 'o', 'n', 'c', 'u', 's'),
        mark(REL_MATERIAL_BINDING_PHYSICS@) == (24int, 'm', ':', 'b', 'h', 's', 's'),
        mark(REL_MATERIAL_BINDING@) == (16int, 'm', ':', 'b', 'i', 'd', 'g'),
        mark(A_MIMIC_COEF0@) == (17int, 'n', 'i', 'm', 'c', 'o', '0'),
        mark(A_MIMIC_COEF1@) == (17int, 'n', 'i', 'm', 'c', 'o', '1'),
        mark(REL_MIMIC_JOINT@) == (17int, 'n', 'i', 'm', 'c', 'o', 't'),
{
    assert(mark(A_MASS@) == (12int, 'p', 'm', 'a', 's', 'm', 's')) by {
        reveal_strlit("physics:mass");
    }
    assert(mark(A_CENTER_OF_MASS@) == (20int, 'p', 'c', 'e', 'O', 'M', 's')) by {
        reveal_strlit("physics:centerOfMass");
    }
    assert(mark(A_DIAGONAL_INERTIA@) == (23int, 'p', 'd', 'i', 'n', 'r', 'a')) by {
        reveal_strlit("physics:diagonalInertia");
    }
    assert(mark(A_PRINCIPAL_AXES@) == (21int, 'p', 'p', 'r', 'a', 'A', 's')) by {
        reveal_strlit("physics:principalAxes");
    }
    assert(mark(A_DENSITY@) == (15int, 'p', 'd', 'e', 'e', 's', 'y')) by {
        reveal_strlit("physics:density");
    }
    assert(mark(A_GRAVITY_DIRECTION@) == (24int, 'p', 'g', 'r', 'e', 't', 'n')) by {
        reveal_strlit("physics:gravityDirection");
    }
    assert(mark(A_GRAVITY_MAGNITUDE@) == (24int, 'p', 'g', 'r', 'n', 't', 'e')) by {
        reveal_strlit("physics:gravityMagnitude");
    }
    assert(mark(A_COLLISION_ENABLED@) == (24int, 'p', 'c', 'o', 'n', 'b', 'd')) by {
        reveal_strlit("physics:collisionEnabled");
    }
    assert(mark(A_APPROXIMATION@) == (21int, 'p', 'a', 'p', 'm', 't', 'n')) by {
        reveal_strlit("physics:approximation");
    }
    assert(mark(A_SIMULATION_OWNER@) == (23int, 'p', 's', 'i', 'n', 'w', 'r')) by {
        reveal_strlit("physics:simulationOwner");
    }
    assert(mark(A_STATIC_FRICTION@) == (22int, 'p', 's', 't', 'i', 't', 'n')) by {
        reveal_strlit("physics:staticFriction");
    }
    assert(mark(A_DYNAMIC_FRICTION@) == (23int, 'p', 'd', 'y', 'i', 't', 'n')) by {
        reveal_strlit("physics:dynamicFriction");
    }
    assert(mark(A_RESTITUTION@) == (19int, 'p', 'r', 'e', 't', 't', 'n')) by {
        reveal_strlit("physics:restitution");
    }
    assert(mark(A_BODY0@) == (13int, 'p', 'b', 'o', ':', 'o', '0')) by {
        reveal_strlit("physics:body0");
    }
    assert(mark(A_BODY1@) == (13int, 'p', 'b', 'o', ':', 'o', '1')) by {
        reveal_strlit("physics:body1");
    }
    assert(mark(A_LOCAL_POS_0@) == (17int, 'p', 'l', 'o', 'a', 'P', '0')) by {
        reveal_strlit("physics:localPos0");
    }
    assert(mark(A_LOCAL_ROT_0@) == (17int, 'p', 'l', 'o', 'a', 'R', '0')) by {
        reveal_strlit("physics:localRot0");
    }
    assert(mark(A_LOCAL_POS_1@) == (17int, 'p', 'l', 'o', 'a', 'P', '1')) by {
        reveal_strlit("physics:localPos1");
    }
    assert(mark(A_LOCAL_ROT_1@) == (17int, 'p', 'l', 'o', 'a', 'R', '1')) by {
        reveal_strlit("physics:localRot1");
    }
    assert(mark(A_AXIS@) == (12int, 'p', 'a', 'x', 's', 'a', 's')) by {
        reveal_strlit("physics:axis");
    }
    assert(mark(A_LOWER_LIMIT@) == (18int, 'p', 'l', 'o', 'r', 'i', 't')) by {
        reveal_strlit("physics:lowerLimit");
    }
    assert(mark(A_UPPER_LIMIT@) == (18int, 'p', 'u', 'p', 'r', 'i', 't')) by {
        reveal_strlit("physics:upperLimit");
    }
    assert(mark(A_JOINT_ENABLED@) == (20int, 'p', 'j', 'o', 'n', 'b', 'd')) by {
        reveal_strlit("physics:jointEnabled");
    }
    assert(mark(A_EXCLUDE_FROM_ARTICULATION@) == (31int, 'p', 'e', 'x', 'l', 't', 'n')) by {
        reveal_strlit("physics:excludeFromArticulation");
    }
    assert(mark(A_BREAK_FORCE@) == (18int, 'p', 'b', 'r', 'k', 'o', 'e')) by {
        reveal_strlit("physics:breakForce");
    }
    assert(mark(A_BREAK_TORQUE@) == (19int, 'p', 'b', 'r', 'T', 'r', 'e')) by {
        reveal_strlit("physics:breakTorque");
    }
    assert(mark(A_MIN_DISTANCE@) == (19int, 'p', 'm', 'i', 's', 'a', 'e')) by {
        reveal_strlit("physics:minDistance");
    }
    assert(mark(A_MAX_DISTANCE@) == (19int, 'p', 'm', 'a', 's', 'a', 'e')) by {
        reveal_strlit("physics:maxDistance");
    }
    assert(mark(A_CONE_ANGLE_0_LIMIT@) == (23int, 'p', 'c', 'o', '0', 'i', 't')) by {
        reveal_strlit("physics:coneAngle0Limit");
    }
    assert(mark(A_CONE_ANGLE_1_LIMIT@) == (23int, 'p', 'c', 'o', '1', 'i', 't')) by {
        reveal_strlit("physics:coneAngle1Limit");
    }
    assert(mark(A_FILTERED_GROUPS@) == (22int, 'p', 'f', 'i', 'G', 'o', 's')) by {
        reveal_strlit("physics:filteredGroups");
    }
    assert(mark(A_MERGE_GROUP@) == (18int, 'p', 'm', 'e', 'e', 'r', 'p')) by {
        reveal_strlit("physics:mergeGroup");
    }
    assert(mark(A_INVERT_FILTERED_GROUPS@) == (28int, 'p', 'i', 'n', 'G', 'o', 's')) by {
        reveal_strlit("physics:invertFilteredGroups");
    }
    assert(mark(A_FILTERED_PAIRS@) == (21int, 'p', 'f', 'i', 'd', 'a', 's')) by {
        reveal_strlit("physics:filteredPairs");
    }
    assert(mark(A_COLLIDERS@) == (29int, 'c', 'o', 'n', 'c', 'u', 's')) by {
        reveal_strlit("collection:colliders:includes");
    }
    assert(mark(REL_MATERIAL_BINDING_PHYSICS@) == (24int, 'm', ':', 'b', 'h', 's', 's')) by {
        reveal_strlit("material:binding:physics");
    }
    assert(mark(REL_MATERIAL_BINDING@) == (16int, 'm', ':', 'b', 'i', 'd', 'g')) by {
        reveal_strlit("material:binding");
    }
    assert(mark(A_MIMIC_COEF0@) == (17int, 'n', 'i', 'm', 'c', 'o', '0')) by {
        reveal_strlit("newton:mimicCoef0");
    }
    assert(mark(A_MIMIC_COEF1@) == (17int, 'n', 'i', 'm', 'c', 'o', '1')) by {
        reveal_strlit("newton:mimicCoef1");
    }
    assert(mark(REL_MIMIC_JOINT@) == (17int, 'n', 'i', 'm', 'c', 'o', 't')) by {
        reveal_strlit("newton:mimicJoint");
    }
}

} // verus!
