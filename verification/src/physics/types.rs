//! What the physics schemas describe.

use crate::ieee::Single;
use crate::text::same_text;
use crate::tokens::{
    APPROX_BOUNDING_CUBE, APPROX_BOUNDING_SPHERE, APPROX_CONVEX_DECOMPOSITION, APPROX_CONVEX_HULL,
    APPROX_MESH_SIMPLIFICATION, APPROX_NONE, DOF_ANGULAR, DOF_DISTANCE, DOF_LINEAR, DOF_ROT_X,
    DOF_ROT_Y, DOF_ROT_Z, DOF_TRANS_X, DOF_TRANS_Y, DOF_TRANS_Z, DRIVE_TYPE_ACCELERATION,
    DRIVE_TYPE_FORCE, T_PHYSICS_DISTANCE_JOINT, T_PHYSICS_FIXED_JOINT, T_PHYSICS_JOINT,
    T_PHYSICS_PRISMATIC_JOINT, T_PHYSICS_REVOLUTE_JOINT, T_PHYSICS_SPHERICAL_JOINT,
};
use vstd::prelude::*;

verus! {

/// The joint prim types. `Generic` is `PhysicsJoint`, which has no axis of its
/// own and is typically paired with limits on single degrees of freedom.
#[derive(Debug, Clone, Copy, PartialEq, Eq, Structural)]
pub enum JointKind {
    Fixed,
    Revolute,
    Prismatic,
    Spherical,
    Distance,
    Generic,
}

impl JointKind {
    /// The prim type of joints of this kind.
    pub open spec fn prim_type(self) -> Seq<char> {
        match self {
            JointKind::Fixed => T_PHYSICS_FIXED_JOINT@,
            JointKind::Revolute => T_PHYSICS_REVOLUTE_JOINT@,
            JointKind::Prismatic => T_PHYSICS_PRISMATIC_JOINT@,
            JointKind::Spherical => T_PHYSICS_SPHERICAL_JOINT@,
            JointKind::Distance => T_PHYSICS_DISTANCE_JOINT@,
            JointKind::Generic => T_PHYSICS_JOINT@,
        }
    }

    /// The kind of the joints of a prim type.
    pub open spec fn named(s: Seq<char>) -> Option<JointKind> {
        if exists|kind: JointKind| kind.prim_type() == s {
            Some(choose|kind: JointKind| kind.prim_type() == s)
        } else {
            None
        }
    }

    /// A prim type is that of one kind of joint at most.
    pub proof fn prim_types_are_distinct(a: JointKind, b: JointKind)
        ensures
            a.prim_type() == b.prim_type() ==> a == b,
            JointKind::named(a.prim_type()) == Some(a),
    {
        reveal_strlit("PhysicsFixedJoint");
        reveal_strlit("PhysicsRevoluteJoint");
        reveal_strlit("PhysicsPrismaticJoint");
        reveal_strlit("PhysicsSphericalJoint");
        reveal_strlit("PhysicsDistanceJoint");
        reveal_strlit("PhysicsJoint");
        assert forall|x: JointKind, y: JointKind|
            x.prim_type() == y.prim_type() implies x == y by {
            assert(x.prim_type().len() == y.prim_type().len());
            assert(x.prim_type()[7] == y.prim_type()[7]);
        }
        let c = choose|kind: JointKind| kind.prim_type() == a.prim_type();
        assert(c.prim_type() == a.prim_type());
    }

    /// The kind of the joints of a prim type, if it is one of joints.
    pub fn from_prim_type(s: &str) -> (r: Option<JointKind>)
        ensures
            r == JointKind::named(s@),
            forall|kind: JointKind| r == Some(kind) <==> s@ == #[trigger] kind.prim_type(),
    {
        let r: Option<JointKind> = if same_text(s, T_PHYSICS_FIXED_JOINT) {
            Some(JointKind::Fixed)
        } else if same_text(s, T_PHYSICS_REVOLUTE_JOINT) {
            Some(JointKind::Revolute)
        } else if same_text(s, T_PHYSICS_PRISMATIC_JOINT) {
            Some(JointKind::Prismatic)
        } else if same_text(s, T_PHYSICS_SPHERICAL_JOINT) {
            Some(JointKind::Spherical)
        } else if same_text(s, T_PHYSICS_DISTANCE_JOINT) {
            Some(JointKind::Distance)
        } else if same_text(s, T_PHYSICS_JOINT) {
            Some(JointKind::Generic)
        } else {
            None
        };
        proof {
            assert forall|kind: JointKind| r == Some(kind) <==> s@ == #[trigger] kind.prim_type() by {
                if r is Some {
                    JointKind::prim_types_are_distinct(r->0, kind);
                }
            }
            if r is Some {
                JointKind::prim_types_are_distinct(r->0, r->0);
            }
        }
        r
    }
}

/// The degrees of freedom that a limit or a drive can be applied to. `Linear`,
/// `Angular` and `Distance` are the short names that some tools write on joints
/// of one axis; the other six are those of generic joints.
#[derive(Debug, Clone, Copy, PartialEq, Eq, Structural, Hash)]
pub enum Dof {
    TransX,
    TransY,
    TransZ,
    RotX,
    RotY,
    RotZ,
    Linear,
    Angular,
    Distance,
}

impl Dof {
    pub open spec fn token(self) -> Seq<char> {
        match self {
            Dof::TransX => DOF_TRANS_X@,
            Dof::TransY => DOF_TRANS_Y@,
            Dof::TransZ => DOF_TRANS_Z@,
            Dof::RotX => DOF_ROT_X@,
            Dof::RotY => DOF_ROT_Y@,
            Dof::RotZ => DOF_ROT_Z@,
            Dof::Linear => DOF_LINEAR@,
            Dof::Angular => DOF_ANGULAR@,
            Dof::Distance => DOF_DISTANCE@,
        }
    }

    /// The degree of freedom that a token names.
    pub open spec fn named(s: Seq<char>) -> Option<Dof> {
        if exists|dof: Dof| dof.token() == s {
            Some(choose|dof: Dof| dof.token() == s)
        } else {
            None
        }
    }

    /// No two degrees of freedom share a token, so a token that names one names
    /// no other.
    pub proof fn tokens_are_distinct(a: Dof, b: Dof)
        ensures
            a.token() == b.token() ==> a == b,
            Dof::named(a.token()) == Some(a),
    {
        reveal_strlit("transX");
        reveal_strlit("transY");
        reveal_strlit("transZ");
        reveal_strlit("rotX");
        reveal_strlit("rotY");
        reveal_strlit("rotZ");
        reveal_strlit("linear");
        reveal_strlit("angular");
        reveal_strlit("distance");
        assert forall|x: Dof, y: Dof| x.token() == y.token() implies x == y by {
            assert(x.token()[0] == y.token()[0]);
            assert(x.token().last() == y.token().last());
            assert(x.token().len() == y.token().len());
        }
        let c = choose|dof: Dof| dof.token() == a.token();
        assert(c.token() == a.token());
    }

    /// The token of a degree of freedom.
    pub fn as_token(self) -> (r: &'static str)
        ensures
            r@ == self.token(),
    {
        match self {
            Dof::TransX => DOF_TRANS_X,
            Dof::TransY => DOF_TRANS_Y,
            Dof::TransZ => DOF_TRANS_Z,
            Dof::RotX => DOF_ROT_X,
            Dof::RotY => DOF_ROT_Y,
            Dof::RotZ => DOF_ROT_Z,
            Dof::Linear => DOF_LINEAR,
            Dof::Angular => DOF_ANGULAR,
            Dof::Distance => DOF_DISTANCE,
        }
    }

    /// The degree of freedom that a token names, if it names one.
    pub fn from_token(s: &str) -> (r: Option<Dof>)
        ensures
            r == Dof::named(s@),
            forall|dof: Dof| r == Some(dof) <==> s@ == #[trigger] dof.token(),
    {
        let r: Option<Dof> = if same_text(s, DOF_TRANS_X) {
            Some(Dof::TransX)
        } else if same_text(s, DOF_TRANS_Y) {
            Some(Dof::TransY)
        } else if same_text(s, DOF_TRANS_Z) {
            Some(Dof::TransZ)
        } else if same_text(s, DOF_ROT_X) {
            Some(Dof::RotX)
        } else if same_text(s, DOF_ROT_Y) {
            Some(Dof::RotY)
        } else if same_text(s, DOF_ROT_Z) {
            Some(Dof::RotZ)
        } else if same_text(s, DOF_LINEAR) {
            Some(Dof::Linear)
        } else if same_text(s, DOF_ANGULAR) {
            Some(Dof::Angular)
        } else if same_text(s, DOF_DISTANCE) {
            Some(Dof::Distance)
        } else {
            None
        };
        proof {
            assert forall|dof: Dof| r == Some(dof) <==> s@ == #[trigger] dof.token() by {
                if r is Some {
                    Dof::tokens_are_distinct(r->0, dof);
                }
            }
            if r is Some {
                Dof::tokens_are_distinct(r->0, r->0);
            }
        }
        r
    }
}

/// What a drive's stiffness and damping scale.
#[derive(Debug, Clone, Copy, PartialEq, Eq, Structural)]
pub enum DriveType {
    Force,
    Acceleration,
}

impl DriveType {
    pub open spec fn token(self) -> Seq<char> {
        match self {
            DriveType::Force => DRIVE_TYPE_FORCE@,
            DriveType::Acceleration => DRIVE_TYPE_ACCELERATION@,
        }
    }

    /// The drive type that a token names.
    pub open spec fn named(s: Seq<char>) -> Option<DriveType> {
        if exists|kind: DriveType| kind.token() == s {
            Some(choose|kind: DriveType| kind.token() == s)
        } else {
            None
        }
    }

    /// A token that names one drive type names no other.
    pub proof fn tokens_are_distinct(a: DriveType, b: DriveType)
        ensures
            a.token() == b.token() ==> a == b,
            DriveType::named(a.token()) == Some(a),
    {
        reveal_strlit("force");
        reveal_strlit("acceleration");
        assert forall|x: DriveType, y: DriveType| x.token() == y.token() implies x == y by {
            assert(x.token().len() == y.token().len());
        }
        let c = choose|kind: DriveType| kind.token() == a.token();
        assert(c.token() == a.token());
    }

    /// The token of a drive type.
    pub fn as_token(self) -> (r: &'static str)
        ensures
            r@ == self.token(),
    {
        match self {
            DriveType::Force => DRIVE_TYPE_FORCE,
            DriveType::Acceleration => DRIVE_TYPE_ACCELERATION,
        }
    }

    /// The drive type that a token names, if it names one.
    pub fn from_token(s: &str) -> (r: Option<DriveType>)
        ensures
            r == DriveType::named(s@),
            forall|kind: DriveType| r == Some(kind) <==> s@ == #[trigger] kind.token(),
    {
        let r: Option<DriveType> = if same_text(s, DRIVE_TYPE_FORCE) {
            Some(DriveType::Force)
        } else if same_text(s, DRIVE_TYPE_ACCELERATION) {
            Some(DriveType::Acceleration)
        } else {
            None
        };
        proof {
            assert forall|kind: DriveType| r == Some(kind) <==> s@ == #[trigger] kind.token() by {
                if r is Some {
                    DriveType::tokens_are_distinct(r->0, kind);
                }
            }
            if r is Some {
                DriveType::tokens_are_distinct(r->0, r->0);
            }
        }
        r
    }
}

/// How a mesh stands in for its collision shape.
#[derive(Debug, Clone, Copy, PartialEq, Eq, Structural)]
pub enum CollisionApprox {
    /// The choice is left to the engine: typically a convex hull for a dynamic
    /// body, and the triangles themselves for a static one.
    EngineDefault,
    ConvexHull,
    ConvexDecomposition,
    BoundingSphere,
    BoundingCube,
    MeshSimplification,
}

impl CollisionApprox {
    pub open spec fn token(self) -> Seq<char> {
        match self {
            CollisionApprox::EngineDefault => APPROX_NONE@,
            CollisionApprox::ConvexHull => APPROX_CONVEX_HULL@,
            CollisionApprox::ConvexDecomposition => APPROX_CONVEX_DECOMPOSITION@,
            CollisionApprox::BoundingSphere => APPROX_BOUNDING_SPHERE@,
            CollisionApprox::BoundingCube => APPROX_BOUNDING_CUBE@,
            CollisionApprox::MeshSimplification => APPROX_MESH_SIMPLIFICATION@,
        }
    }

    /// The approximation that a token names.
    pub open spec fn named(s: Seq<char>) -> Option<CollisionApprox> {
        if exists|approx: CollisionApprox| approx.token() == s {
            Some(choose|approx: CollisionApprox| approx.token() == s)
        } else {
            None
        }
    }

    /// A token that names one approximation names no other.
    pub proof fn tokens_are_distinct(a: CollisionApprox, b: CollisionApprox)
        ensures
            a.token() == b.token() ==> a == b,
            CollisionApprox::named(a.token()) == Some(a),
    {
        reveal_strlit("none");
        reveal_strlit("convexHull");
        reveal_strlit("convexDecomposition");
        reveal_strlit("boundingSphere");
        reveal_strlit("boundingCube");
        reveal_strlit("meshSimplification");
        assert forall|x: CollisionApprox, y: CollisionApprox|
            x.token() == y.token() implies x == y by {
            assert(x.token().len() == y.token().len());
        }
        let c = choose|approx: CollisionApprox| approx.token() == a.token();
        assert(c.token() == a.token());
    }

    /// The token of an approximation.
    pub fn as_token(self) -> (r: &'static str)
        ensures
            r@ == self.token(),
    {
        match self {
            CollisionApprox::EngineDefault => APPROX_NONE,
            CollisionApprox::ConvexHull => APPROX_CONVEX_HULL,
            CollisionApprox::ConvexDecomposition => APPROX_CONVEX_DECOMPOSITION,
            CollisionApprox::BoundingSphere => APPROX_BOUNDING_SPHERE,
            CollisionApprox::BoundingCube => APPROX_BOUNDING_CUBE,
            CollisionApprox::MeshSimplification => APPROX_MESH_SIMPLIFICATION,
        }
    }

    /// The approximation that a token names, if it names one.
    pub fn from_token(s: &str) -> (r: Option<CollisionApprox>)
        ensures
            r == CollisionApprox::named(s@),
            forall|approx: CollisionApprox| r == Some(approx) <==> s@ == #[trigger] approx.token(),
    {
        let r: Option<CollisionApprox> = if same_text(s, APPROX_NONE) {
            Some(CollisionApprox::EngineDefault)
        } else if same_text(s, APPROX_CONVEX_HULL) {
            Some(CollisionApprox::ConvexHull)
        } else if same_text(s, APPROX_CONVEX_DECOMPOSITION) {
            Some(CollisionApprox::ConvexDecomposition)
        } else if same_text(s, APPROX_BOUNDING_SPHERE) {
            Some(CollisionApprox::BoundingSphere)
        } else if same_text(s, APPROX_BOUNDING_CUBE) {
            Some(CollisionApprox::BoundingCube)
        } else if same_text(s, APPROX_MESH_SIMPLIFICATION) {
            Some(CollisionApprox::MeshSimplification)
        } else {
            None
        };
        proof {
            assert forall|approx: CollisionApprox| r == Some(approx) <==> s@ == #[trigger] approx.token() by {
                if r is Some {
                    CollisionApprox::tokens_are_distinct(r->0, approx);
                }
            }
            if r is Some {
                CollisionApprox::tokens_are_distinct(r->0, r->0);
            }
        }
        r
    }
}

/// The inertia of a body that has the mass schema.
#[derive(Debug, Clone, Default, PartialEq)]
pub struct ReadMass {
    pub mass: Option<Single>,
    pub center_of_mass: Option<[Single; 3]>,
    pub diagonal_inertia: Option<[Single; 3]>,
    /// The principal axes, as a quaternion with its real part first.
    pub principal_axes: Option<[Single; 4]>,
    /// The density, which counts where there is no mass.
    pub density: Option<Single>,
}

/// A physics scene. The direction of gravity is a free vector, and its
/// magnitude scales it; either is missing where the scene has no opinion.
#[derive(Debug, Clone, Default, PartialEq)]
pub struct ReadPhysicsScene {
    pub path: String,
    pub gravity_direction: Option<[Single; 3]>,
    pub gravity_magnitude: Option<Single>,
}

/// The collision state of a prim.
#[derive(Debug, Clone, Default, PartialEq)]
pub struct ReadCollisionShape {
    pub has_collision_api: bool,
    pub has_mesh_collision_api: bool,
    /// Collision is on unless it is switched off.
    pub collision_enabled: bool,
    /// Missing unless the mesh collision schema is applied: the prim is then a
    /// primitive shape with a collider of its own.
    pub approximation: Option<CollisionApprox>,
    pub simulation_owner: Option<String>,
    /// The material bound for physics, or else the one bound for everything.
    pub physics_material_path: Option<String>,
}

/// A physics material.
#[derive(Debug, Clone, Default, PartialEq)]
pub struct ReadPhysicsMaterial {
    pub path: String,
    pub static_friction: Option<Single>,
    pub dynamic_friction: Option<Single>,
    pub restitution: Option<Single>,
    pub density: Option<Single>,
}

/// A limit on one degree of freedom. A lower end above the upper one locks it.
#[derive(Debug, Clone, Copy, PartialEq, Eq, Structural)]
pub struct ReadLimit {
    pub dof: Dof,
    pub low: Single,
    pub high: Single,
}

/// A drive on one degree of freedom.
#[derive(Debug, Clone, Copy, PartialEq)]
pub struct ReadDrive {
    pub dof: Dof,
    pub drive_type: DriveType,
    pub target_position: Option<Single>,
    pub target_velocity: Option<Single>,
    pub damping: Single,
    pub stiffness: Single,
    pub max_force: Option<Single>,
}

/// A joint.
///
/// The limits of its own are those of revolute joints, in degrees, and of
/// prismatic ones, in scene units. `limits` and `drives` are those applied to
/// single degrees of freedom.
#[derive(Debug, Clone)]
pub struct ReadJoint {
    pub path: String,
    pub kind: JointKind,
    pub body0: Option<String>,
    pub body1: Option<String>,
    pub local_pos0: [Single; 3],
    pub local_rot0: [Single; 4],
    pub local_pos1: [Single; 3],
    pub local_rot1: [Single; 4],
    pub axis: Option<String>,
    pub lower_limit: Option<Single>,
    pub upper_limit: Option<Single>,
    pub collision_enabled: bool,
    pub joint_enabled: bool,
    pub exclude_from_articulation: bool,
    pub break_force: Option<Single>,
    pub break_torque: Option<Single>,
    /// The distances of a distance joint.
    pub min_distance: Option<Single>,
    pub max_distance: Option<Single>,
    /// The cone of a spherical joint, in degrees; `-1.0` is no limit.
    pub cone_angle_0: Option<Single>,
    pub cone_angle_1: Option<Single>,
    pub limits: Vec<ReadLimit>,
    pub drives: Vec<ReadDrive>,
}

/// A collision group. Its members are the explicit list of its collection;
/// the other rules of collections are not evaluated.
#[derive(Debug, Clone, Default, PartialEq)]
pub struct ReadCollisionGroup {
    pub path: String,
    pub members: Vec<String>,
    pub filtered_groups: Vec<String>,
    pub merge_group: Option<String>,
    pub invert_filtered_groups: bool,
}

/// The prims that a body does not collide with.
#[derive(Debug, Clone, Default, PartialEq)]
pub struct ReadFilteredPairs {
    pub path: String,
    pub filtered: Vec<String>,
}

/// The prims of a stage that physics is about, by what they are.
#[derive(Debug, Clone, Default)]
pub struct PhysicsPrims {
    pub scenes: Vec<String>,
    pub rigid_bodies: Vec<String>,
    pub articulation_roots: Vec<String>,
    pub colliders: Vec<String>,
    pub joints: Vec<String>,
    pub materials: Vec<String>,
    pub collision_groups: Vec<String>,
    pub filtered_pairs: Vec<String>,
}

} // verus!
