//! Authoring the physics schemas.

use crate::ieee::{Double, Single};
use crate::path::{child_of, is_property, is_property_path};
use crate::physics::names::{
    applied_schema, applied_schema_name, dof_attribute, dof_attribute_name,
};
use crate::physics::types::{CollisionApprox, DriveType};
use crate::stage::{defines_prim, str_texts, StageData, StageError, StageView};
use crate::text::texts;
use crate::tokens::{
    property_marks, API_ARTICULATION_ROOT, API_COLLISION, API_DRIVE, API_LIMIT, API_MASS,
    API_MESH_COLLISION, API_NEWTON_ARTICULATION_ROOT, API_NEWTON_MIMIC, API_NEWTON_SCENE,
    API_PHYSICS_MATERIAL, API_RIGID_BODY, APPROX_CONVEX_HULL, AXIS_X, AXIS_Y, AXIS_Z,
    A_APPROXIMATION, A_AXIS, A_BODY0, A_BODY1, A_CENTER_OF_MASS, A_CONE_ANGLE_0_LIMIT,
    A_CONE_ANGLE_1_LIMIT, A_DENSITY, A_DIAGONAL_INERTIA, A_DYNAMIC_FRICTION, A_LOCAL_POS_0,
    A_LOCAL_POS_1, A_LOCAL_ROT_0, A_LOCAL_ROT_1, A_LOWER_LIMIT, A_MASS, A_MAX_DISTANCE,
    A_MIMIC_COEF0, A_MIMIC_COEF1, A_MIN_DISTANCE, A_PRINCIPAL_AXES, A_RESTITUTION,
    A_STATIC_FRICTION, A_UPPER_LIMIT, DRIVE_SUB_DAMPING, DRIVE_SUB_MAX_FORCE, DRIVE_SUB_STIFFNESS,
    DRIVE_SUB_TARGET_POSITION, DRIVE_SUB_TARGET_VELOCITY, DRIVE_SUB_TYPE, LIMIT_SUB_HIGH,
    LIMIT_SUB_LOW, REL_MIMIC_JOINT, T_PHYSICS_DISTANCE_JOINT, T_PHYSICS_FIXED_JOINT,
    T_PHYSICS_JOINT, T_PHYSICS_PRISMATIC_JOINT, T_PHYSICS_REVOLUTE_JOINT, T_PHYSICS_SCENE,
    T_PHYSICS_SPHERICAL_JOINT,
};
use crate::value::{Value, ValueView};
use vstd::prelude::*;

verus! {

/// Why schemas cannot be applied to a prim, if they cannot.
pub open spec fn apply_error(s: StageView, prim: Seq<char>) -> Option<StageError> {
    if is_property(prim) {
        Some(StageError::InvalidPath)
    } else {
        match s.api_schemas(prim) {
            Err(e) => Some(e),
            Ok(_) => None,
        }
    }
}

/// Applies one schema.
fn apply_one(stage: &mut StageData, prim: &str, schema: &str) -> (r: Result<(), StageError>)
    ensures
        match apply_error(old(stage)@, prim@) {
            Some(e) => r == Err::<(), _>(e) && final(stage)@ == old(stage)@,
            None => r is Ok && final(stage)@ == old(stage)@.with_schemas(prim@, seq![schema@]),
        },
{
    let names: [&str; 1] = [schema];
    proof {
        assert(str_texts(names@) =~= seq![schema@]);
    }
    stage.apply_api_schemas(prim, &names)
}

/// Applies two schemas.
fn apply_two(stage: &mut StageData, prim: &str, a: &str, b: &str) -> (r: Result<(), StageError>)
    ensures
        match apply_error(old(stage)@, prim@) {
            Some(e) => r == Err::<(), _>(e) && final(stage)@ == old(stage)@,
            None => r is Ok && final(stage)@ == old(stage)@.with_schemas(prim@, seq![a@, b@]),
        },
{
    let names: [&str; 2] = [a, b];
    proof {
        assert(str_texts(names@) =~= seq![a@, b@]);
    }
    stage.apply_api_schemas(prim, &names)
}

/// Defines an attribute that holds a number.
fn define_float(stage: &mut StageData, prim: &str, name: &str, x: Single)
    requires
        !is_property(prim@),
        name@.len() > 1,
    ensures
        final(stage)@ == old(stage)@.with_float(prim@, name@, x),
{
    let _ = stage.define_attribute(prim, name, "float", Value::Float(x), false);
}

/// Defines an attribute that holds a number, where there is one.
fn define_optional_float(stage: &mut StageData, prim: &str, name: &str, x: Option<Single>)
    requires
        !is_property(prim@),
        name@.len() > 1,
    ensures
        final(stage)@ == old(stage)@.with_optional_float(prim@, name@, x),
{
    if let Some(x) = x {
        define_float(stage, prim, name, x);
    }
}

/// Defines a relationship to one target, where there is one.
fn define_optional_target(stage: &mut StageData, prim: &str, name: &str, target: &Option<String>)
    requires
        !is_property(prim@),
        name@.len() > 1,
    ensures
        final(stage)@ == old(stage)@.with_optional_target(prim@, name@, *target),
{
    if let Some(target) = target {
        let mut list: Vec<String> = Vec::new();
        list.push(target.as_str().to_owned());
        assert(texts(list@) =~= seq![target@]);
        let _ = stage.define_relationship(prim, name, list);
    }
}

impl StageView {
    /// The stage after an attribute that holds a number has been defined.
    pub open spec fn with_float(self, prim: Seq<char>, name: Seq<char>, x: Single) -> StageView {
        self.with_attribute(prim, name, "float"@, ValueView::Float(x), false)
    }

    /// The same, where there is a number to hold.
    pub open spec fn with_optional_float(
        self,
        prim: Seq<char>,
        name: Seq<char>,
        x: Option<Single>,
    ) -> StageView {
        match x {
            Some(x) => self.with_float(prim, name, x),
            None => self,
        }
    }

    /// The stage after a relationship to one target has been defined, where
    /// there is a target.
    pub open spec fn with_optional_target(
        self,
        prim: Seq<char>,
        name: Seq<char>,
        target: Option<String>,
    ) -> StageView {
        match target {
            Some(target) => self.with_relationship(prim, name, seq![target@]),
            None => self,
        }
    }
}

/// Defines a physics scene below `parent`, with the schema that Newton
/// importers look for, and returns its path.
pub fn define_scene(stage: &mut StageData, parent: &str, name: &str) -> (r: Result<
    String,
    StageError,
>)
    ensures
        if !defines_prim(parent@, name@) {
            r == Err::<String, _>(StageError::InvalidPath) && final(stage)@ == old(stage)@
        } else {
            let path = child_of(parent@, name@);
            let defined = old(stage)@.with_prim(path, T_PHYSICS_SCENE@);
            match apply_error(defined, path) {
                Some(e) => r == Err::<String, _>(e) && final(stage)@ == defined,
                None => {
                    &&& r matches Ok(p) && p@ == path
                    &&& final(stage)@ == defined.with_schemas(path, seq![API_NEWTON_SCENE@])
                },
            }
        },
{
    let path: String = stage.define_prim(parent, name, T_PHYSICS_SCENE)?;
    apply_one(stage, path.as_str(), API_NEWTON_SCENE)?;
    Ok(path)
}

/// Makes a prim a rigid body.
pub fn apply_rigid_body(stage: &mut StageData, prim: &str) -> (r: Result<(), StageError>)
    ensures
        match apply_error(old(stage)@, prim@) {
            Some(e) => r == Err::<(), _>(e) && final(stage)@ == old(stage)@,
            None => r is Ok && final(stage)@ == old(stage)@.with_schemas(
                prim@,
                seq![API_RIGID_BODY@],
            ),
        },
{
    apply_one(stage, prim, API_RIGID_BODY)
}

/// Makes a prim the root of an articulation.
pub fn apply_articulation_root(stage: &mut StageData, prim: &str) -> (r: Result<(), StageError>)
    ensures
        match apply_error(old(stage)@, prim@) {
            Some(e) => r == Err::<(), _>(e) && final(stage)@ == old(stage)@,
            None => r is Ok && final(stage)@ == old(stage)@.with_schemas(
                prim@,
                seq![API_ARTICULATION_ROOT@, API_NEWTON_ARTICULATION_ROOT@],
            ),
        },
{
    apply_two(stage, prim, API_ARTICULATION_ROOT, API_NEWTON_ARTICULATION_ROOT)
}

/// The inertia to author on a body.
pub struct MassProps {
    pub mass: Double,
    pub center_of_mass: [Double; 3],
    pub diagonal_inertia: [Single; 3],
    /// The principal axes, as a quaternion with its real part first.
    pub principal_axes: [Single; 4],
}

impl StageView {
    /// The stage after the inertia of a body has been authored.
    pub open spec fn with_mass(self, prim: Seq<char>, props: MassProps) -> StageView {
        let com = props.center_of_mass;
        self.with_schemas(prim, seq![API_MASS@]).with_float(
            prim,
            A_MASS@,
            props.mass.nearest(),
        ).with_attribute(
            prim,
            A_CENTER_OF_MASS@,
            "point3f"@,
            ValueView::Vec3f([com[0].nearest(), com[1].nearest(), com[2].nearest()]),
            false,
        ).with_attribute(
            prim,
            A_DIAGONAL_INERTIA@,
            "float3"@,
            ValueView::Vec3f(props.diagonal_inertia),
            false,
        ).with_attribute(
            prim,
            A_PRINCIPAL_AXES@,
            "quatf"@,
            ValueView::Quatf(props.principal_axes),
            false,
        )
    }
}

/// Authors the inertia of a body. Mass and centre are stored as singles.
pub fn apply_mass(stage: &mut StageData, prim: &str, props: &MassProps) -> (r: Result<
    (),
    StageError,
>)
    ensures
        match apply_error(old(stage)@, prim@) {
            Some(e) => r == Err::<(), _>(e) && final(stage)@ == old(stage)@,
            None => r is Ok && final(stage)@ == old(stage)@.with_mass(prim@, *props),
        },
{
    apply_one(stage, prim, API_MASS)?;
    proof {
        property_marks();
    }
    define_float(stage, prim, A_MASS, props.mass.narrow());
    let com: [Single; 3] = [
        props.center_of_mass[0].narrow(),
        props.center_of_mass[1].narrow(),
        props.center_of_mass[2].narrow(),
    ];
    stage.define_attribute(prim, A_CENTER_OF_MASS, "point3f", Value::Vec3f(com), false)?;
    let inertia: Value = Value::Vec3f(props.diagonal_inertia);
    stage.define_attribute(prim, A_DIAGONAL_INERTIA, "float3", inertia, false)?;
    let axes: Value = Value::Quatf(props.principal_axes);
    stage.define_attribute(prim, A_PRINCIPAL_AXES, "quatf", axes, false)?;
    Ok(())
}

/// Makes a prim collide.
pub fn apply_collision(stage: &mut StageData, prim: &str) -> (r: Result<(), StageError>)
    ensures
        match apply_error(old(stage)@, prim@) {
            Some(e) => r == Err::<(), _>(e) && final(stage)@ == old(stage)@,
            None => r is Ok && final(stage)@ == old(stage)@.with_schemas(
                prim@,
                seq![API_COLLISION@],
            ),
        },
{
    apply_one(stage, prim, API_COLLISION)
}

impl StageView {
    /// The stage after a mesh has been made to collide.
    pub open spec fn with_mesh_collision(
        self,
        prim: Seq<char>,
        approximation: CollisionApprox,
    ) -> StageView {
        self.with_schemas(prim, seq![API_COLLISION@, API_MESH_COLLISION@]).with_attribute(
            prim,
            A_APPROXIMATION@,
            "token"@,
            ValueView::Token(approximation.token()),
            true,
        )
    }
}

/// Makes a mesh collide as its convex hull.
pub fn apply_mesh_collision_convex_hull(stage: &mut StageData, prim: &str) -> (r: Result<
    (),
    StageError,
>)
    ensures
        match apply_error(old(stage)@, prim@) {
            Some(e) => r == Err::<(), _>(e) && final(stage)@ == old(stage)@,
            None => r is Ok && final(stage)@ == old(stage)@.with_mesh_collision(
                prim@,
                CollisionApprox::ConvexHull,
            ),
        },
{
    apply_two(stage, prim, API_COLLISION, API_MESH_COLLISION)?;
    proof {
        property_marks();
    }
    let token: Value = Value::Token(APPROX_CONVEX_HULL.to_owned());
    stage.define_attribute(prim, A_APPROXIMATION, "token", token, true)
}

/// Makes a mesh collide by an approximation.
pub fn apply_mesh_collision(
    stage: &mut StageData,
    prim: &str,
    approximation: CollisionApprox,
) -> (r: Result<(), StageError>)
    ensures
        match apply_error(old(stage)@, prim@) {
            Some(e) => r == Err::<(), _>(e) && final(stage)@ == old(stage)@,
            None => r is Ok && final(stage)@ == old(stage)@.with_mesh_collision(
                prim@,
                approximation,
            ),
        },
{
    apply_two(stage, prim, API_COLLISION, API_MESH_COLLISION)?;
    proof {
        property_marks();
    }
    let token: Value = Value::Token(approximation.as_token().to_owned());
    stage.define_attribute(prim, A_APPROXIMATION, "token", token, true)
}

impl StageView {
    /// The stage after a physics material has been authored.
    pub open spec fn with_material(
        self,
        prim: Seq<char>,
        static_friction: Option<Single>,
        dynamic_friction: Option<Single>,
        restitution: Option<Single>,
        density: Option<Single>,
    ) -> StageView {
        self.with_schemas(prim, seq![API_PHYSICS_MATERIAL@]).with_optional_float(
            prim,
            A_STATIC_FRICTION@,
            static_friction,
        ).with_optional_float(prim, A_DYNAMIC_FRICTION@, dynamic_friction).with_optional_float(
            prim,
            A_RESTITUTION@,
            restitution,
        ).with_optional_float(prim, A_DENSITY@, density)
    }
}

/// Makes a prim a physics material; what is not given is not authored.
pub fn apply_physics_material(
    stage: &mut StageData,
    prim: &str,
    static_friction: Option<Single>,
    dynamic_friction: Option<Single>,
    restitution: Option<Single>,
    density: Option<Single>,
) -> (r: Result<(), StageError>)
    ensures
        match apply_error(old(stage)@, prim@) {
            Some(e) => r == Err::<(), _>(e) && final(stage)@ == old(stage)@,
            None => r is Ok && final(stage)@ == old(stage)@.with_material(
                prim@,
                static_friction,
                dynamic_friction,
                restitution,
                density,
            ),
        },
{
    apply_one(stage, prim, API_PHYSICS_MATERIAL)?;
    proof {
        property_marks();
    }
    define_optional_float(stage, prim, A_STATIC_FRICTION, static_friction);
    define_optional_float(stage, prim, A_DYNAMIC_FRICTION, dynamic_friction);
    define_optional_float(stage, prim, A_RESTITUTION, restitution);
    define_optional_float(stage, prim, A_DENSITY, density);
    Ok(())
}

/// The bodies that a joint connects, and where it sits on each. The rotations
/// are quaternions with their real part first.
pub struct JointFrame {
    pub body0: Option<String>,
    pub body1: Option<String>,
    pub local_pos0: [Single; 3],
    pub local_rot0: [Single; 4],
    pub local_pos1: [Single; 3],
    pub local_rot1: [Single; 4],
}

impl StageView {
    /// The stage after the frame of a joint has been authored.
    pub open spec fn with_frame(self, joint: Seq<char>, f: JointFrame) -> StageView {
        self.with_optional_target(joint, A_BODY0@, f.body0).with_optional_target(
            joint,
            A_BODY1@,
            f.body1,
        ).with_attribute(
            joint,
            A_LOCAL_POS_0@,
            "point3f"@,
            ValueView::Vec3f(f.local_pos0),
            false,
        ).with_attribute(
            joint,
            A_LOCAL_ROT_0@,
            "quatf"@,
            ValueView::Quatf(f.local_rot0),
            false,
        ).with_attribute(
            joint,
            A_LOCAL_POS_1@,
            "point3f"@,
            ValueView::Vec3f(f.local_pos1),
            false,
        ).with_attribute(
            joint,
            A_LOCAL_ROT_1@,
            "quatf"@,
            ValueView::Quatf(f.local_rot1),
            false,
        )
    }

    /// The stage after a joint has been defined.
    pub open spec fn with_joint(
        self,
        path: Seq<char>,
        kind: Seq<char>,
        frame: JointFrame,
    ) -> StageView {
        self.with_prim(path, kind).with_frame(path, frame)
    }

    /// The stage after the axis of a joint has been authored.
    pub open spec fn with_axis(self, joint: Seq<char>, axis: Seq<char>) -> StageView {
        self.with_attribute(joint, A_AXIS@, "token"@, ValueView::Token(axis), true)
    }

    /// The stage after the limits of a joint have been authored, if there are
    /// any.
    pub open spec fn with_limits(self, joint: Seq<char>, limits: Option<JointLimit>) -> StageView {
        match limits {
            Some(l) => self.with_float(joint, A_LOWER_LIMIT@, l.lower.nearest()).with_float(
                joint,
                A_UPPER_LIMIT@,
                l.upper.nearest(),
            ),
            None => self,
        }
    }
}

/// Authors the bodies and the local frames of a joint.
pub fn author_joint_frame(stage: &mut StageData, joint: &str, f: &JointFrame) -> (r: Result<
    (),
    StageError,
>)
    ensures
        if is_property(joint@) {
            r == Err::<(), _>(StageError::InvalidPath) && final(stage)@ == old(stage)@
        } else {
            r is Ok && final(stage)@ == old(stage)@.with_frame(joint@, *f)
        },
{
    proof {
        property_marks();
    }
    if is_property_path(joint) {
        return Err(StageError::InvalidPath);
    }
    define_optional_target(stage, joint, A_BODY0, &f.body0);
    define_optional_target(stage, joint, A_BODY1, &f.body1);
    stage.define_attribute(joint, A_LOCAL_POS_0, "point3f", Value::Vec3f(f.local_pos0), false)?;
    stage.define_attribute(joint, A_LOCAL_ROT_0, "quatf", Value::Quatf(f.local_rot0), false)?;
    stage.define_attribute(joint, A_LOCAL_POS_1, "point3f", Value::Vec3f(f.local_pos1), false)?;
    stage.define_attribute(joint, A_LOCAL_ROT_1, "quatf", Value::Quatf(f.local_rot1), false)?;
    Ok(())
}

/// Defines a joint of a prim type, with its frame.
fn define_joint(stage: &mut StageData, parent: &str, name: &str, kind: &str, frame: &JointFrame) -> (r:
    Result<String, StageError>)
    ensures
        if !defines_prim(parent@, name@) {
            r == Err::<String, _>(StageError::InvalidPath) && final(stage)@ == old(stage)@
        } else {
            &&& r matches Ok(path) && path@ == child_of(parent@, name@)
            &&& final(stage)@ == old(stage)@.with_joint(
                child_of(parent@, name@),
                kind@,
                *frame,
            )
        },
{
    let path: String = stage.define_prim(parent, name, kind)?;
    author_joint_frame(stage, path.as_str(), frame)?;
    Ok(path)
}

/// Defines a joint that holds two bodies together.
pub fn define_fixed_joint(
    stage: &mut StageData,
    parent: &str,
    name: &str,
    frame: &JointFrame,
) -> (r: Result<String, StageError>)
    ensures
        if !defines_prim(parent@, name@) {
            r == Err::<String, _>(StageError::InvalidPath) && final(stage)@ == old(stage)@
        } else {
            &&& r matches Ok(path) && path@ == child_of(parent@, name@)
            &&& final(stage)@ == old(stage)@.with_joint(
                child_of(parent@, name@),
                T_PHYSICS_FIXED_JOINT@,
                *frame,
            )
        },
{
    define_joint(stage, parent, name, T_PHYSICS_FIXED_JOINT, frame)
}

/// Below this magnitude a component of an axis counts as zero: `1e-6`.
pub const AXIS_TOLERANCE: u64 = 0x3eb0_c6f7_a0b5_ed8d;

/// Whether a component of an axis counts as zero.
pub open spec fn negligible(x: Double) -> bool {
    x.absolute().below(Double { bits: AXIS_TOLERANCE })
}

/// Whether a component of an axis counts.
pub open spec fn significant(x: Double) -> bool {
    (Double { bits: AXIS_TOLERANCE }).below(x.absolute())
}

/// The token of the coordinate axis along a vector; the first one's where the
/// vector is along none.
pub open spec fn axis_of(axis: [Double; 3]) -> Seq<char> {
    if negligible(axis[0]) && negligible(axis[2]) && significant(axis[1]) {
        AXIS_Y@
    } else if negligible(axis[0]) && negligible(axis[1]) && significant(axis[2]) {
        AXIS_Z@
    } else {
        AXIS_X@
    }
}

/// The token of the coordinate axis along a vector.
///
/// A vector along none of them gives the first axis, and the caller turns the
/// local rotation of the joint to where the vector points.
pub fn axis_token(axis: [Double; 3]) -> (r: &'static str)
    ensures
        r@ == axis_of(axis),
{
    let eps: Double = Double { bits: AXIS_TOLERANCE };
    let x: Double = axis[0].abs();
    let y: Double = axis[1].abs();
    let z: Double = axis[2].abs();
    if x.less(eps) && z.less(eps) && eps.less(y) {
        AXIS_Y
    } else if x.less(eps) && y.less(eps) && eps.less(z) {
        AXIS_Z
    } else {
        AXIS_X
    }
}

/// The ends of a joint's range: in scene units for one that slides.
pub struct JointLimit {
    pub lower: Double,
    pub upper: Double,
}

/// The ends of the range of a joint that turns, in degrees, as scenes have them.
pub struct DegreeLimit {
    pub lower: Double,
    pub upper: Double,
}

/// The ends of a range in degrees, as they are authored.
pub open spec fn authored_ends(limits: Option<DegreeLimit>) -> Option<JointLimit> {
    match limits {
        Some(l) => Some(JointLimit { lower: l.lower, upper: l.upper }),
        None => None,
    }
}

/// Authors the limits of a joint, if there are any.
fn author_limits(stage: &mut StageData, joint: &str, limits: &Option<JointLimit>)
    requires
        !is_property(joint@),
    ensures
        final(stage)@ == old(stage)@.with_limits(joint@, *limits),
{
    proof {
        property_marks();
    }
    if let Some(l) = limits {
        define_float(stage, joint, A_LOWER_LIMIT, l.lower.narrow());
        define_float(stage, joint, A_UPPER_LIMIT, l.upper.narrow());
    }
}

/// Defines a joint that turns about an axis, with its limits in degrees.
pub fn define_revolute_joint(
    stage: &mut StageData,
    parent: &str,
    name: &str,
    frame: &JointFrame,
    axis: &str,
    limits: Option<DegreeLimit>,
) -> (r: Result<String, StageError>)
    ensures
        if !defines_prim(parent@, name@) {
            r == Err::<String, _>(StageError::InvalidPath) && final(stage)@ == old(stage)@
        } else {
            let path = child_of(parent@, name@);
            &&& r matches Ok(p) && p@ == path
            &&& final(stage)@ == old(stage)@.with_joint(
                path,
                T_PHYSICS_REVOLUTE_JOINT@,
                *frame,
            ).with_axis(path, axis@).with_limits(path, authored_ends(limits))
        },
{
    let path: String = define_joint(stage, parent, name, T_PHYSICS_REVOLUTE_JOINT, frame)?;
    proof {
        property_marks();
    }
    let axis: Value = Value::Token(axis.to_owned());
    stage.define_attribute(path.as_str(), A_AXIS, "token", axis, true)?;
    let ends: Option<JointLimit> = match limits {
        Some(l) => Some(JointLimit { lower: l.lower, upper: l.upper }),
        None => None,
    };
    author_limits(stage, path.as_str(), &ends);
    Ok(path)
}

/// Defines a joint that slides along an axis.
pub fn define_prismatic_joint(
    stage: &mut StageData,
    parent: &str,
    name: &str,
    frame: &JointFrame,
    axis: &str,
    limits: Option<JointLimit>,
) -> (r: Result<String, StageError>)
    ensures
        if !defines_prim(parent@, name@) {
            r == Err::<String, _>(StageError::InvalidPath) && final(stage)@ == old(stage)@
        } else {
            let path = child_of(parent@, name@);
            &&& r matches Ok(p) && p@ == path
            &&& final(stage)@ == old(stage)@.with_joint(
                path,
                T_PHYSICS_PRISMATIC_JOINT@,
                *frame,
            ).with_axis(path, axis@).with_limits(path, limits)
        },
{
    let path: String = define_joint(stage, parent, name, T_PHYSICS_PRISMATIC_JOINT, frame)?;
    proof {
        property_marks();
    }
    let axis: Value = Value::Token(axis.to_owned());
    stage.define_attribute(path.as_str(), A_AXIS, "token", axis, true)?;
    author_limits(stage, path.as_str(), &limits);
    Ok(path)
}

/// Defines a joint that turns about every axis, inside a cone where one is
/// given (in degrees, `-1.0` being no limit).
pub fn define_spherical_joint(
    stage: &mut StageData,
    parent: &str,
    name: &str,
    frame: &JointFrame,
    axis: &str,
    cone_angle_0: Option<Single>,
    cone_angle_1: Option<Single>,
) -> (r: Result<String, StageError>)
    ensures
        if !defines_prim(parent@, name@) {
            r == Err::<String, _>(StageError::InvalidPath) && final(stage)@ == old(stage)@
        } else {
            let path = child_of(parent@, name@);
            &&& r matches Ok(p) && p@ == path
            &&& final(stage)@ == old(stage)@.with_joint(
                path,
                T_PHYSICS_SPHERICAL_JOINT@,
                *frame,
            ).with_axis(path, axis@).with_optional_float(
                path,
                A_CONE_ANGLE_0_LIMIT@,
                cone_angle_0,
            ).with_optional_float(path, A_CONE_ANGLE_1_LIMIT@, cone_angle_1)
        },
{
    let path: String = define_joint(stage, parent, name, T_PHYSICS_SPHERICAL_JOINT, frame)?;
    proof {
        property_marks();
    }
    let axis: Value = Value::Token(axis.to_owned());
    stage.define_attribute(path.as_str(), A_AXIS, "token", axis, true)?;
    define_optional_float(stage, path.as_str(), A_CONE_ANGLE_0_LIMIT, cone_angle_0);
    define_optional_float(stage, path.as_str(), A_CONE_ANGLE_1_LIMIT, cone_angle_1);
    Ok(path)
}

/// Defines a joint that keeps a distance (in scene units, `-1.0` being no
/// limit).
pub fn define_distance_joint(
    stage: &mut StageData,
    parent: &str,
    name: &str,
    frame: &JointFrame,
    min_distance: Option<Single>,
    max_distance: Option<Single>,
) -> (r: Result<String, StageError>)
    ensures
        if !defines_prim(parent@, name@) {
            r == Err::<String, _>(StageError::InvalidPath) && final(stage)@ == old(stage)@
        } else {
            let path = child_of(parent@, name@);
            &&& r matches Ok(p) && p@ == path
            &&& final(stage)@ == old(stage)@.with_joint(
                path,
                T_PHYSICS_DISTANCE_JOINT@,
                *frame,
            ).with_optional_float(path, A_MIN_DISTANCE@, min_distance).with_optional_float(
                path,
                A_MAX_DISTANCE@,
                max_distance,
            )
        },
{
    let path: String = define_joint(stage, parent, name, T_PHYSICS_DISTANCE_JOINT, frame)?;
    proof {
        property_marks();
    }
    define_optional_float(stage, path.as_str(), A_MIN_DISTANCE, min_distance);
    define_optional_float(stage, path.as_str(), A_MAX_DISTANCE, max_distance);
    Ok(path)
}

/// Defines a joint without an axis or limits of its own. Limits on single
/// degrees of freedom make it what it is meant to be.
pub fn define_generic_joint(
    stage: &mut StageData,
    parent: &str,
    name: &str,
    frame: &JointFrame,
) -> (r: Result<String, StageError>)
    ensures
        if !defines_prim(parent@, name@) {
            r == Err::<String, _>(StageError::InvalidPath) && final(stage)@ == old(stage)@
        } else {
            &&& r matches Ok(path) && path@ == child_of(parent@, name@)
            &&& final(stage)@ == old(stage)@.with_joint(
                child_of(parent@, name@),
                T_PHYSICS_JOINT@,
                *frame,
            )
        },
{
    define_joint(stage, parent, name, T_PHYSICS_JOINT, frame)
}

/// Makes a joint follow another: its position is `offset` plus `multiplier`
/// times that of the other.
pub fn apply_mimic(
    stage: &mut StageData,
    joint: &str,
    target_joint: &str,
    multiplier: Double,
    offset: Double,
) -> (r: Result<(), StageError>)
    ensures
        match apply_error(old(stage)@, joint@) {
            Some(e) => r == Err::<(), _>(e) && final(stage)@ == old(stage)@,
            None => r is Ok && final(stage)@ == old(stage)@.with_schemas(
                joint@,
                seq![API_NEWTON_MIMIC@],
            ).with_float(joint@, A_MIMIC_COEF0@, offset.nearest()).with_float(
                joint@,
                A_MIMIC_COEF1@,
                multiplier.nearest(),
            ).with_relationship(joint@, REL_MIMIC_JOINT@, seq![target_joint@]),
        },
{
    apply_one(stage, joint, API_NEWTON_MIMIC)?;
    proof {
        property_marks();
    }
    define_float(stage, joint, A_MIMIC_COEF0, offset.narrow());
    define_float(stage, joint, A_MIMIC_COEF1, multiplier.narrow());
    let mut list: Vec<String> = Vec::new();
    list.push(target_joint.to_owned());
    assert(texts(list@) =~= seq![target_joint@]);
    stage.define_relationship(joint, REL_MIMIC_JOINT, list)
}

impl StageView {
    /// The stage after a limit on one degree of freedom has been authored.
    pub open spec fn with_dof_limit(
        self,
        joint: Seq<char>,
        dof: Seq<char>,
        lower: Single,
        upper: Single,
    ) -> StageView {
        self.with_schemas(joint, seq![applied_schema(API_LIMIT@, dof)]).with_float(
            joint,
            dof_attribute("limit:"@, dof, LIMIT_SUB_LOW@),
            lower,
        ).with_float(joint, dof_attribute("limit:"@, dof, LIMIT_SUB_HIGH@), upper)
    }

    /// The stage after a drive on one degree of freedom has been authored.
    pub open spec fn with_drive(
        self,
        joint: Seq<char>,
        dof: Seq<char>,
        drive: DriveProps,
    ) -> StageView {
        self.with_schemas(joint, seq![applied_schema(API_DRIVE@, dof)]).with_attribute(
            joint,
            dof_attribute("drive:"@, dof, DRIVE_SUB_TYPE@),
            "token"@,
            ValueView::Token(drive.drive_type.token()),
            true,
        ).with_optional_float(
            joint,
            dof_attribute("drive:"@, dof, DRIVE_SUB_TARGET_POSITION@),
            drive.target_position,
        ).with_optional_float(
            joint,
            dof_attribute("drive:"@, dof, DRIVE_SUB_TARGET_VELOCITY@),
            drive.target_velocity,
        ).with_float(joint, dof_attribute("drive:"@, dof, DRIVE_SUB_DAMPING@), drive.damping).with_float(
            joint,
            dof_attribute("drive:"@, dof, DRIVE_SUB_STIFFNESS@),
            drive.stiffness,
        ).with_optional_float(
            joint,
            dof_attribute("drive:"@, dof, DRIVE_SUB_MAX_FORCE@),
            drive.max_force,
        )
    }
}

/// Limits one degree of freedom of a joint, such as `rotX`. A lower end above
/// the upper one locks it.
pub fn apply_limit(stage: &mut StageData, joint: &str, dof: &str, lower: Double, upper: Double) -> (r:
    Result<(), StageError>)
    ensures
        match apply_error(old(stage)@, joint@) {
            Some(e) => r == Err::<(), _>(e) && final(stage)@ == old(stage)@,
            None => r is Ok && final(stage)@ == old(stage)@.with_dof_limit(
                joint@,
                dof@,
                lower.nearest(),
                upper.nearest(),
            ),
        },
{
    let applied: String = applied_schema_name(API_LIMIT, dof);
    apply_one(stage, joint, applied.as_str())?;
    proof {
        reveal_strlit("limit:");
    }
    let low: String = dof_attribute_name("limit:", dof, LIMIT_SUB_LOW);
    let high: String = dof_attribute_name("limit:", dof, LIMIT_SUB_HIGH);
    define_float(stage, joint, low.as_str(), lower.narrow());
    define_float(stage, joint, high.as_str(), upper.narrow());
    Ok(())
}

/// The drive to author on a degree of freedom.
#[derive(Debug, Clone, Copy)]
pub struct DriveProps {
    pub drive_type: DriveType,
    pub target_position: Option<Single>,
    pub target_velocity: Option<Single>,
    pub damping: Single,
    pub stiffness: Single,
    pub max_force: Option<Single>,
}

impl Default for DriveProps {
    /// A drive by force that does nothing.
    fn default() -> (r: DriveProps)
        ensures
            r == (DriveProps {
                drive_type: DriveType::Force,
                target_position: None,
                target_velocity: None,
                damping: Single { bits: 0 },
                stiffness: Single { bits: 0 },
                max_force: None,
            }),
    {
        DriveProps {
            drive_type: DriveType::Force,
            target_position: None,
            target_velocity: None,
            damping: Single { bits: 0 },
            stiffness: Single { bits: 0 },
            max_force: None,
        }
    }
}

/// Drives one degree of freedom of a joint.
pub fn apply_drive(stage: &mut StageData, joint: &str, dof: &str, drive: &DriveProps) -> (r: Result<
    (),
    StageError,
>)
    ensures
        match apply_error(old(stage)@, joint@) {
            Some(e) => r == Err::<(), _>(e) && final(stage)@ == old(stage)@,
            None => r is Ok && final(stage)@ == old(stage)@.with_drive(joint@, dof@, *drive),
        },
{
    let applied: String = applied_schema_name(API_DRIVE, dof);
    apply_one(stage, joint, applied.as_str())?;
    proof {
        reveal_strlit("drive:");
    }
    let kind: String = dof_attribute_name("drive:", dof, DRIVE_SUB_TYPE);
    let position: String = dof_attribute_name("drive:", dof, DRIVE_SUB_TARGET_POSITION);
    let velocity: String = dof_attribute_name("drive:", dof, DRIVE_SUB_TARGET_VELOCITY);
    let damping: String = dof_attribute_name("drive:", dof, DRIVE_SUB_DAMPING);
    let stiffness: String = dof_attribute_name("drive:", dof, DRIVE_SUB_STIFFNESS);
    let max_force: String = dof_attribute_name("drive:", dof, DRIVE_SUB_MAX_FORCE);
    assert(kind@.len() > 1);
    let token: Value = Value::Token(drive.drive_type.as_token().to_owned());
    stage.define_attribute(joint, kind.as_str(), "token", token, true)?;
    define_optional_float(stage, joint, position.as_str(), drive.target_position);
    define_optional_float(stage, joint, velocity.as_str(), drive.target_velocity);
    define_float(stage, joint, damping.as_str(), drive.damping);
    define_float(stage, joint, stiffness.as_str(), drive.stiffness);
    define_optional_float(stage, joint, max_force.as_str(), drive.max_force);
    Ok(())
}

} // verus!
