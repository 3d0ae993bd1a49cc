//! What is authored reads back.

use crate::attributes::{attribute, to_bool, to_scalar, to_text};
use crate::ieee::Single;
use crate::path::is_property;
use crate::physics::author::{apply_error, DriveProps, JointFrame, JointLimit, MassProps};
use crate::physics::names::{
    applied_schema, applied_schema_names_its_dof, dof_attribute, schema_dof,
};
use crate::physics::read::{
    drive_of, drive_part, drive_readable, drives_of, drives_readable, has_schema, has_type,
    is_joint_type, joint_of, joint_prims, joint_properties_readable, joint_readable, limit_of,
    limit_readable, limits_of, limits_readable, mass_of, mass_readable, material_of,
    material_readable, prims_of_type, prims_with_schema, scene_of, scene_readable, shape_of,
    shape_readable,
};
use crate::physics::types::{
    CollisionApprox, Dof, DriveType, JointKind, ReadCollisionShape, ReadDrive, ReadJoint,
    ReadLimit, ReadMass, ReadPhysicsMaterial, ReadPhysicsScene,
};
use crate::stage::{merged, StageError, StageView};
use crate::stage_laws::{
    attribute_reads_back, fresh, lists_properties, merged_holds_both, prim_reads_back,
    relationship_reads_back, schemas_read_back,
};
use crate::text::text_of;
use crate::tokens::{
    property_marks, API_COLLISION, API_DRIVE, API_LIMIT, API_MASS, API_MESH_COLLISION,
    API_NEWTON_SCENE, API_PHYSICS_MATERIAL, A_APPROXIMATION, A_AXIS, A_BODY0, A_BODY1,
    A_BREAK_FORCE, A_BREAK_TORQUE, A_CENTER_OF_MASS, A_COLLISION_ENABLED, A_CONE_ANGLE_0_LIMIT,
    A_CONE_ANGLE_1_LIMIT, A_DENSITY, A_DIAGONAL_INERTIA, A_DYNAMIC_FRICTION,
    A_EXCLUDE_FROM_ARTICULATION, A_JOINT_COLLISION_ENABLED, A_JOINT_ENABLED, A_LOCAL_POS_0,
    A_LOCAL_POS_1, A_LOCAL_ROT_0, A_LOCAL_ROT_1, A_LOWER_LIMIT, A_MASS, A_MAX_DISTANCE,
    A_MIN_DISTANCE, A_PRINCIPAL_AXES, A_RESTITUTION, A_SIMULATION_OWNER, A_STATIC_FRICTION,
    A_UPPER_LIMIT, DRIVE_SUB_DAMPING, DRIVE_SUB_MAX_FORCE, DRIVE_SUB_STIFFNESS,
    DRIVE_SUB_TARGET_POSITION, DRIVE_SUB_TARGET_VELOCITY, DRIVE_SUB_TYPE, LIMIT_SUB_HIGH,
    LIMIT_SUB_LOW, REL_MATERIAL_BINDING, REL_MATERIAL_BINDING_PHYSICS, T_PHYSICS_SCENE,
};
use crate::value::ValueView;
use vstd::prelude::*;

verus! {

/// The inertia that has been authored on a body is what is read of it: mass and
/// centre narrowed to singles, the rest as it was given. A density authored
/// before stays, and has to be one that can be read.
pub proof fn mass_reads_back(s: StageView, prim: Seq<char>, props: MassProps)
    requires
        apply_error(s, prim) is None,
        lists_properties(s, prim),
        s.attribute(prim, A_DENSITY@) is Ok,
    ensures
        ({
            let t = s.with_mass(prim, props);
            let com = props.center_of_mass;
            &&& t.api_schemas(prim) is Ok
            &&& has_schema(t, prim, API_MASS@)
            &&& mass_readable(t, prim)
            &&& forall|m: ReadMass| #[trigger]
                mass_of(t, prim, m) ==> {
                    &&& m.mass == Some(props.mass.nearest())
                    &&& m.center_of_mass == Some(
                        [com[0].nearest(), com[1].nearest(), com[2].nearest()],
                    )
                    &&& m.diagonal_inertia == Some(props.diagonal_inertia)
                    &&& m.principal_axes == Some(props.principal_axes)
                    &&& m.density == to_scalar(attribute(s, prim, A_DENSITY@))
                }
        }),
{
    property_marks();
    let com = props.center_of_mass;
    let centre = ValueView::Vec3f([com[0].nearest(), com[1].nearest(), com[2].nearest()]);
    let inertia = ValueView::Vec3f(props.diagonal_inertia);
    let axes = ValueView::Quatf(props.principal_axes);
    let s1 = s.with_schemas(prim, seq![API_MASS@]);
    let s2 = s1.with_float(prim, A_MASS@, props.mass.nearest());
    let s3 = s2.with_attribute(prim, A_CENTER_OF_MASS@, "point3f"@, centre, false);
    let s4 = s3.with_attribute(prim, A_DIAGONAL_INERTIA@, "float3"@, inertia, false);
    lemma_applies(s, prim, API_MASS@);
    attribute_reads_back(
        s1,
        prim,
        A_MASS@,
        "float"@,
        ValueView::Float(props.mass.nearest()),
        false,
    );
    attribute_reads_back(s2, prim, A_CENTER_OF_MASS@, "point3f"@, centre, false);
    attribute_reads_back(s3, prim, A_DIAGONAL_INERTIA@, "float3"@, inertia, false);
    attribute_reads_back(s4, prim, A_PRINCIPAL_AXES@, "quatf"@, axes, false);
}

/// A schema that has been applied is there, and nothing else about the prim has
/// changed.
proof fn lemma_applies(s: StageView, prim: Seq<char>, schema: Seq<char>)
    requires
        s.api_schemas(prim) is Ok,
    ensures
        s.with_schemas(prim, seq![schema]).api_schemas(prim) is Ok,
        has_schema(s.with_schemas(prim, seq![schema]), prim, schema),
        forall|name: Seq<char>| #[trigger]
            s.with_schemas(prim, seq![schema]).attribute(prim, name) == s.attribute(prim, name),
        forall|name: Seq<char>| #[trigger]
            s.with_schemas(prim, seq![schema]).targets(prim, name) == s.targets(prim, name),
        s.with_schemas(prim, seq![schema]).prim_type(prim) == s.prim_type(prim),
        lists_properties(s.with_schemas(prim, seq![schema]), prim) == lists_properties(s, prim),
{
    schemas_read_back(s, prim, seq![schema]);
    merged_holds_both(s.api_schemas(prim)->Ok_0, seq![schema]);
    assert(seq![schema][0] == schema);
}

/// A physics material that has been authored is what is read of it; a value
/// that is not given stays what it was, and has to be one that can be read.
pub proof fn material_reads_back(
    s: StageView,
    prim: Seq<char>,
    static_friction: Option<Single>,
    dynamic_friction: Option<Single>,
    restitution: Option<Single>,
    density: Option<Single>,
)
    requires
        apply_error(s, prim) is None,
        lists_properties(s, prim),
        static_friction is None ==> s.attribute(prim, A_STATIC_FRICTION@) is Ok,
        dynamic_friction is None ==> s.attribute(prim, A_DYNAMIC_FRICTION@) is Ok,
        restitution is None ==> s.attribute(prim, A_RESTITUTION@) is Ok,
        density is None ==> s.attribute(prim, A_DENSITY@) is Ok,
    ensures
        ({
            let t = s.with_material(prim, static_friction, dynamic_friction, restitution, density);
            &&& t.api_schemas(prim) is Ok
            &&& has_schema(t, prim, API_PHYSICS_MATERIAL@)
            &&& material_readable(t, prim)
            &&& forall|m: ReadPhysicsMaterial| #[trigger]
                material_of(t, prim, m) ==> {
                    &&& m.static_friction == given_or(static_friction, s, prim, A_STATIC_FRICTION@)
                    &&& m.dynamic_friction == given_or(
                        dynamic_friction,
                        s,
                        prim,
                        A_DYNAMIC_FRICTION@,
                    )
                    &&& m.restitution == given_or(restitution, s, prim, A_RESTITUTION@)
                    &&& m.density == given_or(density, s, prim, A_DENSITY@)
                }
        }),
{
    property_marks();
    let s1 = s.with_schemas(prim, seq![API_PHYSICS_MATERIAL@]);
    let s2 = s1.with_optional_float(prim, A_STATIC_FRICTION@, static_friction);
    let s3 = s2.with_optional_float(prim, A_DYNAMIC_FRICTION@, dynamic_friction);
    let s4 = s3.with_optional_float(prim, A_RESTITUTION@, restitution);
    lemma_applies(s, prim, API_PHYSICS_MATERIAL@);
    lemma_optional_float(s1, prim, A_STATIC_FRICTION@, static_friction);
    lemma_optional_float(s2, prim, A_DYNAMIC_FRICTION@, dynamic_friction);
    lemma_optional_float(s3, prim, A_RESTITUTION@, restitution);
    lemma_optional_float(s4, prim, A_DENSITY@, density);
}

/// A number that is given, or the one that is authored already.
pub open spec fn given_or(
    x: Option<Single>,
    s: StageView,
    prim: Seq<char>,
    name: Seq<char>,
) -> Option<Single> {
    match x {
        Some(_) => x,
        None => to_scalar(attribute(s, prim, name)),
    }
}

/// A number that has been authored reads back, and nothing else about the prim
/// changes.
proof fn lemma_optional_float(s: StageView, prim: Seq<char>, name: Seq<char>, x: Option<Single>)
    requires
        !is_property(prim),
        name.len() > 1,
        lists_properties(s, prim),
    ensures
        ({
            let t = s.with_optional_float(prim, name, x);
            &&& to_scalar(attribute(t, prim, name)) == given_or(x, s, prim, name)
            &&& x is Some ==> t.attribute(prim, name) is Ok
            &&& forall|other: Seq<char>|
                other != name ==> #[trigger] t.attribute(prim, other) == s.attribute(prim, other)
            &&& forall|other: Seq<char>| #[trigger]
                t.targets(prim, other) == s.targets(prim, other)
            &&& t.prim_type(prim) == s.prim_type(prim)
            &&& t.api_schemas(prim) == s.api_schemas(prim)
            &&& lists_properties(t, prim)
            &&& x is None ==> t == s
        }),
{
    if let Some(v) = x {
        attribute_reads_back(s, prim, name, "float"@, ValueView::Float(v), false);
    }
}

/// A mesh that has been made to collide by an approximation is read as
/// colliding by it, as long as what else there is to its collision can be read.
pub proof fn mesh_collision_reads_back(
    s: StageView,
    prim: Seq<char>,
    approximation: CollisionApprox,
)
    requires
        apply_error(s, prim) is None,
        lists_properties(s, prim),
        s.attribute(prim, A_COLLISION_ENABLED@) is Ok,
        s.targets(prim, A_SIMULATION_OWNER@) is Ok,
        s.targets(prim, REL_MATERIAL_BINDING_PHYSICS@) is Ok,
        s.targets(prim, REL_MATERIAL_BINDING@) is Ok,
    ensures
        ({
            let t = s.with_mesh_collision(prim, approximation);
            &&& t.api_schemas(prim) is Ok
            &&& has_schema(t, prim, API_COLLISION@)
            &&& shape_readable(t, prim)
            &&& forall|shape: ReadCollisionShape| #[trigger]
                shape_of(t, prim, shape) ==> shape.has_mesh_collision_api && shape.approximation
                    == Some(approximation)
        }),
{
    property_marks();
    let both = seq![API_COLLISION@, API_MESH_COLLISION@];
    let s1 = s.with_schemas(prim, both);
    schemas_read_back(s, prim, both);
    merged_holds_both(s.api_schemas(prim)->Ok_0, both);
    assert(both[0] == API_COLLISION@ && both[1] == API_MESH_COLLISION@);
    let token = ValueView::Token(approximation.token());
    attribute_reads_back(s1, prim, A_APPROXIMATION@, "token"@, token, true);
    CollisionApprox::tokens_are_distinct(approximation, approximation);
}

/// A scene that has been defined is listed and read as one, with the gravity that
/// was authored there before; without any, it has no opinion on gravity.
pub proof fn scene_reads_back(s: StageView, path: Seq<char>)
    requires
        !is_property(path),
        s.api_schemas(path) is Ok,
        scene_readable(s, path),
    ensures
        ({
            let t = s.with_prim(path, T_PHYSICS_SCENE@).with_schemas(
                path,
                seq![API_NEWTON_SCENE@],
            );
            &&& prims_of_type(t, T_PHYSICS_SCENE@).contains(path)
            &&& t.api_schemas(path) == Ok::<Seq<Seq<char>>, StageError>(
                merged(s.api_schemas(path)->Ok_0, seq![API_NEWTON_SCENE@]),
            )
            &&& scene_readable(t, path)
            &&& forall|scene: ReadPhysicsScene| #[trigger]
                scene_of(t, path, scene) == scene_of(s, path, scene)
        }),
{
    let defined = s.with_prim(path, T_PHYSICS_SCENE@);
    let t = defined.with_schemas(path, seq![API_NEWTON_SCENE@]);
    prim_reads_back(s, path, T_PHYSICS_SCENE@);
    schemas_read_back(defined, path, seq![API_NEWTON_SCENE@]);
    type_lists_its_prims(t, T_PHYSICS_SCENE@, path);
}

/// The prims found to be of a type are those that are listed and have it.
pub proof fn type_lists_its_prims(s: StageView, kind: Seq<char>, path: Seq<char>)
    ensures
        prims_of_type(s, kind).contains(path) <==> s.prims.contains(path) && has_type(
            s,
            path,
            kind,
        ),
{
    let keep = |p: Seq<char>| has_type(s, p, kind);
    lemma_filter_holds(s.prims, keep, path);
}

/// The prims found to have a schema are those that are listed and have it.
pub proof fn schema_lists_its_prims(s: StageView, schema: Seq<char>, path: Seq<char>)
    ensures
        prims_with_schema(s, schema).contains(path) <==> s.prims.contains(path) && s.api_schemas(
            path,
        ) is Ok && has_schema(s, path, schema),
{
    let keep = |p: Seq<char>| s.api_schemas(p) is Ok && has_schema(s, p, schema);
    lemma_filter_holds(s.prims, keep, path);
}

/// The prims found to be joints are those that are listed and that reading
/// takes for joints.
pub proof fn joints_are_what_reads_as_joints(s: StageView, path: Seq<char>)
    ensures
        joint_prims(s).contains(path) <==> s.prims.contains(path) && (s.prim_type(
            path,
        ) matches Ok(kind) && is_joint_type(kind)),
{
    let keep = |p: Seq<char>| s.prim_type(p) matches Ok(kind) && is_joint_type(kind);
    lemma_filter_holds(s.prims, keep, path);
}

/// A filtered list holds what the list holds and the filter keeps.
proof fn lemma_filter_holds(
    list: Seq<Seq<char>>,
    keep: spec_fn(Seq<char>) -> bool,
    e: Seq<char>,
)
    ensures
        list.filter(keep).contains(e) <==> list.contains(e) && keep(e),
    decreases list.len(),
{
    reveal(Seq::filter);
    if list.len() > 0 {
        let front = list.drop_last();
        let kept = front.filter(keep);
        lemma_filter_holds(front, keep, e);
        if list.contains(e) {
            let i = choose|i: int| 0 <= i < list.len() && list[i] == e;
            if i < list.len() - 1 {
                assert(front[i] == e);
            }
        }
        if front.contains(e) {
            let i = choose|i: int| 0 <= i < front.len() && front[i] == e;
            assert(list[i] == e);
        }
        if keep(list.last()) {
            if kept.contains(e) {
                let i = choose|i: int| 0 <= i < kept.len() && kept[i] == e;
                assert(kept.push(list.last())[i] == e);
            }
            assert(kept.push(list.last()).last() == list.last());
            if kept.push(list.last()).contains(e) {
                let i = choose|i: int|
                    0 <= i < kept.len() + 1 && kept.push(list.last())[i] == e;
                if i < kept.len() {
                    assert(kept[i] == e);
                }
            }
        }
        if e == list.last() {
            assert(list[list.len() - 1] == e);
        }
    }
}

/// Whether a joint has the bodies and the frames that were given.
pub open spec fn has_frame(j: ReadJoint, frame: JointFrame) -> bool {
    &&& text_of(j.body0) == text_of(frame.body0)
    &&& text_of(j.body1) == text_of(frame.body1)
    &&& j.local_pos0 == frame.local_pos0
    &&& j.local_rot0 == frame.local_rot0
    &&& j.local_pos1 == frame.local_pos1
    &&& j.local_rot1 == frame.local_rot1
}

/// What the definition of a joint may author besides its frame.
pub ghost struct JointParts {
    pub axis: Option<Seq<char>>,
    pub limits: Option<JointLimit>,
    pub cone_angle_0: Option<Single>,
    pub cone_angle_1: Option<Single>,
    pub min_distance: Option<Single>,
    pub max_distance: Option<Single>,
}

impl JointParts {
    /// Nothing besides the frame.
    pub open spec fn none() -> JointParts {
        JointParts {
            axis: None,
            limits: None,
            cone_angle_0: None,
            cone_angle_1: None,
            min_distance: None,
            max_distance: None,
        }
    }

    /// Whether the definition authors an attribute.
    pub open spec fn writes(self, name: Seq<char>) -> bool {
        ||| self.axis is Some && name == A_AXIS@
        ||| self.limits is Some && (name == A_LOWER_LIMIT@ || name == A_UPPER_LIMIT@)
        ||| self.cone_angle_0 is Some && name == A_CONE_ANGLE_0_LIMIT@
        ||| self.cone_angle_1 is Some && name == A_CONE_ANGLE_1_LIMIT@
        ||| self.min_distance is Some && name == A_MIN_DISTANCE@
        ||| self.max_distance is Some && name == A_MAX_DISTANCE@
    }
}

impl StageView {
    /// The stage after a joint has been defined with a frame and more.
    pub open spec fn with_parts(
        self,
        path: Seq<char>,
        kind: JointKind,
        frame: JointFrame,
        parts: JointParts,
    ) -> StageView {
        let framed = self.with_joint(path, kind.prim_type(), frame);
        let turned = match parts.axis {
            Some(axis) => framed.with_axis(path, axis),
            None => framed,
        };
        turned.with_limits(path, parts.limits).with_optional_float(
            path,
            A_CONE_ANGLE_0_LIMIT@,
            parts.cone_angle_0,
        ).with_optional_float(path, A_CONE_ANGLE_1_LIMIT@, parts.cone_angle_1).with_optional_float(
            path,
            A_MIN_DISTANCE@,
            parts.min_distance,
        ).with_optional_float(path, A_MAX_DISTANCE@, parts.max_distance)
    }
}

/// Whether an attribute is one that a joint may have besides its frame.
pub open spec fn is_joint_attribute(name: Seq<char>) -> bool {
    ||| name == A_AXIS@
    ||| name == A_LOWER_LIMIT@
    ||| name == A_UPPER_LIMIT@
    ||| name == A_JOINT_COLLISION_ENABLED@
    ||| name == A_JOINT_ENABLED@
    ||| name == A_EXCLUDE_FROM_ARTICULATION@
    ||| name == A_BREAK_FORCE@
    ||| name == A_BREAK_TORQUE@
    ||| name == A_MIN_DISTANCE@
    ||| name == A_MAX_DISTANCE@
    ||| name == A_CONE_ANGLE_0_LIMIT@
    ||| name == A_CONE_ANGLE_1_LIMIT@
}

/// Whether what is there of a joint, and stays when it is defined, can be read.
pub open spec fn rest_readable(s: StageView, path: Seq<char>, parts: JointParts) -> bool {
    &&& lists_properties(s, path)
    &&& forall|name: Seq<char>| #[trigger]
        is_joint_attribute(name) && !parts.writes(name) ==> s.attribute(path, name) is Ok
    &&& s.api_schemas(path) matches Ok(list) && limits_readable(s, path, list) && drives_readable(
        s,
        path,
        list,
    )
}

/// Whether a frame names a body, or none has been named before.
pub open spec fn names_body(
    s: StageView,
    path: Seq<char>,
    name: Seq<char>,
    body: Option<String>,
) -> bool {
    body is None ==> s.targets(path, name) == Ok::<Seq<Seq<char>>, StageError>(seq![])
}

/// A part that is given, or the one that is authored already.
pub open spec fn text_given_or(
    x: Option<Seq<char>>,
    s: StageView,
    prim: Seq<char>,
    name: Seq<char>,
) -> Option<Seq<char>> {
    match x {
        Some(_) => x,
        None => to_text(attribute(s, prim, name)),
    }
}

/// Whether a joint has the parts that were given, and otherwise those that were
/// authored before.
pub open spec fn has_parts(
    j: ReadJoint,
    s: StageView,
    path: Seq<char>,
    parts: JointParts,
) -> bool {
    let lower = match parts.limits {
        Some(l) => Some(l.lower.nearest()),
        None => None,
    };
    let upper = match parts.limits {
        Some(l) => Some(l.upper.nearest()),
        None => None,
    };
    &&& text_of(j.axis) == text_given_or(parts.axis, s, path, A_AXIS@)
    &&& j.lower_limit == given_or(lower, s, path, A_LOWER_LIMIT@)
    &&& j.upper_limit == given_or(upper, s, path, A_UPPER_LIMIT@)
    &&& j.cone_angle_0 == given_or(parts.cone_angle_0, s, path, A_CONE_ANGLE_0_LIMIT@)
    &&& j.cone_angle_1 == given_or(parts.cone_angle_1, s, path, A_CONE_ANGLE_1_LIMIT@)
    &&& j.min_distance == given_or(parts.min_distance, s, path, A_MIN_DISTANCE@)
    &&& j.max_distance == given_or(parts.max_distance, s, path, A_MAX_DISTANCE@)
}

/// Whether a joint has what was authored before of all that no definition
/// authors.
pub open spec fn keeps_rest(j: ReadJoint, s: StageView, path: Seq<char>) -> bool {
    &&& j.collision_enabled == (to_bool(attribute(s, path, A_JOINT_COLLISION_ENABLED@)) == Some(
        true,
    ))
    &&& j.joint_enabled == (to_bool(attribute(s, path, A_JOINT_ENABLED@)) != Some(false))
    &&& j.exclude_from_articulation == (to_bool(
        attribute(s, path, A_EXCLUDE_FROM_ARTICULATION@),
    ) == Some(true))
    &&& j.break_force == to_scalar(attribute(s, path, A_BREAK_FORCE@))
    &&& j.break_torque == to_scalar(attribute(s, path, A_BREAK_TORQUE@))
    &&& j.limits@ == limits_of(s, path, s.api_schemas(path)->Ok_0)
    &&& j.drives@ == drives_of(s, path, s.api_schemas(path)->Ok_0)
}

/// Whether a joint that has been defined over what `s` holds is found, can be
/// read, and is read as what was given, and otherwise as what was there.
pub open spec fn joint_is_read(
    t: StageView,
    s: StageView,
    path: Seq<char>,
    kind: JointKind,
    frame: JointFrame,
    parts: JointParts,
) -> bool {
    &&& joint_prims(t).contains(path)
    &&& t.prim_type(path) == Ok::<Option<Seq<char>>, StageError>(Some(kind.prim_type()))
    &&& joint_readable(t, path)
    &&& forall|j: ReadJoint| #[trigger]
        joint_of(t, path, j) ==> {
            &&& j.kind == kind
            &&& has_frame(j, frame)
            &&& has_parts(j, s, path, parts)
            &&& keeps_rest(j, s, path)
        }
}

/// Whether an attribute of a joint is none of those that its frame is made of.
spec fn not_of_frame(name: Seq<char>) -> bool {
    &&& name.len() > 1
    &&& name != A_LOCAL_POS_0@
    &&& name != A_LOCAL_POS_1@
    &&& name != A_LOCAL_ROT_0@
    &&& name != A_LOCAL_ROT_1@
}

/// What is read of a relationship to one target, or to what was there.
spec fn target_or(
    target: Option<String>,
    s: StageView,
    prim: Seq<char>,
    name: Seq<char>,
) -> Result<Seq<Seq<char>>, StageError> {
    match target {
        Some(t) => Ok(seq![t@]),
        None => s.targets(prim, name),
    }
}

/// What reading a joint that has just been defined gives.
spec fn reads_frame(
    t: StageView,
    s: StageView,
    path: Seq<char>,
    kind: Seq<char>,
    frame: JointFrame,
) -> bool {
    &&& t.prims.contains(path)
    &&& t.prim_type(path) == Ok::<Option<Seq<char>>, StageError>(Some(kind))
    &&& t.api_schemas(path) == s.api_schemas(path)
    &&& lists_properties(t, path)
    &&& t.targets(path, A_BODY0@) == target_or(frame.body0, s, path, A_BODY0@)
    &&& t.targets(path, A_BODY1@) == target_or(frame.body1, s, path, A_BODY1@)
    &&& t.attribute(path, A_LOCAL_POS_0@) == Ok::<_, StageError>(
        Some(ValueView::Vec3f(frame.local_pos0)),
    )
    &&& t.attribute(path, A_LOCAL_POS_1@) == Ok::<_, StageError>(
        Some(ValueView::Vec3f(frame.local_pos1)),
    )
    &&& t.attribute(path, A_LOCAL_ROT_0@) == Ok::<_, StageError>(
        Some(ValueView::Quatf(frame.local_rot0)),
    )
    &&& t.attribute(path, A_LOCAL_ROT_1@) == Ok::<_, StageError>(
        Some(ValueView::Quatf(frame.local_rot1)),
    )
}

/// A relationship to one target, or none, reads back.
proof fn lemma_optional_target(
    s: StageView,
    prim: Seq<char>,
    name: Seq<char>,
    target: Option<String>,
)
    requires
        !is_property(prim),
        name.len() > 1,
        lists_properties(s, prim),
    ensures
        ({
            let t = s.with_optional_target(prim, name, target);
            &&& t.targets(prim, name) == target_or(target, s, prim, name)
            &&& forall|other: Seq<char>|
                other != name ==> #[trigger] t.targets(prim, other) == s.targets(prim, other)
            &&& forall|other: Seq<char>| #[trigger]
                t.attribute(prim, other) == s.attribute(prim, other)
            &&& t.prim_type(prim) == s.prim_type(prim)
            &&& t.api_schemas(prim) == s.api_schemas(prim)
            &&& lists_properties(t, prim)
            &&& t.prims == s.prims
        }),
{
    if let Some(p) = target {
        relationship_reads_back(s, prim, name, seq![p@]);
    }
}

/// The frame of a joint that has been defined reads back, and nothing else about
/// the prim changes.
proof fn lemma_joint_frame(s: StageView, path: Seq<char>, kind: Seq<char>, frame: JointFrame)
    requires
        lists_properties(s, path),
        !is_property(path),
    ensures
        reads_frame(s.with_joint(path, kind, frame), s, path, kind, frame),
        forall|name: Seq<char>|
            not_of_frame(name) ==> #[trigger] s.with_joint(path, kind, frame).attribute(path, name)
                == s.attribute(path, name),
{
    property_marks();
    let s1 = s.with_prim(path, kind);
    let s2 = s1.with_optional_target(path, A_BODY0@, frame.body0);
    let s3 = s2.with_optional_target(path, A_BODY1@, frame.body1);
    let pos0 = ValueView::Vec3f(frame.local_pos0);
    let rot0 = ValueView::Quatf(frame.local_rot0);
    let pos1 = ValueView::Vec3f(frame.local_pos1);
    let rot1 = ValueView::Quatf(frame.local_rot1);
    let s4 = s3.with_attribute(path, A_LOCAL_POS_0@, "point3f"@, pos0, false);
    let s5 = s4.with_attribute(path, A_LOCAL_ROT_0@, "quatf"@, rot0, false);
    let s6 = s5.with_attribute(path, A_LOCAL_POS_1@, "point3f"@, pos1, false);
    prim_reads_back(s, path, kind);
    lemma_optional_target(s1, path, A_BODY0@, frame.body0);
    lemma_optional_target(s2, path, A_BODY1@, frame.body1);
    attribute_reads_back(s3, path, A_LOCAL_POS_0@, "point3f"@, pos0, false);
    attribute_reads_back(s4, path, A_LOCAL_ROT_0@, "quatf"@, rot0, false);
    attribute_reads_back(s5, path, A_LOCAL_POS_1@, "point3f"@, pos1, false);
    attribute_reads_back(s6, path, A_LOCAL_ROT_1@, "quatf"@, rot1, false);
}

/// The limits that are read are the same where their attributes are.
proof fn lemma_same_limits(s: StageView, t: StageView, prim: Seq<char>, list: Seq<Seq<char>>)
    requires
        forall|dof: Dof, part: Seq<char>| #[trigger]
            t.attribute(prim, dof_attribute("limit:"@, dof.token(), part)) == s.attribute(
                prim,
                dof_attribute("limit:"@, dof.token(), part),
            ),
    ensures
        limits_of(t, prim, list) == limits_of(s, prim, list),
        limits_readable(t, prim, list) == limits_readable(s, prim, list),
    decreases list.len(),
{
    assert forall|dof: Dof| #[trigger] limit_readable(t, prim, dof) == limit_readable(
        s,
        prim,
        dof,
    ) by {}
    if list.len() > 0 {
        lemma_same_limits(s, t, prim, list.drop_last());
    }
}

/// The drives that are read are the same where their attributes are.
proof fn lemma_same_drives(s: StageView, t: StageView, prim: Seq<char>, list: Seq<Seq<char>>)
    requires
        forall|dof: Dof, part: Seq<char>| #[trigger]
            t.attribute(prim, dof_attribute("drive:"@, dof.token(), part)) == s.attribute(
                prim,
                dof_attribute("drive:"@, dof.token(), part),
            ),
    ensures
        drives_of(t, prim, list) == drives_of(s, prim, list),
        drives_readable(t, prim, list) == drives_readable(s, prim, list),
    decreases list.len(),
{
    assert forall|dof: Dof| #[trigger] drive_readable(t, prim, dof) == drive_readable(
        s,
        prim,
        dof,
    ) by {}
    assert forall|dof: Dof| #[trigger] drive_of(t, prim, dof) == drive_of(s, prim, dof) by {}
    if list.len() > 0 {
        lemma_same_drives(s, t, prim, list.drop_last());
    }
}

/// A joint that has been defined over whatever was there is found, can be read,
/// and reads back: its kind, its frame and its parts as they were given, and
/// everything else as it was. Limits with the lower end above the upper one stay
/// so. Where the frame names no body, none may have been named before.
pub proof fn joint_reads_back(
    s: StageView,
    path: Seq<char>,
    kind: JointKind,
    frame: JointFrame,
    parts: JointParts,
)
    requires
        !is_property(path),
        rest_readable(s, path, parts),
        names_body(s, path, A_BODY0@, frame.body0),
        names_body(s, path, A_BODY1@, frame.body1),
    ensures
        joint_is_read(s.with_parts(path, kind, frame, parts), s, path, kind, frame, parts),
{
    property_marks();
    let t = s.with_parts(path, kind, frame, parts);
    lemma_parts(s, path, kind, frame, parts);
    let list = s.api_schemas(path)->Ok_0;
    reveal_strlit("limit:");
    reveal_strlit("drive:");
    assert forall|dof: Dof, part: Seq<char>| #[trigger]
        t.attribute(path, dof_attribute("limit:"@, dof.token(), part)) == s.attribute(
            path,
            dof_attribute("limit:"@, dof.token(), part),
        ) by {
        assert(dof_attribute("limit:"@, dof.token(), part)[0] == 'l');
    }
    assert forall|dof: Dof, part: Seq<char>| #[trigger]
        t.attribute(path, dof_attribute("drive:"@, dof.token(), part)) == s.attribute(
            path,
            dof_attribute("drive:"@, dof.token(), part),
        ) by {
        assert(dof_attribute("drive:"@, dof.token(), part)[0] == 'd');
    }
    lemma_same_limits(s, t, path, list);
    lemma_same_drives(s, t, path, list);
    assert(joint_properties_readable(t, path)) by {
        assert forall|name: Seq<char>| is_joint_attribute(name) implies #[trigger] t.attribute(
            path,
            name,
        ) is Ok by {}
        assert(is_joint_attribute(A_AXIS@));
        assert(is_joint_attribute(A_LOWER_LIMIT@));
        assert(is_joint_attribute(A_JOINT_COLLISION_ENABLED@));
    }
    JointKind::prim_types_are_distinct(kind, kind);
    joints_are_what_reads_as_joints(t, path);
    assert forall|j: ReadJoint| #[trigger] joint_of(t, path, j) implies {
        &&& j.kind == kind
        &&& has_frame(j, frame)
        &&& has_parts(j, s, path, parts)
        &&& keeps_rest(j, s, path)
    } by {
        JointKind::prim_types_are_distinct(kind, j.kind);
    }
}

/// What reading a joint that has just been defined with some parts gives.
spec fn reads_parts(t: StageView, s: StageView, path: Seq<char>, parts: JointParts) -> bool {
    &&& parts.axis matches Some(axis) ==> t.attribute(path, A_AXIS@) == Ok::<_, StageError>(
        Some(ValueView::Token(axis)),
    )
    &&& parts.limits matches Some(l) ==> {
        &&& t.attribute(path, A_LOWER_LIMIT@) == Ok::<_, StageError>(
            Some(ValueView::Float(l.lower.nearest())),
        )
        &&& t.attribute(path, A_UPPER_LIMIT@) == Ok::<_, StageError>(
            Some(ValueView::Float(l.upper.nearest())),
        )
    }
    &&& parts.cone_angle_0 matches Some(x) ==> t.attribute(path, A_CONE_ANGLE_0_LIMIT@) == Ok::<
        _,
        StageError,
    >(Some(ValueView::Float(x)))
    &&& parts.cone_angle_1 matches Some(x) ==> t.attribute(path, A_CONE_ANGLE_1_LIMIT@) == Ok::<
        _,
        StageError,
    >(Some(ValueView::Float(x)))
    &&& parts.min_distance matches Some(x) ==> t.attribute(path, A_MIN_DISTANCE@) == Ok::<
        _,
        StageError,
    >(Some(ValueView::Float(x)))
    &&& parts.max_distance matches Some(x) ==> t.attribute(path, A_MAX_DISTANCE@) == Ok::<
        _,
        StageError,
    >(Some(ValueView::Float(x)))
    &&& forall|name: Seq<char>|
        not_of_frame(name) && !parts.writes(name) ==> #[trigger] t.attribute(path, name)
            == s.attribute(path, name)
}

/// A number that has been authored, or not, reads back, and nothing else about the
/// prim changes.
proof fn lemma_number(s: StageView, prim: Seq<char>, name: Seq<char>, x: Option<Single>)
    requires
        !is_property(prim),
        name.len() > 1,
        lists_properties(s, prim),
    ensures
        ({
            let t = s.with_optional_float(prim, name, x);
            &&& x matches Some(v) ==> t.attribute(prim, name) == Ok::<_, StageError>(
                Some(ValueView::Float(v)),
            )
            &&& x is None ==> t == s
            &&& forall|other: Seq<char>|
                other != name ==> #[trigger] t.attribute(prim, other) == s.attribute(prim, other)
            &&& forall|other: Seq<char>| #[trigger]
                t.targets(prim, other) == s.targets(prim, other)
            &&& t.prim_type(prim) == s.prim_type(prim)
            &&& t.api_schemas(prim) == s.api_schemas(prim)
            &&& lists_properties(t, prim)
            &&& t.prims == s.prims
        }),
{
    if let Some(v) = x {
        attribute_reads_back(s, prim, name, "float"@, ValueView::Float(v), false);
    }
}

/// The frame and the parts of a joint that has been defined read back, and nothing
/// else about the prim changes.
proof fn lemma_parts(
    s: StageView,
    path: Seq<char>,
    kind: JointKind,
    frame: JointFrame,
    parts: JointParts,
)
    requires
        lists_properties(s, path),
        !is_property(path),
    ensures
        reads_frame(s.with_parts(path, kind, frame, parts), s, path, kind.prim_type(), frame),
        reads_parts(s.with_parts(path, kind, frame, parts), s, path, parts),
{
    property_marks();
    let s1 = s.with_joint(path, kind.prim_type(), frame);
    let s2 = match parts.axis {
        Some(axis) => s1.with_axis(path, axis),
        None => s1,
    };
    let lower = match parts.limits {
        Some(l) => Some(l.lower.nearest()),
        None => None,
    };
    let upper = match parts.limits {
        Some(l) => Some(l.upper.nearest()),
        None => None,
    };
    let s3 = s2.with_optional_float(path, A_LOWER_LIMIT@, lower);
    let s4 = s3.with_optional_float(path, A_UPPER_LIMIT@, upper);
    let s5 = s4.with_optional_float(path, A_CONE_ANGLE_0_LIMIT@, parts.cone_angle_0);
    let s6 = s5.with_optional_float(path, A_CONE_ANGLE_1_LIMIT@, parts.cone_angle_1);
    let s7 = s6.with_optional_float(path, A_MIN_DISTANCE@, parts.min_distance);
    lemma_joint_frame(s, path, kind.prim_type(), frame);
    if let Some(axis) = parts.axis {
        attribute_reads_back(s1, path, A_AXIS@, "token"@, ValueView::Token(axis), true);
    }
    assert(s4 == s2.with_limits(path, parts.limits));
    lemma_number(s2, path, A_LOWER_LIMIT@, lower);
    lemma_number(s3, path, A_UPPER_LIMIT@, upper);
    lemma_number(s4, path, A_CONE_ANGLE_0_LIMIT@, parts.cone_angle_0);
    lemma_number(s5, path, A_CONE_ANGLE_1_LIMIT@, parts.cone_angle_1);
    lemma_number(s6, path, A_MIN_DISTANCE@, parts.min_distance);
    lemma_number(s7, path, A_MAX_DISTANCE@, parts.max_distance);
}

/// A fixed joint that has been defined reads back.
pub proof fn fixed_joint_reads_back(s: StageView, path: Seq<char>, frame: JointFrame)
    requires
        !is_property(path),
        rest_readable(s, path, JointParts::none()),
        names_body(s, path, A_BODY0@, frame.body0),
        names_body(s, path, A_BODY1@, frame.body1),
    ensures
        joint_is_read(
            s.with_joint(path, JointKind::Fixed.prim_type(), frame),
            s,
            path,
            JointKind::Fixed,
            frame,
            JointParts::none(),
        ),
{
    joint_reads_back(s, path, JointKind::Fixed, frame, JointParts::none());
}

/// A generic joint that has been defined reads back.
pub proof fn generic_joint_reads_back(s: StageView, path: Seq<char>, frame: JointFrame)
    requires
        !is_property(path),
        rest_readable(s, path, JointParts::none()),
        names_body(s, path, A_BODY0@, frame.body0),
        names_body(s, path, A_BODY1@, frame.body1),
    ensures
        joint_is_read(
            s.with_joint(path, JointKind::Generic.prim_type(), frame),
            s,
            path,
            JointKind::Generic,
            frame,
            JointParts::none(),
        ),
{
    joint_reads_back(s, path, JointKind::Generic, frame, JointParts::none());
}

/// A joint of one axis that has been defined reads back. This is how prismatic
/// joints are authored, and revolute ones, whose ends are in degrees.
pub proof fn axis_joint_reads_back(
    s: StageView,
    path: Seq<char>,
    kind: JointKind,
    frame: JointFrame,
    axis: Seq<char>,
    limits: Option<JointLimit>,
)
    requires
        !is_property(path),
        rest_readable(s, path, (JointParts { axis: Some(axis), limits, ..JointParts::none() })),
        names_body(s, path, A_BODY0@, frame.body0),
        names_body(s, path, A_BODY1@, frame.body1),
    ensures
        joint_is_read(
            s.with_joint(path, kind.prim_type(), frame).with_axis(path, axis).with_limits(
                path,
                limits,
            ),
            s,
            path,
            kind,
            frame,
            (JointParts { axis: Some(axis), limits, ..JointParts::none() }),
        ),
{
    let parts = JointParts { axis: Some(axis), limits, ..JointParts::none() };
    joint_reads_back(s, path, kind, frame, parts);
}

/// A spherical joint that has been defined reads back.
pub proof fn spherical_joint_reads_back(
    s: StageView,
    path: Seq<char>,
    frame: JointFrame,
    axis: Seq<char>,
    cone_angle_0: Option<Single>,
    cone_angle_1: Option<Single>,
)
    requires
        !is_property(path),
        rest_readable(
            s,
            path,
            (JointParts { axis: Some(axis), cone_angle_0, cone_angle_1, ..JointParts::none() }),
        ),
        names_body(s, path, A_BODY0@, frame.body0),
        names_body(s, path, A_BODY1@, frame.body1),
    ensures
        joint_is_read(
            s.with_joint(path, JointKind::Spherical.prim_type(), frame).with_axis(
                path,
                axis,
            ).with_optional_float(path, A_CONE_ANGLE_0_LIMIT@, cone_angle_0).with_optional_float(
                path,
                A_CONE_ANGLE_1_LIMIT@,
                cone_angle_1,
            ),
            s,
            path,
            JointKind::Spherical,
            frame,
            (JointParts { axis: Some(axis), cone_angle_0, cone_angle_1, ..JointParts::none() }),
        ),
{
    let parts = JointParts { axis: Some(axis), cone_angle_0, cone_angle_1, ..JointParts::none() };
    joint_reads_back(s, path, JointKind::Spherical, frame, parts);
}

/// A distance joint that has been defined reads back.
pub proof fn distance_joint_reads_back(
    s: StageView,
    path: Seq<char>,
    frame: JointFrame,
    min_distance: Option<Single>,
    max_distance: Option<Single>,
)
    requires
        !is_property(path),
        rest_readable(
            s,
            path,
            (JointParts { min_distance, max_distance, ..JointParts::none() }),
        ),
        names_body(s, path, A_BODY0@, frame.body0),
        names_body(s, path, A_BODY1@, frame.body1),
    ensures
        joint_is_read(
            s.with_joint(path, JointKind::Distance.prim_type(), frame).with_optional_float(
                path,
                A_MIN_DISTANCE@,
                min_distance,
            ).with_optional_float(path, A_MAX_DISTANCE@, max_distance),
            s,
            path,
            JointKind::Distance,
            frame,
            (JointParts { min_distance, max_distance, ..JointParts::none() }),
        ),
{
    let parts = JointParts { min_distance, max_distance, ..JointParts::none() };
    joint_reads_back(s, path, JointKind::Distance, frame, parts);
}

/// Whether a joint is switched on, part of its articulation, unbreakable, and
/// without limits or drives on single degrees of freedom.
pub open spec fn is_plain(j: ReadJoint) -> bool {
    &&& !j.collision_enabled
    &&& j.joint_enabled
    &&& !j.exclude_from_articulation
    &&& j.break_force is None
    &&& j.break_torque is None
    &&& j.limits@.len() == 0
    &&& j.drives@.len() == 0
}

/// Where nothing is known of a path yet, any joint can be defined, and what its
/// definition does not say is plain.
pub proof fn fresh_joints_are_plain(
    s: StageView,
    path: Seq<char>,
    frame: JointFrame,
    parts: JointParts,
)
    requires
        fresh(s, path),
        !is_property(path),
    ensures
        rest_readable(s, path, parts),
        names_body(s, path, A_BODY0@, frame.body0),
        names_body(s, path, A_BODY1@, frame.body1),
        forall|j: ReadJoint| #[trigger] keeps_rest(j, s, path) ==> is_plain(j),
{
    property_marks();
    assert(s.api_schemas(path)->Ok_0 =~= seq![]);
    assert(s.targets(path, A_BODY0@)->Ok_0 =~= seq![]);
    assert(s.targets(path, A_BODY1@)->Ok_0 =~= seq![]);
    assert(!s.fields.dom().contains((path, "properties"@)));
}

/// The token of a degree of freedom holds no colon.
proof fn lemma_token_without_colon(dof: Dof, i: int)
    requires
        0 <= i < dof.token().len(),
    ensures
        dof.token()[i] != ':',
{
    reveal_strlit("transX");
    reveal_strlit("transY");
    reveal_strlit("transZ");
    reveal_strlit("rotX");
    reveal_strlit("rotY");
    reveal_strlit("rotZ");
    reveal_strlit("linear");
    reveal_strlit("angular");
    reveal_strlit("distance");
    assert(i == 0 || i == 1 || i == 2 || i == 3 || i == 4 || i == 5 || i == 6 || i == 7);
}

/// No two parts of limits or drives share an attribute.
proof fn lemma_dof_attributes_differ(
    family: Seq<char>,
    a: Dof,
    p: Seq<char>,
    b: Dof,
    q: Seq<char>,
)
    requires
        a != b || p != q,
    ensures
        dof_attribute(family, a.token(), p) != dof_attribute(family, b.token(), q),
{
    let x = dof_attribute(family, a.token(), p);
    let y = dof_attribute(family, b.token(), q);
    let f = family.len() as int;
    let la = a.token().len() as int;
    let lb = b.token().len() as int;
    reveal_strlit(":physics:");
    if x == y {
        assert(x[f + la] == ':');
        assert(y[f + lb] == ':');
        if la < lb {
            assert(y[f + la] == b.token()[la]);
            lemma_token_without_colon(b, la);
        } else if lb < la {
            assert(x[f + lb] == a.token()[lb]);
            lemma_token_without_colon(a, lb);
        } else {
            assert(x.subrange(f, f + la) =~= a.token());
            assert(y.subrange(f, f + la) =~= b.token());
            Dof::tokens_are_distinct(a, b);
            assert(x.skip(f + la + 9) =~= p);
            assert(y.skip(f + la + 9) =~= q);
        }
    }
}

/// Limits on two degrees of freedom share no attribute.
proof fn lemma_limits_apart(a: Dof, b: Dof)
    requires
        a != b,
    ensures
        forall|p: Seq<char>, q: Seq<char>| #[trigger]
            dof_attribute("limit:"@, a.token(), p) != #[trigger] dof_attribute(
                "limit:"@,
                b.token(),
                q,
            ),
{
    assert forall|p: Seq<char>, q: Seq<char>| #[trigger]
        dof_attribute("limit:"@, a.token(), p) != #[trigger] dof_attribute(
            "limit:"@,
            b.token(),
            q,
        ) by {
        lemma_dof_attributes_differ("limit:"@, a, p, b, q);
    }
}

/// An applied limit is among the limits.
proof fn lemma_limit_is_listed(s: StageView, prim: Seq<char>, list: Seq<Seq<char>>, i: int, dof: Dof)
    requires
        0 <= i < list.len(),
        schema_dof(list[i], API_LIMIT@) == Some(dof),
    ensures
        limits_of(s, prim, list).contains(limit_of(s, prim, dof)),
    decreases list.len(),
{
    let front = limits_of(s, prim, list.drop_last());
    if i < list.len() - 1 {
        lemma_limit_is_listed(s, prim, list.drop_last(), i, dof);
        let k = choose|k: int| 0 <= k < front.len() && front[k] == limit_of(s, prim, dof);
        assert(limits_of(s, prim, list)[k] == limit_of(s, prim, dof));
    } else {
        assert(limits_of(s, prim, list).last() == limit_of(s, prim, dof));
    }
}

/// An applied drive is among the drives.
proof fn lemma_drive_is_listed(s: StageView, prim: Seq<char>, list: Seq<Seq<char>>, i: int, dof: Dof)
    requires
        0 <= i < list.len(),
        schema_dof(list[i], API_DRIVE@) == Some(dof),
    ensures
        drives_of(s, prim, list).contains(drive_of(s, prim, dof)),
    decreases list.len(),
{
    let front = drives_of(s, prim, list.drop_last());
    if i < list.len() - 1 {
        lemma_drive_is_listed(s, prim, list.drop_last(), i, dof);
        let k = choose|k: int| 0 <= k < front.len() && front[k] == drive_of(s, prim, dof);
        assert(drives_of(s, prim, list)[k] == drive_of(s, prim, dof));
    } else {
        assert(drives_of(s, prim, list).last() == drive_of(s, prim, dof));
    }
}

/// A limit that has been applied to a degree of freedom is among those that are
/// read, with the ends that were given, whichever is the larger: a locked
/// degree of freedom reads back as locked. The limits on the other degrees of
/// freedom stay what they were, and if they can be read, all can.
pub proof fn limit_reads_back(
    s: StageView,
    joint: Seq<char>,
    dof: Dof,
    lower: Single,
    upper: Single,
)
    requires
        apply_error(s, joint) is None,
        lists_properties(s, joint),
    ensures
        ({
            let t = s.with_dof_limit(joint, dof.token(), lower, upper);
            &&& t.api_schemas(joint) is Ok
            &&& limits_of(t, joint, t.api_schemas(joint)->Ok_0).contains(
                ReadLimit { dof, low: lower, high: upper },
            )
            &&& forall|other: Dof|
                other != dof ==> #[trigger] limit_of(t, joint, other) == limit_of(s, joint, other)
            &&& limits_readable(s, joint, s.api_schemas(joint)->Ok_0) ==> limits_readable(
                t,
                joint,
                t.api_schemas(joint)->Ok_0,
            )
        }),
{
    let t = s.with_dof_limit(joint, dof.token(), lower, upper);
    let applied = applied_schema(API_LIMIT@, dof.token());
    let low = dof_attribute("limit:"@, dof.token(), LIMIT_SUB_LOW@);
    let high = dof_attribute("limit:"@, dof.token(), LIMIT_SUB_HIGH@);
    reveal_strlit("limit:");
    reveal_strlit("low");
    reveal_strlit("high");
    let s1 = s.with_schemas(joint, seq![applied]);
    let s2 = s1.with_float(joint, low, lower);
    lemma_applies(s, joint, applied);
    attribute_reads_back(s1, joint, low, "float"@, ValueView::Float(lower), false);
    attribute_reads_back(s2, joint, high, "float"@, ValueView::Float(upper), false);
    lemma_dof_attributes_differ("limit:"@, dof, LIMIT_SUB_LOW@, dof, LIMIT_SUB_HIGH@);
    let list = t.api_schemas(joint)->Ok_0;
    let i = choose|i: int| 0 <= i < list.len() && list[i] == applied;
    applied_schema_names_its_dof(API_LIMIT@, dof);
    lemma_limit_is_listed(t, joint, list, i, dof);
    assert forall|other: Dof| other != dof implies #[trigger] limit_of(t, joint, other)
        == limit_of(s, joint, other) by {
        lemma_limits_apart(dof, other);
    }
    let before = s.api_schemas(joint)->Ok_0;
    merged_holds_both(before, seq![applied]);
    schemas_read_back(s, joint, seq![applied]);
    if limits_readable(s, joint, before) {
        assert forall|k: int| 0 <= k < list.len() implies (schema_dof(
            #[trigger] list[k],
            API_LIMIT@,
        ) matches Some(other) ==> limit_readable(t, joint, other)) by {
            if let Some(other) = schema_dof(list[k], API_LIMIT@) {
                if other != dof {
                    assert(merged(before, seq![applied]).contains(list[k]));
                    assert(before.contains(list[k]));
                    let b = choose|b: int| 0 <= b < before.len() && before[b] == list[k];
                    assert(schema_dof(before[b], API_LIMIT@) == Some(other));
                    lemma_limits_apart(dof, other);
                }
            }
        }
    }
}

/// A part of a drive that is given, or the one that is authored already.
pub open spec fn part_or(
    x: Option<Single>,
    s: StageView,
    joint: Seq<char>,
    dof: Dof,
    part: Seq<char>,
) -> Option<Single> {
    match x {
        Some(_) => x,
        None => drive_part(s, joint, dof, part),
    }
}

/// Whether a part of a drive is given, or can be read already.
pub open spec fn part_readable(
    x: Option<Single>,
    s: StageView,
    joint: Seq<char>,
    dof: Dof,
    part: Seq<char>,
) -> bool {
    x is Some || s.attribute(joint, dof_attribute("drive:"@, dof.token(), part)) is Ok
}

/// The drive that is read where `drive` was authored over what `s` holds.
pub open spec fn driven_by(s: StageView, joint: Seq<char>, dof: Dof, drive: DriveProps) -> ReadDrive {
    ReadDrive {
        dof,
        drive_type: drive.drive_type,
        target_position: part_or(
            drive.target_position,
            s,
            joint,
            dof,
            DRIVE_SUB_TARGET_POSITION@,
        ),
        target_velocity: part_or(
            drive.target_velocity,
            s,
            joint,
            dof,
            DRIVE_SUB_TARGET_VELOCITY@,
        ),
        damping: drive.damping,
        stiffness: drive.stiffness,
        max_force: part_or(drive.max_force, s, joint, dof, DRIVE_SUB_MAX_FORCE@),
    }
}

/// The parts of a drive are told apart by their names.
proof fn lemma_drive_parts()
    ensures
        DRIVE_SUB_TYPE@.len() == 4,
        DRIVE_SUB_TARGET_POSITION@.len() == 14,
        DRIVE_SUB_TARGET_POSITION@[6] == 'P',
        DRIVE_SUB_TARGET_VELOCITY@.len() == 14,
        DRIVE_SUB_TARGET_VELOCITY@[6] == 'V',
        DRIVE_SUB_DAMPING@.len() == 7,
        DRIVE_SUB_STIFFNESS@.len() == 9,
        DRIVE_SUB_MAX_FORCE@.len() == 8,
{
    reveal_strlit("type");
    reveal_strlit("targetPosition");
    reveal_strlit("targetVelocity");
    reveal_strlit("damping");
    reveal_strlit("stiffness");
    reveal_strlit("maxForce");
}

/// A drive that has been applied to a degree of freedom is among those that are
/// read, as it was given; a part that was not given stays what it was, and so
/// do the drives on the other degrees of freedom. If what stays can be read, all
/// can.
pub proof fn drive_reads_back(s: StageView, joint: Seq<char>, dof: Dof, drive: DriveProps)
    requires
        apply_error(s, joint) is None,
        lists_properties(s, joint),
    ensures
        ({
            let t = s.with_drive(joint, dof.token(), drive);
            &&& t.api_schemas(joint) is Ok
            &&& drives_of(t, joint, t.api_schemas(joint)->Ok_0).contains(
                driven_by(s, joint, dof, drive),
            )
            &&& forall|other: Dof|
                other != dof ==> #[trigger] drive_of(t, joint, other) == drive_of(s, joint, other)
            &&& drives_readable(s, joint, s.api_schemas(joint)->Ok_0) && part_readable(
                drive.target_position,
                s,
                joint,
                dof,
                DRIVE_SUB_TARGET_POSITION@,
            ) && part_readable(
                drive.target_velocity,
                s,
                joint,
                dof,
                DRIVE_SUB_TARGET_VELOCITY@,
            ) && part_readable(drive.max_force, s, joint, dof, DRIVE_SUB_MAX_FORCE@)
                ==> drives_readable(t, joint, t.api_schemas(joint)->Ok_0)
        }),
{
    let t = s.with_drive(joint, dof.token(), drive);
    let applied = applied_schema(API_DRIVE@, dof.token());
    let kind = dof_attribute("drive:"@, dof.token(), DRIVE_SUB_TYPE@);
    let position = dof_attribute("drive:"@, dof.token(), DRIVE_SUB_TARGET_POSITION@);
    let velocity = dof_attribute("drive:"@, dof.token(), DRIVE_SUB_TARGET_VELOCITY@);
    let damping = dof_attribute("drive:"@, dof.token(), DRIVE_SUB_DAMPING@);
    let stiffness = dof_attribute("drive:"@, dof.token(), DRIVE_SUB_STIFFNESS@);
    let force = dof_attribute("drive:"@, dof.token(), DRIVE_SUB_MAX_FORCE@);
    reveal_strlit("drive:");
    lemma_drive_parts();
    let token = ValueView::Token(drive.drive_type.token());
    let s1 = s.with_schemas(joint, seq![applied]);
    let s2 = s1.with_attribute(joint, kind, "token"@, token, true);
    let s3 = s2.with_optional_float(joint, position, drive.target_position);
    let s4 = s3.with_optional_float(joint, velocity, drive.target_velocity);
    let s5 = s4.with_float(joint, damping, drive.damping);
    let s6 = s5.with_float(joint, stiffness, drive.stiffness);
    lemma_applies(s, joint, applied);
    attribute_reads_back(s1, joint, kind, "token"@, token, true);
    lemma_optional_float(s2, joint, position, drive.target_position);
    lemma_optional_float(s3, joint, velocity, drive.target_velocity);
    attribute_reads_back(s4, joint, damping, "float"@, ValueView::Float(drive.damping), false);
    attribute_reads_back(s5, joint, stiffness, "float"@, ValueView::Float(drive.stiffness), false);
    lemma_optional_float(s6, joint, force, drive.max_force);
    assert forall|p: Seq<char>, q: Seq<char>, other: Dof| p != q || other != dof implies #[trigger]
    dof_attribute("drive:"@, dof.token(), p) != #[trigger] dof_attribute(
        "drive:"@,
        other.token(),
        q,
    ) by {
        lemma_dof_attributes_differ("drive:"@, dof, p, other, q);
    }
    DriveType::tokens_are_distinct(drive.drive_type, drive.drive_type);
    assert(drive_of(t, joint, dof) == driven_by(s, joint, dof, drive));
    let list = t.api_schemas(joint)->Ok_0;
    let i = choose|i: int| 0 <= i < list.len() && list[i] == applied;
    applied_schema_names_its_dof(API_DRIVE@, dof);
    lemma_drive_is_listed(t, joint, list, i, dof);
    assert forall|other: Dof| other != dof implies #[trigger] drive_of(t, joint, other)
        == drive_of(s, joint, other) && drive_readable(t, joint, other) == drive_readable(
        s,
        joint,
        other,
    ) by {
        assert forall|q: Seq<char>| #[trigger]
            t.attribute(joint, dof_attribute("drive:"@, other.token(), q)) == s.attribute(
                joint,
                dof_attribute("drive:"@, other.token(), q),
            ) by {
            let name = dof_attribute("drive:"@, other.token(), q);
            lemma_dof_attributes_differ("drive:"@, dof, DRIVE_SUB_TYPE@, other, q);
            lemma_dof_attributes_differ("drive:"@, dof, DRIVE_SUB_TARGET_POSITION@, other, q);
            lemma_dof_attributes_differ("drive:"@, dof, DRIVE_SUB_TARGET_VELOCITY@, other, q);
            lemma_dof_attributes_differ("drive:"@, dof, DRIVE_SUB_DAMPING@, other, q);
            lemma_dof_attributes_differ("drive:"@, dof, DRIVE_SUB_STIFFNESS@, other, q);
            lemma_dof_attributes_differ("drive:"@, dof, DRIVE_SUB_MAX_FORCE@, other, q);
        }
    }
    let before = s.api_schemas(joint)->Ok_0;
    merged_holds_both(before, seq![applied]);
    schemas_read_back(s, joint, seq![applied]);
    if drives_readable(s, joint, before) && part_readable(
        drive.target_position,
        s,
        joint,
        dof,
        DRIVE_SUB_TARGET_POSITION@,
    ) && part_readable(drive.target_velocity, s, joint, dof, DRIVE_SUB_TARGET_VELOCITY@)
        && part_readable(drive.max_force, s, joint, dof, DRIVE_SUB_MAX_FORCE@) {
        assert(drive_readable(t, joint, dof));
        assert forall|k: int| 0 <= k < list.len() implies (schema_dof(
            #[trigger] list[k],
            API_DRIVE@,
        ) matches Some(other) ==> drive_readable(t, joint, other)) by {
            if let Some(other) = schema_dof(list[k], API_DRIVE@) {
                if other != dof {
                    assert(merged(before, seq![applied]).contains(list[k]));
                    let b = choose|b: int| 0 <= b < before.len() && before[b] == list[k];
                    assert(schema_dof(before[b], API_DRIVE@) == Some(other));
                    assert(drive_of(t, joint, other) == drive_of(s, joint, other));
                }
            }
        }
    }
}

} // verus!
