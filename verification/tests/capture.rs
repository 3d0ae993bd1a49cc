use bevy_openusd::capture::{capture, convert, record};
use bevy_openusd::ieee::Single;
use bevy_openusd::physics::read::{
    find_physics_prims, read_collision_group, read_collision_shape, read_filtered_pairs,
    read_has_articulation_root, read_has_collision, read_has_rigid_body, read_is_physics_scene,
    read_joint, read_mass, read_physics_material, read_physics_scene,
};
use bevy_openusd::physics::types::{CollisionApprox, Dof, DriveType, JointKind};
use bevy_openusd::stage::{FieldRead, StageData, StageError};
use bevy_openusd::value::Value;
use bevy_openusd::xform::{read_transform, Axis, OpMatrix};
use openusd::sdf::Value as UsdValue;

const SCENE: &str = r#"#usda 1.0
(
    defaultPrim = "World"
)

def Xform "World"
{
    def PhysicsScene "Scene"
    {
        vector3f physics:gravityDirection = (0, 0, -1)
        float physics:gravityMagnitude = 9.81
    }

    def Xform "Body" (
        prepend apiSchemas = ["PhysicsRigidBodyAPI", "PhysicsMassAPI", "PhysicsArticulationRootAPI"]
    )
    {
        float physics:mass = 2.5
        point3f physics:centerOfMass = (1, 2, 3)
        quatf physics:principalAxes = (1, 0, 0, 0)
        double3 xformOp:translate = (1, 2, 3)
        float xformOp:rotateX = 90
        double3 xformOp:translate:pivot = (0, 1, 0)
        uniform token[] xformOpOrder = ["xformOp:translate", "xformOp:translate:pivot", "xformOp:rotateX", "!invert!xformOp:translate:pivot"]

        def Mesh "Hull" (
            prepend apiSchemas = ["PhysicsCollisionAPI", "PhysicsMeshCollisionAPI"]
        )
        {
            bool physics:collisionEnabled = 0
            uniform token physics:approximation = "convexDecomposition"
            rel material:binding = </World/Rubber>
            rel physics:simulationOwner = </World/Scene>
        }
    }

    def Material "Rubber" (
        prepend apiSchemas = ["PhysicsMaterialAPI"]
    )
    {
        float physics:dynamicFriction = 0.75
    }

    def PhysicsRevoluteJoint "Hinge" (
        prepend apiSchemas = ["PhysicsDriveAPI:angular", "PhysicsLimitAPI:rotX", "PhysicsLimitAPI:nowhere"]
    )
    {
        rel physics:body0 = </World/Body>
        rel physics:body1 = </World/Arm>
        uniform token physics:axis = "Z"
        float physics:lowerLimit = -45
        float physics:upperLimit = 45
        bool physics:jointEnabled = 0
        float drive:angular:physics:stiffness = 100
        uniform token drive:angular:physics:type = "acceleration"
        float limit:rotX:physics:low = 1
        float limit:rotX:physics:high = -1
    }

    def PhysicsCollisionGroup "Group"
    {
        rel collection:colliders:includes = [</World/Body/Hull>, </World/Rubber>]
        rel physics:filteredGroups = </World/Group>
        bool physics:invertFilteredGroups = 1
    }

    def Xform "Arm" (
        prepend apiSchemas = ["PhysicsFilteredPairsAPI"]
    )
    {
        rel physics:filteredPairs = </World/Body>
    }
}
"#;

struct Memory;

impl openusd::ar::Resolver for Memory {
    fn create_identifier(
        &self,
        asset_path: &str,
        _anchor: Option<&openusd::ar::ResolvedPath>,
    ) -> String {
        asset_path.to_string()
    }

    fn resolve(&self, asset_path: &str) -> Option<openusd::ar::ResolvedPath> {
        Some(openusd::ar::ResolvedPath::new(asset_path))
    }

    fn resolve_for_new_asset(&self, _asset_path: &str) -> Option<openusd::ar::ResolvedPath> {
        None
    }

    fn open_asset(
        &self,
        _resolved_path: &openusd::ar::ResolvedPath,
    ) -> std::io::Result<Box<dyn openusd::ar::Asset>> {
        Ok(Box::new(std::io::Cursor::new(SCENE.as_bytes().to_vec())))
    }
}

fn scene() -> StageData {
    let stage = openusd::Stage::builder().resolver(Memory).open("scene.usda").expect("the scene");
    capture(&stage)
}

fn single(x: f32) -> Single {
    Single { bits: x.to_bits() }
}

#[test]
fn capture_lists_the_prims_depth_first() {
    let s = scene();
    assert!(s.is_complete());
    assert_eq!(
        s.prims(),
        &vec![
            "/World".to_string(),
            "/World/Scene".to_string(),
            "/World/Body".to_string(),
            "/World/Body/Hull".to_string(),
            "/World/Rubber".to_string(),
            "/World/Hinge".to_string(),
            "/World/Group".to_string(),
            "/World/Arm".to_string(),
        ]
    );
}

#[test]
fn captured_scene_has_its_gravity() {
    let s = scene();
    assert_eq!(read_is_physics_scene(&s, "/World/Scene"), Ok(true));
    assert_eq!(read_is_physics_scene(&s, "/World"), Ok(false));
    let scene = read_physics_scene(&s, "/World/Scene").unwrap().unwrap();
    assert_eq!(scene.path, "/World/Scene");
    assert_eq!(scene.gravity_direction, Some([single(0.0), single(0.0), single(-1.0)]));
    assert_eq!(scene.gravity_magnitude, Some(single(9.81)));
    assert!(read_physics_scene(&s, "/World/Body").unwrap().is_none());
}

#[test]
fn captured_body_has_its_mass() {
    let s = scene();
    assert_eq!(read_has_rigid_body(&s, "/World/Body"), Ok(true));
    assert_eq!(read_has_articulation_root(&s, "/World/Body"), Ok(true));
    assert_eq!(read_has_collision(&s, "/World/Body"), Ok(false));
    let mass = read_mass(&s, "/World/Body").unwrap().unwrap();
    assert_eq!(mass.mass, Some(single(2.5)));
    assert_eq!(mass.center_of_mass, Some([single(1.0), single(2.0), single(3.0)]));
    assert_eq!(mass.diagonal_inertia, None);
    assert_eq!(
        mass.principal_axes,
        Some([single(1.0), single(0.0), single(0.0), single(0.0)])
    );
    assert!(read_mass(&s, "/World/Arm").unwrap().is_none());
}

#[test]
fn captured_shape_falls_back_to_the_plain_binding() {
    let s = scene();
    let shape = read_collision_shape(&s, "/World/Body/Hull").unwrap().unwrap();
    assert!(shape.has_collision_api);
    assert!(shape.has_mesh_collision_api);
    assert!(!shape.collision_enabled);
    assert_eq!(shape.approximation, Some(CollisionApprox::ConvexDecomposition));
    assert_eq!(shape.simulation_owner, Some("/World/Scene".to_string()));
    assert_eq!(shape.physics_material_path, Some("/World/Rubber".to_string()));
    assert!(read_collision_shape(&s, "/World/Body").unwrap().is_none());
    let material = read_physics_material(&s, "/World/Rubber").unwrap().unwrap();
    assert_eq!(material.dynamic_friction, Some(single(0.75)));
    assert_eq!(material.static_friction, None);
}

#[test]
fn captured_joint_has_its_limits_and_drives() {
    let s = scene();
    let j = read_joint(&s, "/World/Hinge").unwrap().unwrap();
    assert_eq!(j.kind, JointKind::Revolute);
    assert_eq!(j.body0, Some("/World/Body".to_string()));
    assert_eq!(j.body1, Some("/World/Arm".to_string()));
    assert_eq!(j.axis, Some("Z".to_string()));
    assert_eq!(j.lower_limit, Some(single(-45.0)));
    assert_eq!(j.upper_limit, Some(single(45.0)));
    assert!(!j.joint_enabled);
    assert!(!j.collision_enabled);
    assert_eq!(j.local_pos0, [single(0.0); 3]);
    assert_eq!(j.local_rot1, [single(1.0), single(0.0), single(0.0), single(0.0)]);
    assert_eq!(j.limits.len(), 1);
    assert_eq!(j.limits[0].dof, Dof::RotX);
    assert_eq!(j.limits[0].low, single(1.0));
    assert_eq!(j.limits[0].high, single(-1.0));
    assert_eq!(j.drives.len(), 1);
    assert_eq!(j.drives[0].dof, Dof::Angular);
    assert_eq!(j.drives[0].drive_type, DriveType::Acceleration);
    assert_eq!(j.drives[0].stiffness, single(100.0));
    assert_eq!(j.drives[0].damping, single(0.0));
    assert_eq!(j.drives[0].target_position, None);
    assert!(read_joint(&s, "/World/Body").unwrap().is_none());
}

#[test]
fn captured_groups_and_pairs_list_their_targets() {
    let s = scene();
    let g = read_collision_group(&s, "/World/Group").unwrap().unwrap();
    assert_eq!(g.members, vec!["/World/Body/Hull".to_string(), "/World/Rubber".to_string()]);
    assert_eq!(g.filtered_groups, vec!["/World/Group".to_string()]);
    assert!(g.invert_filtered_groups);
    assert_eq!(g.merge_group, None);
    let pairs = read_filtered_pairs(&s, "/World/Arm").unwrap().unwrap();
    assert_eq!(pairs.filtered, vec!["/World/Body".to_string()]);
    assert!(read_filtered_pairs(&s, "/World/Body").unwrap().is_none());
}

#[test]
fn captured_prims_are_sorted_by_what_they_are() {
    let found = find_physics_prims(&scene()).unwrap();
    assert_eq!(found.scenes, vec!["/World/Scene".to_string()]);
    assert_eq!(found.rigid_bodies, vec!["/World/Body".to_string()]);
    assert_eq!(found.articulation_roots, vec!["/World/Body".to_string()]);
    assert_eq!(found.colliders, vec!["/World/Body/Hull".to_string()]);
    assert_eq!(found.joints, vec!["/World/Hinge".to_string()]);
    assert_eq!(found.materials, vec!["/World/Rubber".to_string()]);
    assert_eq!(found.collision_groups, vec!["/World/Group".to_string()]);
    assert_eq!(found.filtered_pairs, vec!["/World/Arm".to_string()]);
}

#[test]
fn captured_stack_turns_about_its_pivot() {
    let s = scene();
    let steps = read_transform(&s, "/World/Body").unwrap().unwrap();
    let pivot = OpMatrix::Translate([single(0.0), single(1.0), single(0.0)]);
    assert_eq!(steps.len(), 4);
    assert_eq!(
        steps[0].matrix,
        OpMatrix::Translate([single(1.0), single(2.0), single(3.0)])
    );
    assert_eq!(steps[1].matrix, pivot);
    assert!(!steps[1].inverted);
    assert_eq!(steps[2].matrix, OpMatrix::Rotate(Axis::X, single(90.0)));
    assert_eq!(steps[3].matrix, pivot);
    assert!(steps[3].inverted);
    assert!(read_transform(&s, "/World").unwrap().is_none());
}

#[test]
fn record_keeps_answers_and_failures() {
    let mut reads: Vec<FieldRead> = Vec::new();
    record(&mut reads, "/A", "typeName", Ok(Some(Value::Token("Xform".to_string()))));
    record(&mut reads, "/B", "typeName", Ok(None));
    record(&mut reads, "/C", "typeName", Err(StageError::Unreadable));
    assert_eq!(reads.len(), 2);
    let s = StageData::from_reads(vec!["/A".to_string()], true, reads);
    assert_eq!(s.prim_type("/A"), Ok(Some("Xform")));
    assert_eq!(s.prim_type("/B"), Ok(None));
    assert_eq!(s.prim_type("/C"), Err(StageError::Unreadable));
}

#[test]
fn readers_report_what_cannot_be_read() {
    let mut reads: Vec<FieldRead> = Vec::new();
    record(&mut reads, "/J", "typeName", Ok(Some(Value::Token("PhysicsFixedJoint".to_string()))));
    record(&mut reads, "/J.physics:axis", "default", Err(StageError::Unreadable));
    record(&mut reads, "/T", "typeName", Ok(Some(Value::Bool(true))));
    record(&mut reads, "/P", "typeName", Ok(Some(Value::Token("PhysicsScene".to_string()))));
    record(&mut reads, "/P", "properties", Err(StageError::Unreadable));
    record(&mut reads, "/P.q", "typeName", Ok(Some(Value::Token("PhysicsScene".to_string()))));
    let s = StageData::from_reads(vec!["/J".to_string()], false, reads);
    assert!(matches!(read_joint(&s, "/J"), Err(StageError::Unreadable)));
    assert!(matches!(read_joint(&s, "/T"), Err(StageError::NotText)));
    assert!(matches!(read_physics_scene(&s, "/P"), Err(StageError::Unreadable)));
    assert!(matches!(read_physics_scene(&s, "/P.q"), Err(StageError::InvalidPath)));
    assert!(matches!(find_physics_prims(&s), Err(StageError::Unreadable)));
}

#[test]
fn values_are_taken_over_kind_by_kind() {
    let texts = |v: &[&str]| v.iter().map(|s| s.to_string()).collect::<Vec<String>>();
    assert!(matches!(convert(&UsdValue::Bool(true)), Value::Bool(true)));
    assert!(matches!(convert(&UsdValue::Int(-3)), Value::Int(-3)));
    assert!(matches!(convert(&UsdValue::Int64(7)), Value::Int64(7)));
    let x = convert(&UsdValue::Float(1.5));
    assert!(matches!(x, Value::Float(x) if x.bits == 1.5f32.to_bits()));
    let x = convert(&UsdValue::Double(2.5));
    assert!(matches!(x, Value::Double(x) if x.bits == 2.5f64.to_bits()));
    assert!(matches!(convert(&UsdValue::Token("t".to_string())), Value::Token(s) if s == "t"));
    assert!(matches!(convert(&UsdValue::String("s".to_string())), Value::String(s) if s == "s"));
    let v = convert(&UsdValue::Vec3f([1.0, 2.0, 3.0]));
    assert!(matches!(v, Value::Vec3f(a) if a[2].bits == 3.0f32.to_bits()));
    let v = convert(&UsdValue::Quatd([1.0, 0.0, 0.0, 0.5]));
    assert!(matches!(v, Value::Quatd(a) if a[3].bits == 0.5f64.to_bits()));
    let v = convert(&UsdValue::TokenVec(texts(&["a", "b"])));
    assert!(matches!(v, Value::TokenVec(v) if v == texts(&["a", "b"])));
    let path = openusd::sdf::Path::from("/A");
    let op = openusd::sdf::ListOp { prepended_items: vec![path], ..Default::default() };
    let v = convert(&UsdValue::PathListOp(op));
    assert!(matches!(v, Value::PathListOp(op) if op.prepended_items == texts(&["/A"])));
    assert!(matches!(convert(&UsdValue::IntVec(vec![1])), Value::Other));
}
