use bevy_openusd::attributes::{read_scalar, read_targets, read_token};
use bevy_openusd::ieee::{Double, Single};
use bevy_openusd::physics::author::{
    apply_articulation_root, apply_collision, apply_drive, apply_limit, apply_mass,
    apply_mesh_collision, apply_mesh_collision_convex_hull, apply_mimic, apply_physics_material,
    apply_rigid_body, author_joint_frame, axis_token, define_distance_joint, define_fixed_joint,
    define_generic_joint, define_prismatic_joint, define_revolute_joint, define_scene,
    define_spherical_joint, DegreeLimit, DriveProps, JointFrame, JointLimit, MassProps,
};
use bevy_openusd::physics::names::{applied_schema_name, dof_attribute_name, read_schema_dof};
use bevy_openusd::physics::read::{
    find_physics_prims, read_api_schemas, read_collision_group, read_collision_shape,
    read_filtered_pairs, read_has_articulation_root, read_has_collision, read_has_rigid_body,
    read_is_physics_scene, read_joint, read_joint_drives, read_joint_limits, read_mass,
    read_physics_material, read_physics_scene,
};
use bevy_openusd::physics::types::{CollisionApprox, Dof, DriveType, JointKind};
use bevy_openusd::stage::{StageData, StageError};
use bevy_openusd::value::Value;

fn single(x: f32) -> Single {
    Single { bits: x.to_bits() }
}

fn double(x: f64) -> Double {
    Double { bits: x.to_bits() }
}

fn text(s: &str) -> String {
    s.to_string()
}

fn frame() -> JointFrame {
    JointFrame {
        body0: Some(text("/A")),
        body1: None,
        local_pos0: [single(1.0), single(2.0), single(3.0)],
        local_rot0: [single(0.5), single(0.5), single(0.5), single(0.5)],
        local_pos1: [single(4.0), single(5.0), single(6.0)],
        local_rot1: [single(1.0), single(0.0), single(0.0), single(0.0)],
    }
}

const DOFS: [(Dof, &str); 9] = [
    (Dof::TransX, "transX"),
    (Dof::TransY, "transY"),
    (Dof::TransZ, "transZ"),
    (Dof::RotX, "rotX"),
    (Dof::RotY, "rotY"),
    (Dof::RotZ, "rotZ"),
    (Dof::Linear, "linear"),
    (Dof::Angular, "angular"),
    (Dof::Distance, "distance"),
];

#[test]
fn tokens_name_what_they_stand_for() {
    for (dof, token) in DOFS {
        assert_eq!(dof.as_token(), token);
        assert_eq!(Dof::from_token(token), Some(dof));
    }
    assert_eq!(Dof::from_token("rotx"), None);
    for (kind, token) in [(DriveType::Force, "force"), (DriveType::Acceleration, "acceleration")] {
        assert_eq!(kind.as_token(), token);
        assert_eq!(DriveType::from_token(token), Some(kind));
    }
    assert_eq!(DriveType::from_token("velocity"), None);
    let shapes = [
        (CollisionApprox::EngineDefault, "none"),
        (CollisionApprox::ConvexHull, "convexHull"),
        (CollisionApprox::ConvexDecomposition, "convexDecomposition"),
        (CollisionApprox::BoundingSphere, "boundingSphere"),
        (CollisionApprox::BoundingCube, "boundingCube"),
        (CollisionApprox::MeshSimplification, "meshSimplification"),
    ];
    for (shape, token) in shapes {
        assert_eq!(shape.as_token(), token);
        assert_eq!(CollisionApprox::from_token(token), Some(shape));
    }
    assert_eq!(CollisionApprox::from_token(""), None);
    assert_eq!(JointKind::from_prim_type("PhysicsJoint"), Some(JointKind::Generic));
    assert_eq!(JointKind::from_prim_type("PhysicsScene"), None);
}

#[test]
fn names_of_limits_and_drives() {
    assert_eq!(applied_schema_name("PhysicsLimitAPI", "rotX"), "PhysicsLimitAPI:rotX");
    assert_eq!(dof_attribute_name("limit:", "rotX", "low"), "limit:rotX:physics:low");
    for (dof, token) in DOFS {
        let applied = applied_schema_name("PhysicsDriveAPI", token);
        assert_eq!(read_schema_dof(&applied, "PhysicsDriveAPI"), Some(dof));
        assert_eq!(read_schema_dof(&applied, "PhysicsLimitAPI"), None);
    }
    assert_eq!(read_schema_dof("PhysicsDriveAPI", "PhysicsDriveAPI"), None);
    assert_eq!(read_schema_dof("PhysicsDriveAPIrotX", "PhysicsDriveAPI"), None);
    assert_eq!(read_schema_dof("PhysicsDriveAPI:spin", "PhysicsDriveAPI"), None);
}

#[test]
fn a_scene_reads_back() {
    let mut s = StageData::new();
    assert_eq!(define_scene(&mut s, "/", "Scene"), Ok(text("/Scene")));
    assert_eq!(read_is_physics_scene(&s, "/Scene"), Ok(true));
    assert_eq!(read_api_schemas(&s, "/Scene"), Ok(vec![text("NewtonSceneAPI")]));
    let scene = read_physics_scene(&s, "/Scene").unwrap().unwrap();
    assert_eq!(scene.path, "/Scene");
    assert_eq!(scene.gravity_direction, None);
    assert_eq!(scene.gravity_magnitude, None);
    assert_eq!(define_scene(&mut s, "/Scene.x", "Scene"), Err(StageError::InvalidPath));
}

#[test]
fn a_mass_reads_back() {
    let mut s = StageData::new();
    let props = MassProps {
        mass: double(2.5),
        center_of_mass: [double(0.1), double(0.2), double(0.3)],
        diagonal_inertia: [single(1.0), single(2.0), single(3.0)],
        principal_axes: [single(1.0), single(0.0), single(0.0), single(0.0)],
    };
    assert!(read_mass(&s, "/A").unwrap().is_none());
    assert_eq!(apply_mass(&mut s, "/A", &props), Ok(()));
    let mass = read_mass(&s, "/A").unwrap().unwrap();
    assert_eq!(mass.mass, Some(single(2.5)));
    assert_eq!(mass.center_of_mass, Some([single(0.1), single(0.2), single(0.3)]));
    assert_eq!(mass.diagonal_inertia, Some(props.diagonal_inertia));
    assert_eq!(mass.principal_axes, Some(props.principal_axes));
    assert_eq!(mass.density, None);
    assert_eq!(apply_mass(&mut s, "/A.x", &props), Err(StageError::InvalidPath));
}

#[test]
fn schemas_of_bodies_read_back() {
    let mut s = StageData::new();
    assert_eq!(apply_rigid_body(&mut s, "/A"), Ok(()));
    assert_eq!(apply_articulation_root(&mut s, "/A"), Ok(()));
    assert_eq!(
        read_api_schemas(&s, "/A"),
        Ok(vec![
            text("PhysicsRigidBodyAPI"),
            text("PhysicsArticulationRootAPI"),
            text("NewtonArticulationRootAPI"),
        ])
    );
    assert_eq!(read_has_rigid_body(&s, "/A"), Ok(true));
    assert_eq!(read_has_articulation_root(&s, "/A"), Ok(true));
    assert_eq!(read_has_collision(&s, "/A"), Ok(false));
    assert_eq!(apply_collision(&mut s, "/A"), Ok(()));
    assert_eq!(read_has_collision(&s, "/A"), Ok(true));
    assert_eq!(apply_rigid_body(&mut s, "/A.x"), Err(StageError::InvalidPath));
}

#[test]
fn a_collision_shape_reads_back() {
    let mut s = StageData::new();
    assert_eq!(apply_collision(&mut s, "/Box"), Ok(()));
    let shape = read_collision_shape(&s, "/Box").unwrap().unwrap();
    assert!(shape.has_collision_api && !shape.has_mesh_collision_api && shape.collision_enabled);
    assert_eq!(shape.approximation, None);
    assert_eq!(apply_mesh_collision(&mut s, "/Hull", CollisionApprox::BoundingCube), Ok(()));
    let shape = read_collision_shape(&s, "/Hull").unwrap().unwrap();
    assert!(shape.has_mesh_collision_api);
    assert_eq!(shape.approximation, Some(CollisionApprox::BoundingCube));
    assert_eq!(apply_mesh_collision_convex_hull(&mut s, "/Hull"), Ok(()));
    let shape = read_collision_shape(&s, "/Hull").unwrap().unwrap();
    assert_eq!(shape.approximation, Some(CollisionApprox::ConvexHull));
    // A material that is bound for physics goes before one that is bound plainly.
    s.define_relationship("/Hull", "material:binding", vec![text("/Plain")]).unwrap();
    s.define_relationship("/Hull", "material:binding:physics", vec![text("/Rubber")]).unwrap();
    let shape = read_collision_shape(&s, "/Hull").unwrap().unwrap();
    assert_eq!(shape.physics_material_path, Some(text("/Rubber")));
    // An approximation counts only where the schema of meshes is applied.
    s.define_attribute("/Box", "physics:approximation", "token", Value::Token(text("none")), true)
        .unwrap();
    let shape = read_collision_shape(&s, "/Box").unwrap().unwrap();
    assert_eq!(shape.approximation, None);
    assert!(read_collision_shape(&s, "/None").unwrap().is_none());
}

#[test]
fn a_material_reads_back() {
    let mut s = StageData::new();
    let friction = Some(single(0.25));
    assert_eq!(apply_physics_material(&mut s, "/M", friction, None, Some(single(0.5)), None), Ok(()));
    let m = read_physics_material(&s, "/M").unwrap().unwrap();
    assert_eq!(m.path, "/M");
    assert_eq!(m.static_friction, friction);
    assert_eq!(m.dynamic_friction, None);
    assert_eq!(m.restitution, Some(single(0.5)));
    assert_eq!(m.density, None);
    assert!(read_physics_material(&s, "/N").unwrap().is_none());
}

#[test]
fn axes_that_are_close_to_one_are_that_one() {
    let axis = |x: f64, y: f64, z: f64| axis_token([double(x), double(y), double(z)]);
    assert_eq!(axis(1.0, 0.0, 0.0), "X");
    assert_eq!(axis(0.0, -2.0, 1e-7), "Y");
    assert_eq!(axis(9e-7, -9e-7, -1.0), "Z");
    assert_eq!(axis(0.0, 1.0, 1e-6), "X");
    assert_eq!(axis(1.0, 1.0, 0.0), "X");
    assert_eq!(axis(0.0, 0.0, 0.0), "X");
    assert_eq!(axis(0.0, f64::NAN, 0.0), "X");
}

#[test]
fn a_fixed_and_a_generic_joint_read_back() {
    let mut s = StageData::new();
    assert_eq!(define_fixed_joint(&mut s, "/", "J", &frame()), Ok(text("/J")));
    assert_eq!(define_generic_joint(&mut s, "/", "K", &frame()), Ok(text("/K")));
    for (path, kind) in [("/J", JointKind::Fixed), ("/K", JointKind::Generic)] {
        let j = read_joint(&s, path).unwrap().unwrap();
        let f = frame();
        assert_eq!(j.path, path);
        assert_eq!(j.kind, kind);
        assert_eq!(j.body0, f.body0);
        assert_eq!(j.body1, None);
        assert_eq!(j.local_pos0, f.local_pos0);
        assert_eq!(j.local_rot0, f.local_rot0);
        assert_eq!(j.local_pos1, f.local_pos1);
        assert_eq!(j.local_rot1, f.local_rot1);
        assert_eq!(j.axis, None);
        assert!(j.joint_enabled && !j.collision_enabled && !j.exclude_from_articulation);
        assert!(j.limits.is_empty() && j.drives.is_empty());
    }
    assert_eq!(define_fixed_joint(&mut s, "/J", "/K", &frame()), Err(StageError::InvalidPath));
    assert_eq!(author_joint_frame(&mut s, "/J.x", &frame()), Err(StageError::InvalidPath));
}

#[test]
fn a_joint_of_one_axis_reads_back() {
    let mut s = StageData::new();
    let limits = Some(DegreeLimit { lower: double(-90.0), upper: double(45.0) });
    assert_eq!(define_revolute_joint(&mut s, "/", "J", &frame(), "Y", limits), Ok(text("/J")));
    let j = read_joint(&s, "/J").unwrap().unwrap();
    assert_eq!(j.kind, JointKind::Revolute);
    assert_eq!(j.axis, Some(text("Y")));
    assert_eq!(j.lower_limit, Some(single(-90.0)));
    assert_eq!(j.upper_limit, Some(single(45.0)));
    assert_eq!(define_prismatic_joint(&mut s, "/", "K", &frame(), "Z", None), Ok(text("/K")));
    let j = read_joint(&s, "/K").unwrap().unwrap();
    assert_eq!(j.kind, JointKind::Prismatic);
    assert_eq!(j.axis, Some(text("Z")));
    assert_eq!(j.lower_limit, None);
    let limits = Some(JointLimit { lower: double(0.5), upper: double(1.5) });
    assert_eq!(define_prismatic_joint(&mut s, "/", "K", &frame(), "Z", limits), Ok(text("/K")));
    let j = read_joint(&s, "/K").unwrap().unwrap();
    assert_eq!((j.lower_limit, j.upper_limit), (Some(single(0.5)), Some(single(1.5))));
}

#[test]
fn other_joints_read_back() {
    let mut s = StageData::new();
    let cone = Some(single(-1.0));
    let path = define_spherical_joint(&mut s, "/", "J", &frame(), "X", cone, None).unwrap();
    let j = read_joint(&s, &path).unwrap().unwrap();
    assert_eq!(j.kind, JointKind::Spherical);
    assert_eq!(j.cone_angle_0, cone);
    assert_eq!(j.cone_angle_1, None);
    let far = Some(single(2.0));
    let path = define_distance_joint(&mut s, "/", "K", &frame(), None, far).unwrap();
    let j = read_joint(&s, &path).unwrap().unwrap();
    assert_eq!(j.kind, JointKind::Distance);
    assert_eq!(j.min_distance, None);
    assert_eq!(j.max_distance, far);
}

#[test]
fn a_joint_that_is_defined_again_keeps_the_rest() {
    let mut s = StageData::new();
    let limits = Some(DegreeLimit { lower: double(2.0), upper: double(1.0) });
    define_revolute_joint(&mut s, "/", "J", &frame(), "Y", limits).unwrap();
    apply_limit(&mut s, "/J", "rotX", double(1.0), double(-1.0)).unwrap();
    let mut f = frame();
    f.body0 = Some(text("/Other"));
    f.local_pos0 = [single(7.0); 3];
    assert_eq!(define_fixed_joint(&mut s, "/", "J", &f), Ok(text("/J")));
    let j = read_joint(&s, "/J").unwrap().unwrap();
    assert_eq!(j.kind, JointKind::Fixed);
    assert_eq!(j.body0, Some(text("/Other")));
    assert_eq!(j.local_pos0, [single(7.0); 3]);
    assert_eq!(j.axis, Some(text("Y")));
    assert_eq!((j.lower_limit, j.upper_limit), (Some(single(2.0)), Some(single(1.0))));
    assert_eq!(j.limits.len(), 1);
    // A frame without a body leaves the one that was named before.
    f.body0 = None;
    define_fixed_joint(&mut s, "/", "J", &f).unwrap();
    assert_eq!(read_joint(&s, "/J").unwrap().unwrap().body0, Some(text("/Other")));
}

#[test]
fn a_joint_that_mimics_another_says_so() {
    let mut s = StageData::new();
    assert_eq!(apply_mimic(&mut s, "/J", "/K", double(2.0), double(0.5)), Ok(()));
    assert_eq!(read_api_schemas(&s, "/J"), Ok(vec![text("NewtonMimicAPI")]));
    assert_eq!(read_scalar(&s, "/J", "newton:mimicCoef0"), Ok(Some(single(0.5))));
    assert_eq!(read_scalar(&s, "/J", "newton:mimicCoef1"), Ok(Some(single(2.0))));
    assert_eq!(read_targets(&s, "/J", "newton:mimicJoint"), Ok(vec![text("/K")]));
}

#[test]
fn limits_read_back() {
    let mut s = StageData::new();
    for (_, token) in DOFS {
        assert_eq!(apply_limit(&mut s, "/J", token, double(1.0), double(-1.0)), Ok(()));
    }
    let limits = read_joint_limits(&s, "/J").unwrap();
    assert_eq!(limits.len(), 9);
    for (i, (dof, _)) in DOFS.iter().enumerate() {
        assert_eq!(limits[i].dof, *dof);
        assert_eq!(limits[i].low, single(1.0));
        assert_eq!(limits[i].high, single(-1.0));
    }
    assert!(read_joint_drives(&s, "/J").unwrap().is_empty());
    assert_eq!(read_scalar(&s, "/J", "limit:rotX:physics:low"), Ok(Some(single(1.0))));
    // A limit on something else is authored, and not read.
    assert_eq!(apply_limit(&mut s, "/K", "spin", double(1.0), double(2.0)), Ok(()));
    assert!(read_joint_limits(&s, "/K").unwrap().is_empty());
    assert_eq!(
        apply_limit(&mut s, "/K.x", "rotX", double(1.0), double(2.0)),
        Err(StageError::InvalidPath)
    );
}

#[test]
fn drives_read_back() {
    let mut s = StageData::new();
    let plain = DriveProps::default();
    assert_eq!(apply_drive(&mut s, "/J", "linear", &plain), Ok(()));
    let strong = DriveProps {
        drive_type: DriveType::Acceleration,
        target_position: Some(single(0.5)),
        target_velocity: Some(single(1.5)),
        damping: single(2.0),
        stiffness: single(3.0),
        max_force: Some(single(4.0)),
    };
    assert_eq!(apply_drive(&mut s, "/J", "rotZ", &strong), Ok(()));
    let drives = read_joint_drives(&s, "/J").unwrap();
    assert_eq!(drives.len(), 2);
    assert_eq!(drives[0].dof, Dof::Linear);
    assert_eq!(drives[0].drive_type, DriveType::Force);
    assert_eq!(drives[0].target_position, None);
    assert_eq!(drives[0].target_velocity, None);
    assert_eq!(drives[0].damping, single(0.0));
    assert_eq!(drives[0].stiffness, single(0.0));
    assert_eq!(drives[0].max_force, None);
    assert_eq!(drives[1].dof, Dof::RotZ);
    assert_eq!(drives[1].drive_type, DriveType::Acceleration);
    assert_eq!(drives[1].target_position, Some(single(0.5)));
    assert_eq!(drives[1].target_velocity, Some(single(1.5)));
    assert_eq!(drives[1].damping, single(2.0));
    assert_eq!(drives[1].stiffness, single(3.0));
    assert_eq!(drives[1].max_force, Some(single(4.0)));
    assert_eq!(read_token(&s, "/J", "drive:rotZ:physics:type"), Ok(Some(text("acceleration"))));
    assert!(read_joint_limits(&s, "/J").unwrap().is_empty());
}

#[test]
fn what_is_missing_of_a_limit_or_drive_is_nothing() {
    let mut s = StageData::new();
    s.apply_api_schemas("/J", &["PhysicsLimitAPI:rotX", "PhysicsDriveAPI:rotX"]).unwrap();
    let limits = read_joint_limits(&s, "/J").unwrap();
    assert_eq!((limits[0].low, limits[0].high), (single(0.0), single(0.0)));
    let drives = read_joint_drives(&s, "/J").unwrap();
    assert_eq!(drives[0].drive_type, DriveType::Force);
    assert_eq!(drives[0].damping, single(0.0));
}

#[test]
fn groups_and_pairs_read_back() {
    let mut s = StageData::new();
    s.define_prim("/", "G", "PhysicsCollisionGroup").unwrap();
    s.define_relationship("/G", "collection:colliders:includes", vec![text("/A"), text("/B")])
        .unwrap();
    s.define_attribute("/G", "physics:mergeGroup", "string", Value::String(text("m")), true)
        .unwrap();
    let g = read_collision_group(&s, "/G").unwrap().unwrap();
    assert_eq!(g.path, "/G");
    assert_eq!(g.members, vec![text("/A"), text("/B")]);
    assert!(g.filtered_groups.is_empty());
    assert_eq!(g.merge_group, Some(text("m")));
    assert!(!g.invert_filtered_groups);
    assert!(read_collision_group(&s, "/A").unwrap().is_none());
    s.apply_api_schemas("/A", &["PhysicsFilteredPairsAPI"]).unwrap();
    let pairs = read_filtered_pairs(&s, "/A").unwrap().unwrap();
    assert_eq!(pairs.path, "/A");
    assert!(pairs.filtered.is_empty());
}

#[test]
fn a_sweep_sorts_the_prims() {
    let mut s = StageData::new();
    define_scene(&mut s, "/", "Scene").unwrap();
    define_fixed_joint(&mut s, "/", "J", &frame()).unwrap();
    s.define_prim("/", "A", "Xform").unwrap();
    apply_rigid_body(&mut s, "/A").unwrap();
    apply_collision(&mut s, "/A").unwrap();
    s.define_prim("/", "B", "Xform").unwrap();
    apply_rigid_body(&mut s, "/B").unwrap();
    // A prim that was never defined is not come to.
    apply_rigid_body(&mut s, "/Nowhere").unwrap();
    let found = find_physics_prims(&s).unwrap();
    assert_eq!(found.scenes, vec![text("/Scene")]);
    assert_eq!(found.joints, vec![text("/J")]);
    assert_eq!(found.rigid_bodies, vec![text("/A"), text("/B")]);
    assert_eq!(found.colliders, vec![text("/A")]);
    assert!(found.articulation_roots.is_empty());
    assert!(found.materials.is_empty());
    assert!(found.collision_groups.is_empty());
    assert!(found.filtered_pairs.is_empty());
}
