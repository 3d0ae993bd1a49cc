use bevy_openusd::ieee::{Double, Single};
use bevy_openusd::physics::types::{CollisionApprox, Dof, DriveType, JointKind, ReadDrive};
use bevy_openusd::rapier::bodies::{
    convert_rigid_bodies, plan_rigid_body, BodyMarker, BodyRequest, BodyType, MassMarker, MassPlan,
};
use bevy_openusd::rapier::colliders::{
    apply_physics_materials, build_mesh_collider, convert_colliders, cylinder_scales,
    plan_collider, plan_material, ColliderRequest, ColliderShape, Entities, MaterialMarker,
    MeshPlan,
};
use bevy_openusd::rapier::groups::{articulation_group_bit, articulation_groups};
use bevy_openusd::rapier::hierarchy::{
    find_articulation_root_ancestor, find_body_ancestor, find_marked_ancestor,
};
use bevy_openusd::rapier::joints::{
    convert_joints, dof_matches_prismatic, dof_matches_revolute, find_entry, is_settled,
    needs_impulse_joint, plan_axis_joint, plan_joint, Handle, JointAction, JointBuild, JointMarker,
    LimitPlan, MotorPlan,
};
use bevy_openusd::rapier::scene::sync_gravity_from_usd_scene;
use std::collections::{HashMap, HashSet};

fn single(x: f32) -> Single {
    Single { bits: x.to_bits() }
}

fn double(x: f64) -> Double {
    Double { bits: x.to_bits() }
}

fn handle(index: u32) -> Handle {
    Handle { index, generation: 7 }
}

fn body() -> BodyMarker {
    BodyMarker {
        enabled: true,
        kinematic: false,
        starts_asleep: false,
        velocity: [single(1.0); 3],
        angular_velocity: [single(2.0); 3],
    }
}

#[test]
fn bodies_are_of_the_type_that_their_marker_says() {
    let plan = plan_rigid_body(9, &body(), &None);
    assert_eq!(plan.entity, 9);
    assert_eq!(plan.body_type, BodyType::Dynamic);
    assert_eq!(plan.velocity, [single(1.0); 3]);
    assert_eq!(plan.angular_velocity, [single(2.0); 3]);
    assert!(!plan.sleeping);
    let damping = plan.damping.unwrap();
    assert_eq!((damping.linear, damping.angular), (double(0.1), double(0.5)));
    let follows = BodyMarker { kinematic: true, starts_asleep: true, ..body() };
    let plan = plan_rigid_body(9, &follows, &None);
    assert_eq!(plan.body_type, BodyType::KinematicPositionBased);
    assert!(plan.sleeping && plan.damping.is_none());
    let off = BodyMarker { enabled: false, kinematic: true, ..body() };
    assert_eq!(plan_rigid_body(9, &off, &None).body_type, BodyType::Fixed);
}

#[test]
fn moving_bodies_never_go_without_mass() {
    match plan_rigid_body(1, &body(), &None).mass {
        MassPlan::Safety { least_mass, least_inertia } => {
            assert_eq!((least_mass, least_inertia), (double(0.001), double(0.0001)));
        }
        other => panic!("{other:?}"),
    }
    let unknown = MassMarker {
        mass: None,
        density: None,
        center_of_mass: Some([single(1.0); 3]),
        diagonal_inertia: Some([single(1.0); 3]),
    };
    assert!(matches!(plan_rigid_body(1, &body(), &Some(unknown)).mass, MassPlan::Safety { .. }));
    let off = BodyMarker { enabled: false, ..body() };
    assert!(matches!(plan_rigid_body(1, &off, &Some(unknown)).mass, MassPlan::Nothing));
    let known = MassMarker { mass: Some(single(3.0)), center_of_mass: None, ..unknown };
    match plan_rigid_body(1, &off, &Some(known)).mass {
        MassPlan::Given { mass, center, inertia } => {
            assert_eq!(mass, single(3.0));
            assert_eq!(center, [single(0.0); 3]);
            assert_eq!(inertia, Some([single(1.0); 3]));
        }
        other => panic!("{other:?}"),
    }
}

#[test]
fn a_given_mass_goes_before_a_density() {
    let made_of = |mass: Option<f32>, density: f32| MassMarker {
        mass: mass.map(single),
        density: Some(single(density)),
        center_of_mass: None,
        diagonal_inertia: None,
    };
    let plan = |m: MassMarker| plan_rigid_body(1, &body(), &Some(m)).mass;
    let heavy = plan(made_of(None, 700.0));
    assert!(matches!(heavy, MassPlan::Density { density } if density == single(700.0)));
    let given = plan(made_of(Some(2.0), 700.0));
    assert!(matches!(given, MassPlan::Given { mass, .. } if mass == single(2.0)));
    assert!(matches!(plan(made_of(None, 0.0)), MassPlan::Safety { .. }));
    assert!(matches!(plan(made_of(None, f32::NAN)), MassPlan::Safety { .. }));
}

#[test]
fn bodies_are_built_once() {
    let request = |entity: u64, attached: bool| BodyRequest {
        entity,
        body: body(),
        mass: None,
        attached,
    };
    let plans = convert_rigid_bodies(&vec![request(1, false), request(2, true), request(3, false)]);
    let entities: Vec<u64> = plans.iter().map(|p| p.entity).collect();
    assert_eq!(entities, vec![1, 3]);
}

#[test]
fn mesh_colliders_follow_the_table() {
    let build = |a: Option<CollisionApprox>, dynamic: bool| {
        build_mesh_collider(a, dynamic, &Some(vec![0, 1, 2, 2, 1, 3, 9]), 4)
    };
    let triangles = vec![[0, 1, 2], [2, 1, 3]];
    for dynamic in [false, true] {
        for a in [
            CollisionApprox::ConvexHull,
            CollisionApprox::BoundingSphere,
            CollisionApprox::BoundingCube,
        ] {
            assert!(matches!(build(Some(a), dynamic), MeshPlan::ConvexHull));
        }
        assert!(matches!(
            build(Some(CollisionApprox::ConvexDecomposition), dynamic),
            MeshPlan::ConvexDecomposition(list) if list == triangles
        ));
    }
    for a in [None, Some(CollisionApprox::EngineDefault), Some(CollisionApprox::MeshSimplification)]
    {
        assert!(matches!(build(a, true), MeshPlan::ConvexHull));
        assert!(matches!(build(a, false), MeshPlan::TriMesh(list) if list == triangles));
    }
}

#[test]
fn meshes_without_an_index_list_are_cut_into_triangles() {
    let a = Some(CollisionApprox::ConvexDecomposition);
    assert!(matches!(build_mesh_collider(a, false, &None, 9), MeshPlan::Nothing));
    let plan = build_mesh_collider(None, false, &None, 8);
    assert!(matches!(plan, MeshPlan::TriMesh(list) if list == vec![[0, 1, 2], [3, 4, 5]]));
}

#[test]
fn cylinders_are_scaled_along_and_across_their_axis() {
    let scale = [single(-2.0), single(3.0), single(5.0)];
    let scales = |x: f32, y: f32, z: f32| {
        cylinder_scales([single(x), single(y), single(z)], scale)
    };
    assert_eq!(scales(1.0, 0.0, 0.0), (single(2.0), single(5.0)));
    assert_eq!(scales(0.0, -1.0, 0.0), (single(3.0), single(5.0)));
    assert_eq!(scales(0.0, 0.0, -1.0), (single(5.0), single(3.0)));
    assert_eq!(scales(1.0, 1.0, 0.0), (single(3.0), single(5.0)));
    assert_eq!(scales(1.0, 0.5, 1.0), (single(5.0), single(3.0)));
}

fn known() -> Entities {
    // 1 is a body and the root of an articulation, 2 a body below it, 3 a
    // mesh below that, and 4 stands alone. Forces move 2 but not 1.
    let off = BodyMarker { enabled: false, ..body() };
    let wood = MassMarker {
        mass: None,
        density: Some(single(600.0)),
        center_of_mass: None,
        diagonal_inertia: None,
    };
    let fixed = plan_rigid_body(1, &off, &None);
    let wooden = plan_rigid_body(2, &body(), &Some(wood));
    Entities {
        parents: HashMap::from([(2, 1), (3, 2)]),
        attached: HashSet::from([1, 2]),
        roots: HashSet::from([1]),
        bodies: HashMap::from([(1, handle(10)), (2, handle(20))]),
        plans: HashMap::from([(1, fixed), (2, wooden)]),
        loaded: HashSet::from([100]),
    }
}

fn shape(entity: u64, shape: ColliderShape) -> ColliderRequest {
    ColliderRequest { entity, shape, mesh: None, child_meshes: vec![] }
}

#[test]
fn the_nearest_marked_ancestor_is_found() {
    let k = known();
    assert_eq!(find_body_ancestor(3, &k.parents, &k.attached), Some(2));
    assert_eq!(find_body_ancestor(2, &k.parents, &k.attached), Some(2));
    assert_eq!(find_body_ancestor(4, &k.parents, &k.attached), None);
    assert_eq!(find_articulation_root_ancestor(3, &k.parents, &k.roots), Some(1));
    assert_eq!(find_articulation_root_ancestor(4, &k.parents, &k.roots), None);
    assert_eq!(find_marked_ancestor(3, &k.parents, &HashSet::from([9])), None);
}

#[test]
fn articulations_have_a_bit_of_their_own() {
    assert_eq!(articulation_group_bit(0), 1 << 1);
    assert_eq!(articulation_group_bit(30), 1 << 31);
    assert_eq!(articulation_group_bit(31), 1 << 1);
    let a = articulation_groups(1);
    assert_eq!(a.memberships, 0b100);
    assert_eq!(a.filter, 0xffff_fffb);
    let touch = |x: u64, y: u64| {
        let (x, y) = (articulation_groups(x), articulation_groups(y));
        x.memberships & y.filter != 0 && y.memberships & x.filter != 0
    };
    assert!(!touch(5, 5));
    assert!(touch(5, 6));
    assert!(!touch(5, 36));
}

#[test]
fn colliders_go_under_the_nearest_body() {
    let k = known();
    let ball = ColliderShape::Sphere { radius: single(1.0) };
    let plan = plan_collider(&shape(3, ball), &k).unwrap();
    assert_eq!(plan.entity, 3);
    assert_eq!(plan.body_entity, Some(2));
    assert_eq!(plan.body, Some(handle(20)));
    assert_eq!(plan.groups, Some(articulation_groups(1)));
    assert_eq!(plan.mesh, None);
    assert!(!plan.remap_axis);
    let tube = ColliderShape::Cylinder {
        radius: single(1.0),
        height: single(2.0),
        axis: [single(0.0), single(0.0), single(1.0)],
    };
    let plan = plan_collider(&shape(4, tube), &k).unwrap();
    assert_eq!(plan.body_entity, None);
    assert_eq!(plan.body, None);
    assert_eq!(plan.groups, None);
    assert!(plan.remap_axis);
    assert!(!plan.is_dynamic && plan.density.is_none());
}

#[test]
fn capsules_lie_along_their_axis_already() {
    let pill = ColliderShape::Capsule {
        radius: single(0.5),
        height: single(2.0),
        axis: [single(0.0), single(0.0), single(1.0)],
    };
    assert!(!plan_collider(&shape(2, pill), &known()).unwrap().remap_axis);
}

#[test]
fn colliders_go_by_the_body_that_they_belong_to() {
    let k = known();
    let mut q = shape(3, ColliderShape::Mesh);
    q.mesh = Some(100);
    let plan = plan_collider(&q, &k).unwrap();
    assert_eq!(plan.body_entity, Some(2));
    assert!(plan.is_dynamic);
    assert_eq!(plan.density, Some(single(600.0)));
    let corners = Some(vec![0, 1, 2]);
    for a in [None, Some(CollisionApprox::MeshSimplification)] {
        let mesh = build_mesh_collider(a, plan.is_dynamic, &corners, 3);
        assert!(matches!(mesh, MeshPlan::ConvexHull));
    }
    q.entity = 1;
    let plan = plan_collider(&q, &k).unwrap();
    assert!(!plan.is_dynamic && plan.density.is_none());
    let mesh = build_mesh_collider(None, plan.is_dynamic, &corners, 3);
    assert!(matches!(mesh, MeshPlan::TriMesh(list) if list == vec![[0, 1, 2]]));
}

#[test]
fn mesh_colliders_wait_for_their_mesh() {
    let k = known();
    let mut q = shape(3, ColliderShape::Mesh);
    assert_eq!(plan_collider(&q, &k), None);
    q.child_meshes = vec![None, Some(100), Some(200)];
    assert_eq!(plan_collider(&q, &k).unwrap().mesh, Some(100));
    q.mesh = Some(200);
    assert_eq!(plan_collider(&q, &k), None);
    let plans = convert_colliders(&vec![q, shape(4, ColliderShape::Plane)], &k);
    assert_eq!(plans.len(), 1);
    assert_eq!(plans[0].entity, 4);
}

#[test]
fn materials_are_set_on_colliders_of_the_world() {
    let colliders = HashMap::from([(1, handle(1)), (2, handle(2)), (3, handle(3))]);
    let material = |d: Option<f32>, s: Option<f32>| {
        Some(MaterialMarker {
            static_friction: s.map(single),
            dynamic_friction: d.map(single),
            restitution: None,
        })
    };
    let plan = plan_material(1, &material(Some(0.1), Some(0.2)), &colliders).unwrap();
    assert_eq!(plan.friction, single(0.1));
    assert_eq!(plan.restitution, None);
    assert_eq!(plan_material(9, &material(None, None), &colliders), None);
    let list = vec![
        (1, None),
        (2, material(None, Some(0.2))),
        (9, material(None, None)),
        (3, material(None, None)),
    ];
    let plans = apply_physics_materials(&list, &colliders);
    assert_eq!(plans.len(), 2);
    assert_eq!((plans[0].collider, plans[0].friction), (handle(2), single(0.2)));
    assert_eq!((plans[1].collider, plans[1].friction), (handle(3), single(0.5)));
}

fn drive(dof: Dof, position: Option<f32>, velocity: Option<f32>) -> ReadDrive {
    ReadDrive {
        dof,
        drive_type: DriveType::Force,
        target_position: position.map(single),
        target_velocity: velocity.map(single),
        damping: single(2.0),
        stiffness: single(3.0),
        max_force: Some(single(4.0)),
    }
}

fn joint(kind: JointKind) -> JointMarker {
    JointMarker {
        kind,
        body0: Some(1),
        body1: Some(2),
        joint_enabled: true,
        exclude_from_articulation: false,
        same_basis: true,
        built_in_limit: None,
        drives: vec![],
    }
}

#[test]
fn drives_move_joints_that_turn_or_slide() {
    for dof in [Dof::Angular, Dof::RotX, Dof::RotY, Dof::RotZ] {
        assert!(dof_matches_revolute(dof) && !dof_matches_prismatic(dof));
    }
    for dof in [Dof::Linear, Dof::TransX, Dof::TransY, Dof::TransZ] {
        assert!(dof_matches_prismatic(dof) && !dof_matches_revolute(dof));
    }
    assert!(!dof_matches_revolute(Dof::Distance) && !dof_matches_prismatic(Dof::Distance));
}

#[test]
fn joints_of_one_axis_are_planned() {
    let mut j = joint(JointKind::Revolute);
    let plan = plan_axis_joint(&j).unwrap();
    assert!(plan.turns && !plan.generic && !plan.force_based);
    assert_eq!(plan.limits, LimitPlan::Free);
    assert_eq!(plan.motor, MotorPlan::Nothing);
    assert_eq!(plan.max_force, None);
    j.built_in_limit = Some((single(-1.0), single(1.0)));
    j.drives = vec![
        drive(Dof::Linear, Some(9.0), None),
        drive(Dof::RotX, None, Some(0.5)),
        drive(Dof::RotY, Some(1.0), None),
    ];
    let plan = plan_axis_joint(&j).unwrap();
    assert!(plan.force_based);
    assert_eq!(plan.limits, LimitPlan::Range(single(-1.0), single(1.0)));
    assert_eq!(plan.motor, MotorPlan::Velocity { target: single(0.5), damping: single(2.0) });
    assert_eq!(plan.max_force, Some(single(4.0)));
    j.kind = JointKind::Prismatic;
    j.same_basis = false;
    let plan = plan_axis_joint(&j).unwrap();
    assert!(!plan.turns && plan.generic && !plan.force_based);
    assert_eq!(
        plan.motor,
        MotorPlan::Position {
            target: single(9.0),
            stiffness: single(3.0),
            damping: single(2.0)
        }
    );
    assert!(plan_axis_joint(&joint(JointKind::Fixed)).is_none());
}

#[test]
fn a_lower_end_above_the_upper_one_locks_a_joint() {
    let mut j = joint(JointKind::Revolute);
    j.built_in_limit = Some((single(1.0), single(-1.0)));
    assert_eq!(plan_axis_joint(&j).unwrap().limits, LimitPlan::Locked);
    j.built_in_limit = Some((single(1.0), single(1.0)));
    assert_eq!(
        plan_axis_joint(&j).unwrap().limits,
        LimitPlan::Range(single(1.0), single(1.0))
    );
    // A range that is too narrow for singles stays one.
    let (lower, upper) = (double(1.0), double(1.0 + 1e-12));
    j.built_in_limit = Some((lower.narrow(), upper.narrow()));
    assert_ne!(plan_axis_joint(&j).unwrap().limits, LimitPlan::Locked);
}

#[test]
fn joints_wait_for_their_bodies() {
    let none = HashMap::new();
    let half = HashMap::from([(1, handle(1))]);
    let both = HashMap::from([(1, handle(1)), (2, handle(2))]);
    let j = joint(JointKind::Fixed);
    for bodies in [&none, &half] {
        let action = plan_joint(&j, bodies, true);
        assert!(matches!(action, JointAction::Wait));
        assert!(!is_settled(&action));
    }
    let action = plan_joint(&j, &both, true);
    assert!(is_settled(&action));
    assert!(matches!(
        action,
        JointAction::Insert {
            body0,
            body1,
            multibody: true,
            build: JointBuild::Fixed,
            contacts: false,
        }
            if body0 == handle(1) && body1 == handle(2)
    ));
    assert_eq!(find_entry(&half, 1), Some(handle(1)));
    assert_eq!(find_entry(&half, 2), None);
}

#[test]
fn joints_go_where_the_articulation_says() {
    let both = HashMap::from([(1, handle(1)), (2, handle(2))]);
    let mut j = joint(JointKind::Spherical);
    let multibody = |j: &JointMarker, any: bool| match plan_joint(j, &both, any) {
        JointAction::Insert { multibody, .. } => multibody,
        other => panic!("{other:?}"),
    };
    assert!(multibody(&j, true));
    assert!(!multibody(&j, false));
    j.exclude_from_articulation = true;
    assert!(!multibody(&j, true));
}

#[test]
fn joints_to_the_world_pin_their_body() {
    let both = HashMap::from([(1, handle(1)), (2, handle(2))]);
    let mut j = joint(JointKind::Fixed);
    j.body0 = None;
    assert!(matches!(plan_joint(&j, &both, true), JointAction::Pin(Some(h)) if h == handle(2)));
    j.body1 = Some(9);
    assert!(matches!(plan_joint(&j, &both, true), JointAction::Pin(None)));
    j.body0 = Some(1);
    j.body1 = None;
    assert!(matches!(plan_joint(&j, &both, true), JointAction::Pin(Some(h)) if h == handle(1)));
    j.body0 = None;
    assert!(matches!(plan_joint(&j, &both, true), JointAction::Pin(None)));
    j.joint_enabled = false;
    assert!(matches!(plan_joint(&j, &both, true), JointAction::Skip));
}

#[test]
fn joints_that_the_world_has_none_of_are_skipped() {
    let both = HashMap::from([(1, handle(1)), (2, handle(2))]);
    let joints = vec![joint(JointKind::Distance), joint(JointKind::Generic)];
    let actions = convert_joints(&joints, &both, true);
    assert_eq!(actions.len(), 2);
    assert!(actions.iter().all(|a| matches!(a, JointAction::Skip)));
}

#[test]
fn refused_joints_of_one_axis_are_kept_outside() {
    let axis = JointBuild::Axis(plan_axis_joint(&joint(JointKind::Revolute)).unwrap());
    assert!(needs_impulse_joint(&axis, false, false));
    assert!(needs_impulse_joint(&axis, true, false));
    assert!(!needs_impulse_joint(&axis, true, true));
    assert!(needs_impulse_joint(&JointBuild::Fixed, false, false));
    assert!(!needs_impulse_joint(&JointBuild::Fixed, true, false));
}

#[test]
fn the_first_scene_sets_the_gravity() {
    let mut settled = false;
    let plan = sync_gravity_from_usd_scene(&mut settled, 0, true);
    assert_eq!((plan.applied, plan.ignored, settled), (None, 0, false));
    let plan = sync_gravity_from_usd_scene(&mut settled, 3, false);
    assert_eq!((plan.applied, plan.ignored, settled), (None, 0, false));
    let plan = sync_gravity_from_usd_scene(&mut settled, 3, true);
    assert_eq!((plan.applied, plan.ignored, settled), (Some(0), 2, true));
    let plan = sync_gravity_from_usd_scene(&mut settled, 1, true);
    assert_eq!((plan.applied, plan.ignored, settled), (None, 1, true));
}
