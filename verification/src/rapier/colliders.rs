//! Colliders.

use crate::ieee::Single;
use crate::physics::types::CollisionApprox;
use crate::rapier::bodies::{BodyPlan, BodyType, MassPlan};
use crate::rapier::groups::{articulation_groups, groups_of, Groups};
use crate::rapier::hierarchy::{
    find_articulation_root_ancestor, find_body_ancestor, is_forest, is_nearest, nearest_is_unique,
};
use crate::rapier::joints::{find_entry, lookup, Handle};
use crate::xform::Axis;
use std::collections::{HashMap, HashSet};
use vstd::prelude::*;

verus! {

/// The shape of a collider of the scene. Sizes are those of the scene.
#[derive(Debug, Clone, Copy)]
pub enum ColliderShape {
    Cube { size: Single },
    Sphere { radius: Single },
    Capsule { radius: Single, height: Single, axis: [Single; 3] },
    Cylinder { radius: Single, height: Single, axis: [Single; 3] },
    Plane,
    Mesh,
}

/// The three corners of each of `n` triangles over the vertices in their order.
pub open spec fn consecutive_triangles(n: nat) -> Seq<[u32; 3]> {
    Seq::new(n, |i: int| [(3 * i) as u32, (3 * i + 1) as u32, (3 * i + 2) as u32])
}

/// The triangles of a list of corners; what is left over at the end is dropped.
pub open spec fn triangles_of(corners: Seq<u32>) -> Seq<[u32; 3]> {
    Seq::new(
        (corners.len() / 3) as nat,
        |i: int| [corners[3 * i], corners[3 * i + 1], corners[3 * i + 2]],
    )
}

/// How to build the collider of a mesh.
#[derive(Debug, Clone)]
pub enum MeshPlan {
    ConvexHull,
    ConvexDecomposition(Vec<[u32; 3]>),
    TriMesh(Vec<[u32; 3]>),
    /// The mesh cannot be made a collider.
    Nothing,
}

/// How to build the collider of a mesh, without the triangles.
pub ghost enum MeshChoice {
    ConvexHull,
    ConvexDecomposition,
    TriMesh,
    Nothing,
}

/// How the collider of a mesh is built. A body that forces move cannot have
/// triangles for a collider and gets the convex hull; a decomposition needs
/// triangles.
pub open spec fn mesh_choice(
    approximation: CollisionApprox,
    is_dynamic: bool,
    indexed: bool,
) -> MeshChoice {
    match approximation {
        CollisionApprox::ConvexHull => MeshChoice::ConvexHull,
        CollisionApprox::BoundingSphere => MeshChoice::ConvexHull,
        CollisionApprox::BoundingCube => MeshChoice::ConvexHull,
        CollisionApprox::ConvexDecomposition => if indexed {
            MeshChoice::ConvexDecomposition
        } else {
            MeshChoice::Nothing
        },
        CollisionApprox::EngineDefault | CollisionApprox::MeshSimplification => if is_dynamic {
            MeshChoice::ConvexHull
        } else {
            MeshChoice::TriMesh
        },
    }
}

/// The triangles of a mesh: those of its index list, or the vertices three by
/// three.
pub open spec fn mesh_triangles(indices: Option<Vec<u32>>, vertices: usize) -> Seq<[u32; 3]> {
    match indices {
        Some(list) => triangles_of(list@),
        None => consecutive_triangles((vertices / 3) as nat),
    }
}

/// Whether a plan is the one that is made of a mesh.
pub open spec fn is_mesh_plan(
    plan: MeshPlan,
    approximation: Option<CollisionApprox>,
    is_dynamic: bool,
    indices: Option<Vec<u32>>,
    vertices: usize,
) -> bool {
    let approximation = match approximation {
        Some(a) => a,
        None => CollisionApprox::EngineDefault,
    };
    match mesh_choice(approximation, is_dynamic, indices is Some) {
        MeshChoice::ConvexHull => plan is ConvexHull,
        MeshChoice::Nothing => plan is Nothing,
        MeshChoice::ConvexDecomposition => plan matches MeshPlan::ConvexDecomposition(list)
            && list@ == mesh_triangles(indices, vertices),
        MeshChoice::TriMesh => plan matches MeshPlan::TriMesh(list) && list@ == mesh_triangles(
            indices,
            vertices,
        ),
    }
}

/// Groups corners into triangles.
fn group_triangles(corners: &Vec<u32>) -> (r: Vec<[u32; 3]>)
    ensures
        r@ == triangles_of(corners@),
{
    let n: usize = corners.len() / 3;
    let mut out: Vec<[u32; 3]> = Vec::new();
    let mut i: usize = 0;
    while i < n
        invariant
            i <= n,
            n == corners.len() / 3,
            out@ == triangles_of(corners@).take(i as int),
        decreases n - i,
    {
        let triangle: [u32; 3] = [corners[3 * i], corners[3 * i + 1], corners[3 * i + 2]];
        out.push(triangle);
        assert(out@ =~= triangles_of(corners@).take(i + 1));
        i = i + 1;
    }
    assert(triangles_of(corners@).take(n as int) =~= triangles_of(corners@));
    out
}

/// Groups the vertices of a mesh without an index list into triangles.
fn number_triangles(vertices: usize) -> (r: Vec<[u32; 3]>)
    ensures
        r@ == consecutive_triangles((vertices / 3) as nat),
{
    let n: usize = vertices / 3;
    let mut out: Vec<[u32; 3]> = Vec::new();
    let mut i: usize = 0;
    while i < n
        invariant
            i <= n,
            n == vertices / 3,
            out@ == consecutive_triangles(n as nat).take(i as int),
        decreases n - i,
    {
        let triangle: [u32; 3] = [
            #[verifier::truncate] ((3 * i) as u32),
            #[verifier::truncate] ((3 * i + 1) as u32),
            #[verifier::truncate] ((3 * i + 2) as u32),
        ];
        out.push(triangle);
        assert(out@ =~= consecutive_triangles(n as nat).take(i + 1));
        i = i + 1;
    }
    assert(consecutive_triangles(n as nat).take(n as int) =~= consecutive_triangles(n as nat));
    out
}

/// Decides how to build the collider of a mesh.
pub fn build_mesh_collider(
    approximation: Option<CollisionApprox>,
    is_dynamic: bool,
    indices: &Option<Vec<u32>>,
    vertices: usize,
) -> (r: MeshPlan)
    ensures
        is_mesh_plan(r, approximation, is_dynamic, *indices, vertices),
{
    let approximation: CollisionApprox = match approximation {
        Some(a) => a,
        None => CollisionApprox::EngineDefault,
    };
    match approximation {
        CollisionApprox::ConvexHull
        | CollisionApprox::BoundingSphere
        | CollisionApprox::BoundingCube => MeshPlan::ConvexHull,
        CollisionApprox::ConvexDecomposition => match indices {
            Some(list) => MeshPlan::ConvexDecomposition(group_triangles(list)),
            None => MeshPlan::Nothing,
        },
        CollisionApprox::EngineDefault | CollisionApprox::MeshSimplification => {
            if is_dynamic {
                MeshPlan::ConvexHull
            } else {
                match indices {
                    Some(list) => MeshPlan::TriMesh(group_triangles(list)),
                    None => MeshPlan::TriMesh(number_triangles(vertices)),
                }
            }
        },
    }
}

/// The triangles of a mesh without an index list are about its vertices, as
/// long as these can be numbered.
pub proof fn numbered_corners_exist(vertices: usize, i: int, k: int)
    requires
        vertices <= u32::MAX,
        0 <= i < vertices / 3,
        0 <= k < 3,
    ensures
        consecutive_triangles((vertices / 3) as nat)[i][k] == 3 * i + k,
        3 * i + k < vertices,
{
    assert(k == 0 || k == 1 || k == 2);
}

/// The coordinate axis that a direction is closest to.
pub open spec fn closest_axis(direction: [Single; 3]) -> Axis {
    let x = direction[0].absolute();
    let y = direction[1].absolute();
    let z = direction[2].absolute();
    if y.below(x) && z.below(x) {
        Axis::X
    } else if y.below(z) {
        Axis::Z
    } else {
        Axis::Y
    }
}

/// The factors by which the height and the radius of a cylinder are scaled: the
/// scale along its axis, and the larger of the other two.
pub fn cylinder_scales(direction: [Single; 3], scale: [Single; 3]) -> (r: (Single, Single))
    ensures
        r == match closest_axis(direction) {
            Axis::X => (
                scale[0].absolute(),
                scale[1].absolute().greater(scale[2].absolute()),
            ),
            Axis::Z => (
                scale[2].absolute(),
                scale[0].absolute().greater(scale[1].absolute()),
            ),
            Axis::Y => (
                scale[1].absolute(),
                scale[0].absolute().greater(scale[2].absolute()),
            ),
        },
{
    let x: Single = direction[0].abs();
    let y: Single = direction[1].abs();
    let z: Single = direction[2].abs();
    if y.less(x) && z.less(x) {
        (scale[0].abs(), scale[1].abs().max(scale[2].abs()))
    } else if y.less(z) {
        (scale[2].abs(), scale[0].abs().max(scale[1].abs()))
    } else {
        (scale[1].abs(), scale[0].abs().max(scale[2].abs()))
    }
}

/// A collider of the scene.
#[derive(Debug, Clone)]
pub struct ColliderRequest {
    pub entity: u64,
    pub shape: ColliderShape,
    /// The mesh of the entity.
    pub mesh: Option<u64>,
    /// The meshes of its children, in their order.
    pub child_meshes: Vec<Option<u64>>,
}

/// What the world and the scene know of the entities.
pub struct Entities {
    /// The parent of each entity that has one.
    pub parents: HashMap<u64, u64>,
    /// The entities that are bodies of the world.
    pub attached: HashSet<u64>,
    /// The roots of articulations.
    pub roots: HashSet<u64>,
    /// The body of each entity that is one.
    pub bodies: HashMap<u64, Handle>,
    /// How the body of each entity that is one was built.
    pub plans: HashMap<u64, BodyPlan>,
    /// The meshes that have been loaded.
    pub loaded: HashSet<u64>,
}

/// Where a collider goes.
#[derive(Debug, Clone, Copy, PartialEq, Eq, Structural)]
pub struct ColliderPlan {
    pub entity: u64,
    /// The entity of the body that the collider belongs to: its place is
    /// measured from there.
    pub body_entity: Option<u64>,
    /// The body to insert it under; without one it is inserted by itself.
    pub body: Option<Handle>,
    pub groups: Option<Groups>,
    /// Whether forces move the body that it belongs to.
    pub is_dynamic: bool,
    /// The density that gives the body that it belongs to its mass.
    pub density: Option<Single>,
    /// The mesh it is made of, where it is made of one.
    pub mesh: Option<u64>,
    /// Whether it is turned from the axis that the world builds such shapes
    /// along to the one it is authored along. Capsules are built between two
    /// ends, and lie along theirs already.
    pub remap_axis: bool,
}

/// The first mesh among those of the children.
pub open spec fn first_mesh(meshes: Seq<Option<u64>>) -> Option<u64>
    decreases meshes.len(),
{
    if meshes.len() == 0 {
        None
    } else if meshes[0] is Some {
        meshes[0]
    } else {
        first_mesh(meshes.skip(1))
    }
}

/// The mesh that a collider is made of: that of the entity, or else the first
/// one among its children.
pub open spec fn mesh_of(q: ColliderRequest) -> Option<u64> {
    if q.mesh is Some {
        q.mesh
    } else {
        first_mesh(q.child_meshes@)
    }
}

/// Whether a collider can be built: one of a mesh needs the mesh to be loaded.
pub open spec fn is_ready(q: ColliderRequest, loaded: Set<u64>) -> bool {
    q.shape is Mesh ==> (mesh_of(q) matches Some(m) && loaded.contains(m))
}

/// How the body that a collider belongs to was built.
pub open spec fn body_plan(body_entity: Option<u64>, plans: Map<u64, BodyPlan>) -> Option<BodyPlan> {
    match body_entity {
        Some(e) => lookup(plans, e),
        None => None,
    }
}

/// The density that gives a body its mass.
pub open spec fn density_of(mass: MassPlan) -> Option<Single> {
    match mass {
        MassPlan::Density { density } => Some(density),
        _ => None,
    }
}

/// Whether a plan is the one for a collider.
pub open spec fn is_collider_plan(plan: ColliderPlan, q: ColliderRequest, known: Entities) -> bool {
    &&& plan.entity == q.entity
    &&& is_nearest(known.parents@, known.attached@, q.entity, plan.body_entity)
    &&& plan.body == match plan.body_entity {
        Some(e) => lookup(known.bodies@, e),
        None => None,
    }
    &&& plan.is_dynamic == (body_plan(plan.body_entity, known.plans@) matches Some(b) && b.body_type
        == BodyType::Dynamic)
    &&& plan.density == match body_plan(plan.body_entity, known.plans@) {
        Some(b) => density_of(b.mass),
        None => None,
    }
    &&& plan.groups matches Some(groups) ==> exists|root: u64|
        is_nearest(known.parents@, known.roots@, q.entity, Some(root)) && groups
            == #[trigger] groups_of(root)
    &&& plan.groups is None ==> is_nearest(known.parents@, known.roots@, q.entity, None)
    &&& plan.mesh == if q.shape is Mesh {
        mesh_of(q)
    } else {
        None
    }
    &&& plan.remap_axis == (q.shape is Cylinder)
}

/// Finds the mesh that a collider is made of.
fn find_mesh(q: &ColliderRequest) -> (r: Option<u64>)
    ensures
        r == mesh_of(*q),
{
    if let Some(m) = q.mesh {
        return Some(m);
    }
    let meshes: &Vec<Option<u64>> = &q.child_meshes;
    let mut i: usize = 0;
    assert(meshes@.skip(0) =~= meshes@);
    while i < meshes.len()
        invariant
            i <= meshes.len(),
            q.mesh is None,
            meshes == &q.child_meshes,
            first_mesh(meshes@) == first_mesh(meshes@.skip(i as int)),
        decreases meshes.len() - i,
    {
        if let Some(m) = meshes[i] {
            return Some(m);
        }
        assert(meshes@.skip(i as int).skip(1) =~= meshes@.skip(i + 1));
        i = i + 1;
    }
    None
}

/// Decides where a collider goes. One of a mesh that is not loaded goes nowhere
/// yet, and is looked at again.
pub fn plan_collider(q: &ColliderRequest, known: &Entities) -> (r: Option<ColliderPlan>)
    requires
        is_forest(known.parents@),
    ensures
        match r {
            Some(plan) => is_ready(*q, known.loaded@) && is_collider_plan(plan, *q, *known),
            None => !is_ready(*q, known.loaded@),
        },
{
    broadcast use vstd::std_specs::hash::group_hash_axioms;

    let mesh: Option<u64> = match q.shape {
        ColliderShape::Mesh => match find_mesh(q) {
            Some(m) => {
                if !known.loaded.contains(&m) {
                    return None;
                }
                Some(m)
            },
            None => return None,
        },
        _ => None,
    };
    let body_entity: Option<u64> = find_body_ancestor(q.entity, &known.parents, &known.attached);
    let body: Option<Handle> = match body_entity {
        Some(e) => find_entry(&known.bodies, e),
        None => None,
    };
    let built: Option<BodyPlan> = match body_entity {
        Some(e) => find_entry(&known.plans, e),
        None => None,
    };
    let is_dynamic: bool = match built {
        Some(b) => b.body_type == BodyType::Dynamic,
        None => false,
    };
    let density: Option<Single> = match built {
        Some(BodyPlan { mass: MassPlan::Density { density }, .. }) => Some(density),
        _ => None,
    };
    let groups: Option<Groups> = match find_articulation_root_ancestor(
        q.entity,
        &known.parents,
        &known.roots,
    ) {
        Some(root) => Some(articulation_groups(root)),
        None => None,
    };
    let remap_axis: bool = match q.shape {
        ColliderShape::Cylinder { .. } => true,
        _ => false,
    };
    Some(
        ColliderPlan {
            entity: q.entity,
            body_entity,
            body,
            groups,
            is_dynamic,
            density,
            mesh,
            remap_axis,
        },
    )
}

/// Whether `plans` are the plans for the colliders that can be built, in their
/// order.
pub open spec fn are_collider_plans(
    plans: Seq<ColliderPlan>,
    requests: Seq<ColliderRequest>,
    known: Entities,
) -> bool
    decreases requests.len(),
{
    if requests.len() == 0 {
        plans.len() == 0
    } else if is_ready(requests.last(), known.loaded@) {
        &&& plans.len() > 0
        &&& is_collider_plan(plans.last(), requests.last(), known)
        &&& are_collider_plans(plans.drop_last(), requests.drop_last(), known)
    } else {
        are_collider_plans(plans, requests.drop_last(), known)
    }
}

/// Decides where the colliders go that the world does not have yet.
pub fn convert_colliders(requests: &Vec<ColliderRequest>, known: &Entities) -> (r: Vec<ColliderPlan>)
    requires
        is_forest(known.parents@),
    ensures
        are_collider_plans(r@, requests@, *known),
{
    let mut out: Vec<ColliderPlan> = Vec::new();
    let mut i: usize = 0;
    while i < requests.len()
        invariant
            i <= requests.len(),
            is_forest(known.parents@),
            are_collider_plans(out@, requests@.take(i as int), *known),
        decreases requests.len() - i,
    {
        let ghost before = out@;
        let plan: Option<ColliderPlan> = plan_collider(&requests[i], known);
        if let Some(plan) = plan {
            out.push(plan);
        }
        proof {
            let next = requests@.take(i + 1);
            assert(next.drop_last() =~= requests@.take(i as int));
            assert(next.last() == requests@[i as int]);
            if plan is Some {
                assert(out@.drop_last() =~= before);
            }
        }
        i = i + 1;
    }
    assert(requests@.take(i as int) =~= requests@);
    out
}

/// The groups of a collider are settled by the scene: two plans for it never
/// differ.
pub proof fn plans_agree(a: ColliderPlan, b: ColliderPlan, q: ColliderRequest, known: Entities)
    requires
        is_collider_plan(a, q, known),
        is_collider_plan(b, q, known),
    ensures
        a == b,
{
    nearest_is_unique(known.parents@, known.attached@, q.entity, a.body_entity, b.body_entity);
    let root_a: Option<u64> = match a.groups {
        Some(groups) => Some(
            choose|root: u64|
                is_nearest(known.parents@, known.roots@, q.entity, Some(root)) && groups
                    == #[trigger] groups_of(root),
        ),
        None => None,
    };
    let root_b: Option<u64> = match b.groups {
        Some(groups) => Some(
            choose|root: u64|
                is_nearest(known.parents@, known.roots@, q.entity, Some(root)) && groups
                    == #[trigger] groups_of(root),
        ),
        None => None,
    };
    nearest_is_unique(known.parents@, known.roots@, q.entity, root_a, root_b);
}

/// A collider of triangles is never built for a body that forces move, wherever
/// below the body the collider sits.
pub proof fn moving_bodies_are_convex(
    plan: ColliderPlan,
    q: ColliderRequest,
    known: Entities,
    mesh: MeshPlan,
    approximation: Option<CollisionApprox>,
    indices: Option<Vec<u32>>,
    vertices: usize,
)
    requires
        is_collider_plan(plan, q, known),
        body_plan(plan.body_entity, known.plans@) matches Some(b) && b.body_type
            == BodyType::Dynamic,
        is_mesh_plan(mesh, approximation, plan.is_dynamic, indices, vertices),
    ensures
        !(mesh is TriMesh),
{
}

/// The friction and the restitution of a material of the scene.
#[derive(Debug, Clone, Copy)]
pub struct MaterialMarker {
    pub static_friction: Option<Single>,
    pub dynamic_friction: Option<Single>,
    pub restitution: Option<Single>,
}

/// What to set on a collider.
#[derive(Debug, Clone, Copy, PartialEq, Eq, Structural)]
pub struct MaterialPlan {
    pub collider: Handle,
    pub friction: Single,
    pub restitution: Option<Single>,
}

/// The bits of `0.5`: the friction where a material gives none.
pub const DEFAULT_FRICTION: u32 = 0x3f00_0000;

/// The friction of a material: that of moving, or else that of resting.
pub open spec fn friction_of(m: MaterialMarker) -> Single {
    match (m.dynamic_friction, m.static_friction) {
        (Some(x), _) => x,
        (None, Some(x)) => x,
        (None, None) => Single { bits: DEFAULT_FRICTION },
    }
}

/// What to set on the collider of an entity: nothing where it has no material,
/// or is not in the world.
pub open spec fn material_plan_of(
    entity: u64,
    material: Option<MaterialMarker>,
    colliders: Map<u64, Handle>,
) -> Option<MaterialPlan> {
    match (material, lookup(colliders, entity)) {
        (Some(m), Some(collider)) => Some(
            MaterialPlan { collider, friction: friction_of(m), restitution: m.restitution },
        ),
        _ => None,
    }
}

/// Decides what to set on the collider of an entity.
pub fn plan_material(
    entity: u64,
    material: &Option<MaterialMarker>,
    colliders: &HashMap<u64, Handle>,
) -> (r: Option<MaterialPlan>)
    ensures
        r == material_plan_of(entity, *material, colliders@),
{
    let m: MaterialMarker = match material {
        Some(m) => *m,
        None => return None,
    };
    let collider: Handle = match find_entry(colliders, entity) {
        Some(collider) => collider,
        None => return None,
    };
    let friction: Single = match (m.dynamic_friction, m.static_friction) {
        (Some(x), _) => x,
        (None, Some(x)) => x,
        (None, None) => Single { bits: DEFAULT_FRICTION },
    };
    Some(MaterialPlan { collider, friction, restitution: m.restitution })
}

/// What to set on the colliders of a list of entities.
pub open spec fn material_plans(
    list: Seq<(u64, Option<MaterialMarker>)>,
    colliders: Map<u64, Handle>,
) -> Seq<MaterialPlan>
    decreases list.len(),
{
    if list.len() == 0 {
        seq![]
    } else {
        let front = material_plans(list.drop_last(), colliders);
        match material_plan_of(list.last().0, list.last().1, colliders) {
            Some(plan) => front.push(plan),
            None => front,
        }
    }
}

/// Decides what to set on the colliders that have appeared, each given with the
/// material bound to it.
pub fn apply_physics_materials(
    list: &Vec<(u64, Option<MaterialMarker>)>,
    colliders: &HashMap<u64, Handle>,
) -> (r: Vec<MaterialPlan>)
    ensures
        r@ == material_plans(list@, colliders@),
{
    let mut out: Vec<MaterialPlan> = Vec::new();
    let mut i: usize = 0;
    while i < list.len()
        invariant
            i <= list.len(),
            out@ == material_plans(list@.take(i as int), colliders@),
        decreases list.len() - i,
    {
        proof {
            assert(list@.take(i + 1).drop_last() =~= list@.take(i as int));
        }
        if let Some(plan) = plan_material(list[i].0, &list[i].1, colliders) {
            out.push(plan);
        }
        i = i + 1;
    }
    assert(list@.take(i as int) =~= list@);
    out
}

} // verus!
