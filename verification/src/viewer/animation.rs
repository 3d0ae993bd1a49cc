//! Animation: what the clock moves.

use crate::ieee::{Single, SINGLE_ONE};
use crate::text::{same_text, texts};
use crate::xform::Axis;
use std::collections::HashSet;
use vstd::prelude::*;

verus! {

/// Decides how a prim that is animated about single axes is turned: about the
/// last axis, in the order second, first, third, that has an angle now. A prim
/// without one keeps its rotation.
pub fn animated_rotation(
    rotate_y: Option<Single>,
    rotate_x: Option<Single>,
    rotate_z: Option<Single>,
) -> (r: Option<(Axis, Single)>)
    ensures
        r == match (rotate_z, rotate_x, rotate_y) {
            (Some(degrees), _, _) => Some((Axis::Z, degrees)),
            (None, Some(degrees), _) => Some((Axis::X, degrees)),
            (None, None, Some(degrees)) => Some((Axis::Y, degrees)),
            (None, None, None) => None,
        },
{
    match (rotate_z, rotate_x, rotate_y) {
        (Some(degrees), _, _) => Some((Axis::Z, degrees)),
        (None, Some(degrees), _) => Some((Axis::X, degrees)),
        (None, None, Some(degrees)) => Some((Axis::Y, degrees)),
        (None, None, None) => None,
    }
}

/// The joints that an animation moves: each with the channel that moves it.
pub struct SkelPlan {
    pub writes: Vec<(usize, u64)>,
    /// How many channels move nothing.
    pub misses: usize,
    /// The joint that reports look at: the first one from the eleventh channel
    /// on.
    pub probe: Option<u64>,
}

/// How many channels are passed over to find the joint that reports look at.
pub const PROBE_SKIP: usize = 10;

/// The channels whose joint is there, each with it.
pub open spec fn skel_writes(joints: Seq<Option<u64>>, present: Set<u64>) -> Seq<(usize, u64)>
    decreases joints.len(),
{
    if joints.len() == 0 {
        seq![]
    } else {
        let front = skel_writes(joints.drop_last(), present);
        match joints.last() {
            Some(e) => if present.contains(e) {
                front.push(((joints.len() - 1) as usize, e))
            } else {
                front
            },
            None => front,
        }
    }
}

/// The first joint of a list.
pub open spec fn first_joint(joints: Seq<Option<u64>>) -> Option<u64>
    decreases joints.len(),
{
    if joints.len() == 0 {
        None
    } else if joints[0] is Some {
        joints[0]
    } else {
        first_joint(joints.skip(1))
    }
}

/// Finds the first joint of a list, from a place on.
fn find_joint(joints: &Vec<Option<u64>>, from: usize) -> (r: Option<u64>)
    ensures
        r == if from <= joints.len() {
            first_joint(joints@.skip(from as int))
        } else {
            None
        },
{
    if from > joints.len() {
        return None;
    }
    let mut i: usize = from;
    while i < joints.len()
        invariant
            from <= i <= joints.len(),
            first_joint(joints@.skip(from as int)) == first_joint(joints@.skip(i as int)),
        decreases joints.len() - i,
    {
        if let Some(e) = joints[i] {
            return Some(e);
        }
        assert(joints@.skip(i as int).skip(1) =~= joints@.skip(i + 1));
        i = i + 1;
    }
    None
}

/// Decides which joints an animation moves: those that its channels are bound to
/// and that are there.
pub fn drive_skel_animations(joints: &Vec<Option<u64>>, present: &HashSet<u64>) -> (r: SkelPlan)
    ensures
        r.writes@ == skel_writes(joints@, present@),
        r.misses == joints.len() - r.writes.len(),
        r.probe == if PROBE_SKIP <= joints.len() {
            first_joint(joints@.skip(PROBE_SKIP as int))
        } else {
            None
        },
{
    broadcast use vstd::std_specs::hash::group_hash_axioms;

    let mut writes: Vec<(usize, u64)> = Vec::new();
    let mut misses: usize = 0;
    let mut i: usize = 0;
    while i < joints.len()
        invariant
            i <= joints.len(),
            writes@ == skel_writes(joints@.take(i as int), present@),
            misses == i - writes.len(),
        decreases joints.len() - i,
    {
        proof {
            assert(joints@.take(i + 1).drop_last() =~= joints@.take(i as int));
        }
        let mut hit: bool = false;
        if let Some(e) = joints[i] {
            if present.contains(&e) {
                writes.push((i, e));
                hit = true;
            }
        }
        if !hit {
            misses = misses + 1;
        }
        i = i + 1;
    }
    assert(joints@.take(i as int) =~= joints@);
    SkelPlan { writes, misses, probe: find_joint(joints, PROBE_SKIP) }
}

/// What to report of a driven skeleton.
#[derive(Debug, Clone, Copy, PartialEq, Eq, Structural)]
pub enum SkelReport {
    Nothing,
    /// The first frame in which it has channels.
    First,
    /// Every thirtieth frame.
    Periodic,
}

/// Decides what to report of a driven skeleton.
pub fn skel_report(emitted: &mut bool, channels: usize, tick: u32) -> (r: SkelReport)
    ensures
        r == if !*old(emitted) && channels > 0 {
            SkelReport::First
        } else if tick % 30 == 0 {
            SkelReport::Periodic
        } else {
            SkelReport::Nothing
        },
        *final(emitted) == (*old(emitted) || channels > 0),
{
    if !*emitted && channels > 0 {
        *emitted = true;
        SkelReport::First
    } else if tick % 30 == 0 {
        SkelReport::Periodic
    } else {
        SkelReport::Nothing
    }
}

/// The weights of an animation's blend shapes, now.
pub struct BlendDriver {
    pub names: Vec<String>,
    pub weights: Vec<Single>,
}

/// A mesh that blend shapes deform.
pub struct MorphMesh {
    /// The shapes that it has.
    pub names: Vec<String>,
    /// How far each is followed.
    pub weights: Vec<Single>,
}

/// The weight of a shape: that of the last channel of its name; zero without
/// one.
pub open spec fn weight_of(driver: BlendDriver, name: Seq<char>) -> Single {
    match texts(driver.names@).index_of_last(name) {
        Some(i) => if i < driver.weights.len() {
            driver.weights@[i]
        } else {
            Single { bits: 0 }
        },
        None => Single { bits: 0 },
    }
}

/// The weights of a mesh after a frame: those of its shapes, as far as there is
/// room for them; all of them one where that is forced.
pub open spec fn driven_weights(driver: BlendDriver, mesh: MorphMesh, force_all: bool) -> Seq<
    Single,
> {
    Seq::new(
        mesh.weights@.len(),
        |slot: int|
            if slot >= mesh.names.len() {
                mesh.weights@[slot]
            } else if force_all {
                Single { bits: SINGLE_ONE }
            } else {
                weight_of(driver, mesh.names@[slot]@)
            },
    )
}

/// How many shapes of a mesh are driven.
pub open spec fn driven_count(mesh: MorphMesh) -> int {
    if mesh.names.len() <= mesh.weights.len() {
        mesh.names.len() as int
    } else {
        mesh.weights.len() as int
    }
}

/// Finds the weight of a shape.
fn find_weight(driver: &BlendDriver, name: &str) -> (r: Single)
    ensures
        r == weight_of(*driver, name@),
{
    let ghost all = texts(driver.names@);
    proof {
        all.index_of_last_ensures(name@);
    }
    let mut i: usize = driver.names.len();
    while i > 0
        invariant
            i <= driver.names.len(),
            all == texts(driver.names@),
            forall|j: int| i <= j < all.len() ==> all[j] != name@,
            match all.index_of_last(name@) {
                Some(k) => {
                    &&& 0 <= k < all.len()
                    &&& all[k] == name@
                    &&& forall|j: int| k < j < all.len() ==> all[j] != name@
                },
                None => !all.contains(name@),
            },
        decreases i,
    {
        i = i - 1;
        if same_text(driver.names[i].as_str(), name) {
            assert(all[i as int] == name@);
            assert(all.contains(name@));
            if i < driver.weights.len() {
                return driver.weights[i];
            }
            return Single { bits: 0 };
        }
    }
    Single { bits: 0 }
}

/// The weights of a mesh after a frame, and how many of them are driven.
pub fn drive_mesh(driver: &BlendDriver, mesh: &MorphMesh, force_all: bool) -> (r: (
    Vec<Single>,
    usize,
))
    ensures
        r.0@ == driven_weights(*driver, *mesh, force_all),
        r.1 == driven_count(*mesh),
{
    let mut out: Vec<Single> = Vec::new();
    let mut driven: usize = 0;
    let mut slot: usize = 0;
    while slot < mesh.weights.len()
        invariant
            slot <= mesh.weights.len(),
            out@ == driven_weights(*driver, *mesh, force_all).take(slot as int),
            driven == if slot <= mesh.names.len() {
                slot
            } else {
                mesh.names.len()
            },
        decreases mesh.weights.len() - slot,
    {
        if slot >= mesh.names.len() {
            out.push(mesh.weights[slot]);
        } else {
            let w: Single = if force_all {
                Single { bits: SINGLE_ONE }
            } else {
                find_weight(driver, mesh.names[slot].as_str())
            };
            out.push(w);
            driven = driven + 1;
        }
        assert(out@ =~= driven_weights(*driver, *mesh, force_all).take(slot + 1));
        slot = slot + 1;
    }
    assert(out@ =~= driven_weights(*driver, *mesh, force_all));
    (out, driven)
}

/// The weights of the meshes of a scene after a frame.
pub struct BlendUpdate {
    pub weights: Vec<Vec<Single>>,
    /// How many weights were driven on each mesh.
    pub targets: Vec<usize>,
}

/// Decides the weights of the meshes of a scene: those that the first animation
/// gives. Without an animation, or one without weights, they stay.
pub fn drive_blend_shape_weights(
    driver: &Option<BlendDriver>,
    meshes: &Vec<MorphMesh>,
    force_all: bool,
) -> (r: Option<BlendUpdate>)
    ensures
        r is Some <==> (*driver matches Some(d) && d.weights.len() > 0),
        r matches Some(update) ==> {
            &&& update.weights.len() == meshes.len()
            &&& update.targets.len() == meshes.len()
            &&& forall|i: int|
                0 <= i < meshes.len() ==> #[trigger] update.weights@[i]@ == driven_weights(
                    (*driver)->0,
                    meshes@[i],
                    force_all,
                )
            &&& forall|i: int|
                0 <= i < meshes.len() ==> #[trigger] update.targets@[i] == driven_count(meshes@[i])
        },
{
    let d: &BlendDriver = match driver {
        Some(d) => d,
        None => return None,
    };
    if d.weights.len() == 0 {
        return None;
    }
    let mut weights: Vec<Vec<Single>> = Vec::new();
    let mut targets: Vec<usize> = Vec::new();
    let mut i: usize = 0;
    while i < meshes.len()
        invariant
            i <= meshes.len(),
            weights.len() == i,
            targets.len() == i,
            forall|j: int|
                0 <= j < i ==> #[trigger] weights@[j]@ == driven_weights(*d, meshes@[j], force_all),
            forall|j: int| 0 <= j < i ==> #[trigger] targets@[j] == driven_count(meshes@[j]),
        decreases meshes.len() - i,
    {
        let (w, n) = drive_mesh(d, &meshes[i], force_all);
        weights.push(w);
        targets.push(n);
        i = i + 1;
    }
    Some(BlendUpdate { weights, targets })
}

/// A shape that no channel of the animation names is not followed.
pub proof fn unnamed_shapes_rest(driver: BlendDriver, name: Seq<char>)
    requires
        !texts(driver.names@).contains(name),
    ensures
        weight_of(driver, name) == (Single { bits: 0 }),
{
    texts(driver.names@).index_of_last_ensures(name);
}

/// The channels that move joints are listed in rising order.
pub proof fn channels_rise(joints: Seq<Option<u64>>, present: Set<u64>, a: int, b: int)
    requires
        joints.len() <= usize::MAX,
        0 <= a < b < skel_writes(joints, present).len(),
    ensures
        skel_writes(joints, present)[a].0 < skel_writes(joints, present)[b].0 < joints.len(),
    decreases joints.len(),
{
    let front = skel_writes(joints.drop_last(), present);
    lemma_channels_in_range(joints.drop_last(), present, a);
    if b < front.len() {
        channels_rise(joints.drop_last(), present, a, b);
    }
}

/// The channels that move joints are channels.
proof fn lemma_channels_in_range(joints: Seq<Option<u64>>, present: Set<u64>, a: int)
    requires
        joints.len() <= usize::MAX,
    ensures
        0 <= a < skel_writes(joints, present).len() ==> skel_writes(joints, present)[a].0
            < joints.len(),
    decreases joints.len(),
{
    if joints.len() > 0 {
        lemma_channels_in_range(joints.drop_last(), present, a);
    }
}

} // verus!
