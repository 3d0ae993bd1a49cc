//! What is drawn, and what is rebuilt when the user moves a slider.

use crate::ieee::{Single, SINGLE_ONE};
use crate::text::{holds_text, texts};
use vstd::prelude::*;

verus! {

/// What the user has switched on.
#[derive(Debug, Clone, Copy, PartialEq)]
pub struct DisplayToggles {
    /// The ground grid, which is the reference plane.
    pub show_world_grid: bool,
    /// The three axes at the origin of the world.
    pub show_world_axes: bool,
    /// Small axes at every prim that has geometry.
    pub show_prim_markers: bool,
    /// By how much these are longer than the scene suggests.
    pub prim_marker_bias: Single,
    /// The bones of skeletons.
    pub show_skeleton: bool,
    pub wireframe: bool,
    /// By how much every light is brighter than authored.
    pub light_intensity_scale: Single,
}

impl Default for DisplayToggles {
    /// The grid is on, and everything else off.
    fn default() -> (r: DisplayToggles)
        ensures
            r == (DisplayToggles {
                show_world_grid: true,
                show_world_axes: false,
                show_prim_markers: false,
                prim_marker_bias: Single { bits: SINGLE_ONE },
                show_skeleton: false,
                wireframe: false,
                light_intensity_scale: Single { bits: SINGLE_ONE },
            }),
    {
        DisplayToggles {
            show_world_grid: true,
            show_world_axes: false,
            show_prim_markers: false,
            prim_marker_bias: Single { bits: SINGLE_ONE },
            show_skeleton: false,
            wireframe: false,
            light_intensity_scale: Single { bits: SINGLE_ONE },
        }
    }
}

/// What is drawn of the skeletons.
#[derive(Debug, Clone, Copy, PartialEq, Eq, Structural)]
pub struct JointGizmos {
    pub bones: bool,
    pub spheres: bool,
}

/// Decides what is drawn of the skeletons: bones where the user or the
/// environment wants them, and spheres at the joints where the environment does.
pub fn draw_joint_gizmos(show_skeleton: bool, forced: bool) -> (r: JointGizmos)
    ensures
        r.bones == (show_skeleton || forced),
        r.spheres == forced,
{
    JointGizmos { bones: show_skeleton || forced, spheres: forced }
}

/// Decides whether the meshes that are there are hidden in this frame: where
/// the environment wants it, until there have been some.
pub fn hide_meshes_on_startup(flag: bool, done: &mut bool, meshes: usize) -> (hide: bool)
    ensures
        hide == (flag && !*old(done)),
        *final(done) == (*old(done) || (hide && meshes > 0)),
{
    if !flag || *done {
        return false;
    }
    if meshes > 0 {
        *done = true;
    }
    true
}

/// The values of the sliders that meshes depend on.
#[derive(Debug, Clone, Copy)]
pub struct TuningKey {
    pub radius: Single,
    pub rings: u32,
    pub point_scale: Single,
}

/// Whether two numbers are the same: a NaN is not even itself, and the two
/// zeros are.
pub open spec fn same_number(a: Single, b: Single) -> bool {
    !a.nan() && !b.nan() && a.place() == b.place()
}

fn is_same_number(a: Single, b: Single) -> (r: bool)
    ensures
        r == same_number(a, b),
{
    !a.is_nan() && !b.is_nan() && !a.less(b) && !b.less(a)
}

/// Whether the sliders stand as they did.
pub open spec fn same_key(a: TuningKey, b: TuningKey) -> bool {
    same_number(a.radius, b.radius) && a.rings == b.rings && same_number(
        a.point_scale,
        b.point_scale,
    )
}

/// Decides whether the tuned meshes are rebuilt: when a slider has moved since
/// the last time.
pub fn tuning_moved(last: &mut Option<TuningKey>, key: TuningKey) -> (moved: bool)
    ensures
        moved == !(*old(last) matches Some(l) && same_key(l, key)),
        *final(last) == if moved {
            Some(key)
        } else {
            *old(last)
        },
{
    if let Some(l) = *last {
        if is_same_number(l.radius, key.radius) && l.rings == key.rings && is_same_number(
            l.point_scale,
            key.point_scale,
        ) {
            return false;
        }
    }
    *last = Some(key);
    true
}

/// How the mesh of a prim is rebuilt.
#[derive(Debug, Clone, Copy, PartialEq, Eq, Structural)]
pub enum Rebuild {
    Curves,
    Points,
    Nothing,
}

/// How the mesh of a prim is rebuilt: as curves where it has any, else as
/// points.
pub open spec fn rebuild_of(
    path: Seq<char>,
    curves: Seq<Seq<char>>,
    points: Seq<Seq<char>>,
) -> Rebuild {
    if curves.contains(path) {
        Rebuild::Curves
    } else if points.contains(path) {
        Rebuild::Points
    } else {
        Rebuild::Nothing
    }
}

/// Decides how the mesh of each prim is rebuilt, from the paths of the prims
/// that have curves and of those that have points.
pub fn rebuild_tuned_meshes(
    prims: &Vec<String>,
    curves: &Vec<String>,
    points: &Vec<String>,
) -> (r: Vec<Rebuild>)
    ensures
        r.len() == prims.len(),
        forall|i: int|
            0 <= i < prims.len() ==> #[trigger] r@[i] == rebuild_of(
                prims@[i]@,
                texts(curves@),
                texts(points@),
            ),
{
    let mut out: Vec<Rebuild> = Vec::new();
    let mut i: usize = 0;
    while i < prims.len()
        invariant
            i <= prims.len(),
            out.len() == i,
            forall|j: int|
                0 <= j < i ==> #[trigger] out@[j] == rebuild_of(
                    prims@[j]@,
                    texts(curves@),
                    texts(points@),
                ),
        decreases prims.len() - i,
    {
        let path: &str = prims[i].as_str();
        let rebuild: Rebuild = if holds_text(curves, path) {
            Rebuild::Curves
        } else if holds_text(points, path) {
            Rebuild::Points
        } else {
            Rebuild::Nothing
        };
        out.push(rebuild);
        i = i + 1;
    }
    out
}

} // verus!
