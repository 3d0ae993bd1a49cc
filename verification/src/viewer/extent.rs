//! The bounds of the scene, and the boxes drawn around its prims.

use crate::ieee::{Single, SINGLE_INFINITY};
use vstd::prelude::*;

verus! {

/// The bounds of everything in the scene. Before anything is there, its lower
/// end is above its upper one.
#[derive(Debug, Clone, Copy, PartialEq)]
pub struct SceneExtent {
    pub min: [Single; 3],
    pub max: [Single; 3],
    /// The number of prims inside.
    pub count: u32,
}

/// The bits of minus infinity.
pub const MINUS_INFINITY: u32 = 0xff80_0000;

/// The lower of two coordinates; the second where either is a NaN.
pub open spec fn lower(a: Single, b: Single) -> Single {
    if a.below(b) {
        a
    } else {
        b
    }
}

/// The upper of two coordinates; the second where either is a NaN.
pub open spec fn upper(a: Single, b: Single) -> Single {
    if b.below(a) {
        a
    } else {
        b
    }
}

fn lower_of(a: Single, b: Single) -> (r: Single)
    ensures
        r == lower(a, b),
{
    if a.less(b) {
        a
    } else {
        b
    }
}

fn upper_of(a: Single, b: Single) -> (r: Single)
    ensures
        r == upper(a, b),
{
    if b.less(a) {
        a
    } else {
        b
    }
}

/// The smallest coordinate of a list of points along an axis; infinity without
/// any.
pub open spec fn lowest(points: Seq<[Single; 3]>, axis: int) -> Single
    decreases points.len(),
{
    if points.len() == 0 {
        Single { bits: SINGLE_INFINITY }
    } else {
        lower(lowest(points.drop_last(), axis), points.last()[axis])
    }
}

/// The largest coordinate of a list of points along an axis; minus infinity
/// without any.
pub open spec fn highest(points: Seq<[Single; 3]>, axis: int) -> Single
    decreases points.len(),
{
    if points.len() == 0 {
        Single { bits: MINUS_INFINITY }
    } else {
        upper(highest(points.drop_last(), axis), points.last()[axis])
    }
}

/// The bounds of a list of points.
pub open spec fn extent_of(points: Seq<[Single; 3]>, count: u32) -> SceneExtent {
    SceneExtent {
        min: [lowest(points, 0), lowest(points, 1), lowest(points, 2)],
        max: [highest(points, 0), highest(points, 1), highest(points, 2)],
        count,
    }
}

impl Default for SceneExtent {
    /// The bounds of nothing.
    fn default() -> (r: SceneExtent)
        ensures
            r == extent_of(seq![], 0),
    {
        let top: Single = Single { bits: SINGLE_INFINITY };
        let bottom: Single = Single { bits: MINUS_INFINITY };
        SceneExtent { min: [top, top, top], max: [bottom, bottom, bottom], count: 0 }
    }
}

/// What is counted of a prim: a box around it, or the point where it is.
#[derive(Debug, Clone, Copy, PartialEq)]
pub enum PrimBounds {
    Box { low: [Single; 3], high: [Single; 3] },
    Point,
}

/// Decides what is counted of a prim: the box that was authored for it, else
/// that of its rendered mesh, else the point where it is.
pub fn prim_bounds(
    authored: Option<([Single; 3], [Single; 3])>,
    rendered: Option<([Single; 3], [Single; 3])>,
) -> (r: PrimBounds)
    ensures
        r == match (authored, rendered) {
            (Some((low, high)), _) => PrimBounds::Box { low, high },
            (None, Some((low, high))) => PrimBounds::Box { low, high },
            (None, None) => PrimBounds::Point,
        },
{
    match (authored, rendered) {
        (Some((low, high)), _) => PrimBounds::Box { low, high },
        (None, Some((low, high))) => PrimBounds::Box { low, high },
        (None, None) => PrimBounds::Point,
    }
}

/// Whether a corner of a box is at the upper end along an axis: the corners are
/// numbered by three binary digits, the last one for the first axis.
pub open spec fn at_upper_end(i: int, axis: int) -> bool {
    if axis == 0 {
        i % 2 == 1
    } else if axis == 1 {
        (i / 2) % 2 == 1
    } else {
        (i / 4) % 2 == 1
    }
}

/// A corner of a box.
pub fn box_corner(i: usize, low: &[Single; 3], high: &[Single; 3]) -> (r: [Single; 3])
    requires
        i < 8,
    ensures
        forall|axis: int|
            0 <= axis < 3 ==> #[trigger] r[axis] == if at_upper_end(i as int, axis) {
                high[axis]
            } else {
                low[axis]
            },
{
    let x: Single = if i % 2 == 1 { high[0] } else { low[0] };
    let y: Single = if (i / 2) % 2 == 1 { high[1] } else { low[1] };
    let z: Single = if (i / 4) % 2 == 1 { high[2] } else { low[2] };
    [x, y, z]
}

/// Every choice of ends is that of one of the eight corners.
pub proof fn corners_are_all_choices(x: bool, y: bool, z: bool) -> (i: int)
    ensures
        0 <= i < 8,
        at_upper_end(i, 0) == x,
        at_upper_end(i, 1) == y,
        at_upper_end(i, 2) == z,
{
    (if x { 1int } else { 0 }) + (if y { 2int } else { 0 }) + (if z { 4int } else { 0 })
}

/// The bounds of a scene of `count` prims, from the corners of their boxes, or
/// their origins, in the world.
pub fn compute_extent(points: &Vec<[Single; 3]>, count: u32) -> (r: SceneExtent)
    ensures
        r == extent_of(points@, count),
{
    let mut out: SceneExtent = SceneExtent::default();
    out.count = count;
    let mut i: usize = 0;
    assert(points@.take(0) =~= seq![]);
    while i < points.len()
        invariant
            i <= points.len(),
            out == extent_of(points@.take(i as int), count),
        decreases points.len() - i,
    {
        let p: [Single; 3] = points[i];
        proof {
            assert(points@.take(i + 1).drop_last() =~= points@.take(i as int));
        }
        out = SceneExtent {
            min: [
                lower_of(out.min[0], p[0]),
                lower_of(out.min[1], p[1]),
                lower_of(out.min[2], p[2]),
            ],
            max: [
                upper_of(out.max[0], p[0]),
                upper_of(out.max[1], p[1]),
                upper_of(out.max[2], p[2]),
            ],
            count,
        };
        i = i + 1;
    }
    assert(points@.take(i as int) =~= points@);
    out
}

/// The bounds of a list of points hold every one of them, along each axis along
/// which all have a place.
pub proof fn extent_holds_its_points(points: Seq<[Single; 3]>, i: int, axis: int)
    requires
        0 <= i < points.len(),
        0 <= axis < 3,
        forall|k: int| 0 <= k < points.len() ==> !(#[trigger] points[k])[axis].nan(),
    ensures
        lowest(points, axis).place() <= points[i][axis].place() <= highest(points, axis).place(),
    decreases points.len(),
{
    let front = points.drop_last();
    assert forall|k: int| 0 <= k < front.len() implies !(#[trigger] front[k])[axis].nan() by {
        assert(front[k] == points[k]);
    }
    lemma_bounds_are_numbers(front, axis);
    if i < points.len() - 1 {
        assert(front[i] == points[i]);
        extent_holds_its_points(front, i, axis);
    }
}

/// The bounds of a list of points that all have a place are no NaNs.
proof fn lemma_bounds_are_numbers(points: Seq<[Single; 3]>, axis: int)
    requires
        forall|k: int| 0 <= k < points.len() ==> !(#[trigger] points[k])[axis].nan(),
    ensures
        !lowest(points, axis).nan(),
        !highest(points, axis).nan(),
    decreases points.len(),
{
    if points.len() > 0 {
        let front = points.drop_last();
        assert forall|k: int| 0 <= k < front.len() implies !(#[trigger] front[k])[axis].nan() by {
            assert(front[k] == points[k]);
        }
        lemma_bounds_are_numbers(front, axis);
    }
}

/// Whether a corner of the box around a selected prim is at the upper end along
/// each axis: the corners go around the bottom, then around the top.
pub open spec fn outline_corner(i: int) -> (bool, bool, bool) {
    (i % 4 == 1 || i % 4 == 2, i % 4 == 2 || i % 4 == 3, i >= 4)
}

/// A corner of the box around a selected prim.
pub fn highlight_corner(i: usize) -> (r: (bool, bool, bool))
    requires
        i < 8,
    ensures
        r == outline_corner(i as int),
{
    (i % 4 == 1 || i % 4 == 2, i % 4 == 2 || i % 4 == 3, i >= 4)
}

/// The edges of the box around a selected prim, each by the corners it joins:
/// four around the bottom, four around the top, and four between.
pub open spec fn outline_edge(k: int) -> (int, int) {
    if k < 4 {
        (k, (k + 1) % 4)
    } else if k < 8 {
        (k, 4 + (k + 1) % 4)
    } else {
        (k - 8, k - 4)
    }
}

/// An edge of the box around a selected prim.
pub fn highlight_edge(k: usize) -> (r: (usize, usize))
    requires
        k < 12,
    ensures
        r.0 == outline_edge(k as int).0,
        r.1 == outline_edge(k as int).1,
        r.0 < 8,
        r.1 < 8,
{
    if k < 4 {
        (k, (k + 1) % 4)
    } else if k < 8 {
        (k, 4 + (k + 1) % 4)
    } else {
        (k - 8, k - 4)
    }
}

/// The number of axes along which two corners are at different ends.
pub open spec fn distance(a: (bool, bool, bool), b: (bool, bool, bool)) -> int {
    (if a.0 != b.0 { 1int } else { 0 }) + (if a.1 != b.1 { 1int } else { 0 }) + (if a.2 != b.2 {
        1int
    } else {
        0
    })
}

/// Every line of the outline is an edge of the box: its ends differ along one
/// axis.
pub proof fn outline_follows_the_edges(k: int)
    requires
        0 <= k < 12,
    ensures
        distance(outline_corner(outline_edge(k).0), outline_corner(outline_edge(k).1)) == 1,
{
    assert(k == 0 || k == 1 || k == 2 || k == 3 || k == 4 || k == 5 || k == 6 || k == 7 || k == 8
        || k == 9 || k == 10 || k == 11);
}

/// Every edge of the box is a line of the outline.
pub proof fn outline_has_every_edge(a: int, b: int) -> (k: int)
    requires
        0 <= a < 8,
        0 <= b < 8,
        distance(outline_corner(a), outline_corner(b)) == 1,
    ensures
        0 <= k < 12,
        outline_edge(k) == (a, b) || outline_edge(k) == (b, a),
{
    assert(a == 0 || a == 1 || a == 2 || a == 3 || a == 4 || a == 5 || a == 6 || a == 7);
    assert(b == 0 || b == 1 || b == 2 || b == 3 || b == 4 || b == 5 || b == 6 || b == 7);
    if a < 4 && b >= 4 {
        a + 8
    } else if a >= 4 && b < 4 {
        b + 8
    } else if a < 4 {
        if b == (a + 1) % 4 {
            a
        } else {
            b
        }
    } else {
        if b == 4 + (a + 1) % 4 {
            a
        } else {
            b
        }
    }
}

} // verus!
