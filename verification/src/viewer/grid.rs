//! The ground grid: which lines and dots it has, and the triangles that draw
//! them.
//!
//! Where the vertices are is left to the caller, who adds them in the order in
//! which the triangles count them.

use crate::ieee::{Single, SINGLE_ONE};
use vstd::prelude::*;

verus! {

/// The number of pieces that a line is cut into, so that it can fade along its
/// length.
pub const LINE_SEGMENTS: u32 = 20;

/// The number of vertices of a line: two at each end of each piece.
pub const LINE_VERTICES: u32 = 42;

/// The number of triangle corners of a line: two triangles for each piece.
pub const LINE_CORNERS: u32 = 120;

/// The number of sides of a dot.
pub const DOT_SEGMENTS: u32 = 12;

/// The number of vertices of a dot: its centre, and its rim.
pub const DOT_VERTICES: u32 = 13;

/// The corners of the two triangles between one pair of vertices and the next.
pub open spec fn piece(first: int, s: int) -> Seq<u32> {
    let base = first + 2 * s;
    seq![
        base as u32,
        (base + 1) as u32,
        (base + 3) as u32,
        base as u32,
        (base + 3) as u32,
        (base + 2) as u32,
    ]
}

/// The corners of the first `n` pieces of a line whose vertices start at
/// `first`.
pub open spec fn pieces(first: int, n: nat) -> Seq<u32>
    decreases n,
{
    if n == 0 {
        seq![]
    } else {
        pieces(first, (n - 1) as nat) + piece(first, n - 1)
    }
}

/// The corners of a line.
pub open spec fn line_corners(first: int) -> Seq<u32> {
    pieces(first, LINE_SEGMENTS as nat)
}

/// The corners of one slice of a dot of `segments` sides.
pub open spec fn slice(centre: int, step: int, segments: int) -> Seq<u32> {
    seq![
        centre as u32,
        (centre + 1 + step) as u32,
        (centre + 1 + (step + 1) % segments) as u32,
    ]
}

/// The corners of the first `n` slices of a dot of `segments` sides.
pub open spec fn slices(centre: int, n: nat, segments: int) -> Seq<u32>
    decreases n,
{
    if n == 0 {
        seq![]
    } else {
        slices(centre, (n - 1) as nat, segments) + slice(centre, n - 1, segments)
    }
}

/// Adds the triangles of a line whose vertices start at `first`, and returns
/// where the next vertices start.
pub fn push_line_segmented(indices: &mut Vec<u32>, first: u32) -> (next: u32)
    requires
        first + LINE_VERTICES <= u32::MAX,
    ensures
        final(indices)@ == old(indices)@ + line_corners(first as int),
        next == first + LINE_VERTICES,
{
    let ghost before = indices@;
    let mut s: u32 = 0;
    while s < LINE_SEGMENTS
        invariant
            s <= LINE_SEGMENTS,
            first + LINE_VERTICES <= u32::MAX,
            indices@ == before + pieces(first as int, s as nat),
        decreases LINE_SEGMENTS - s,
    {
        let base: u32 = first + s * 2;
        let ghost here = indices@;
        indices.push(base);
        indices.push(base + 1);
        indices.push(base + 3);
        indices.push(base);
        indices.push(base + 3);
        indices.push(base + 2);
        assert(indices@ =~= here + piece(first as int, s as int));
        assert(indices@ =~= before + pieces(first as int, (s + 1) as nat));
        s = s + 1;
    }
    first + LINE_VERTICES
}

/// Adds the triangles of a dot of `segments` sides whose vertices start at
/// `first`, and returns where the next vertices start.
pub fn push_disc_faded(indices: &mut Vec<u32>, first: u32, segments: u32) -> (next: u32)
    requires
        segments > 0,
        first + 1 + segments <= u32::MAX,
    ensures
        final(indices)@ == old(indices)@ + slices(first as int, segments as nat, segments as int),
        next == first + 1 + segments,
{
    let ghost before = indices@;
    let mut step: u32 = 0;
    while step < segments
        invariant
            step <= segments,
            segments > 0,
            first + 1 + segments <= u32::MAX,
            indices@ == before + slices(first as int, step as nat, segments as int),
        decreases segments - step,
    {
        let wrapped: u32 = if step + 1 == segments { 0 } else { step + 1 };
        proof {
            vstd::arithmetic::div_mod::lemma_small_mod(wrapped as nat, segments as nat);
            if step + 1 == segments {
                vstd::arithmetic::div_mod::lemma_mod_self_0(segments as int);
            }
        }
        let ghost here = indices@;
        indices.push(first);
        indices.push(first + 1 + step);
        indices.push(first + 1 + wrapped);
        assert(indices@ =~= here + slice(first as int, step as int, segments as int));
        assert(indices@ =~= before + slices(first as int, (step + 1) as nat, segments as int));
        step = step + 1;
    }
    first + 1 + segments
}

/// The lines of one layer of the grid, by their number from the middle, and
/// their triangles: first the lines along one direction, then those across it.
pub struct LineLayer {
    pub along: Vec<i32>,
    pub across: Vec<i32>,
    pub indices: Vec<u32>,
    pub vertices: u32,
}

/// The numbers from `-n` on that are not left out, the first `count` of them
/// looked at.
pub open spec fn kept_lines(n: int, left_out: Seq<bool>, count: int) -> Seq<i32>
    decreases count,
{
    if count <= 0 {
        seq![]
    } else {
        let front = kept_lines(n, left_out, count - 1);
        if left_out[count - 1] {
            front
        } else {
            front.push((count - 1 - n) as i32)
        }
    }
}

/// The corners of `n` lines, one after the other.
pub open spec fn lines_corners(n: nat) -> Seq<u32>
    decreases n,
{
    if n == 0 {
        seq![]
    } else {
        lines_corners((n - 1) as nat) + line_corners((n - 1) * LINE_VERTICES)
    }
}

/// The lines of one direction: looks at those numbered `-n` to `n`, keeps those
/// that are not left out, and adds their triangles behind those of `done` lines.
fn add_lines(n: i32, left_out: &Vec<bool>, indices: &mut Vec<u32>, done: u32) -> (r: Vec<i32>)
    requires
        0 <= n < 0x4000_0000,
        left_out.len() == 2 * n + 1,
        (done + 2 * n + 1) * LINE_VERTICES <= u32::MAX,
        old(indices)@ == lines_corners(done as nat),
    ensures
        r@ == kept_lines(n as int, left_out@, 2 * n + 1),
        r.len() <= 2 * n + 1,
        final(indices)@ == lines_corners(done as nat + r@.len()),
{
    let mut kept: Vec<i32> = Vec::new();
    let total: usize = left_out.len();
    let mut i: usize = 0;
    while i < total
        invariant
            i <= total,
            total == left_out.len(),
            left_out.len() == 2 * n + 1,
            0 <= n < 0x4000_0000,
            (done + 2 * n + 1) * LINE_VERTICES <= u32::MAX,
            kept.len() <= i,
            kept@ == kept_lines(n as int, left_out@, i as int),
            indices@ == lines_corners(done as nat + kept@.len()),
        decreases total - i,
    {
        if !left_out[i] {
            let line: u32 = done + kept.len() as u32;
            push_line_segmented(indices, line * LINE_VERTICES);
            kept.push(i as i32 - n);
        }
        i = i + 1;
    }
    kept
}

/// Builds the lines of one layer of the grid: in each direction those numbered
/// `-n` to `n`, without those that `left_out` marks, the one numbered `-n`
/// first. The minor layer leaves out the lines that the major one draws.
pub fn build_grid_lines_mesh(n: i32, left_out: &Vec<bool>) -> (r: LineLayer)
    requires
        0 <= n,
        left_out.len() == 2 * n + 1,
        2 * (2 * n + 1) * LINE_VERTICES <= u32::MAX,
    ensures
        r.along@ == kept_lines(n as int, left_out@, 2 * n + 1),
        r.across@ == r.along@,
        r.indices@ == lines_corners(2 * r.along@.len()),
        r.vertices == 2 * r.along@.len() * LINE_VERTICES,
{
    let mut indices: Vec<u32> = Vec::new();
    let along: Vec<i32> = add_lines(n, left_out, &mut indices, 0);
    let done: u32 = along.len() as u32;
    let across: Vec<i32> = add_lines(n, left_out, &mut indices, done);
    let vertices: u32 = (done + across.len() as u32) * LINE_VERTICES;
    LineLayer { along, across, indices, vertices }
}

/// Every corner of the first `n` pieces of a line is one of its vertices.
proof fn lemma_pieces_in_range(first: int, n: nat, i: int)
    requires
        0 <= first,
        first + LINE_VERTICES <= u32::MAX,
        n <= LINE_SEGMENTS,
        0 <= i < pieces(first, n).len(),
    ensures
        first <= pieces(first, n)[i] < first + LINE_VERTICES,
    decreases n,
{
    let front = pieces(first, (n - 1) as nat);
    if i < front.len() {
        lemma_pieces_in_range(first, (n - 1) as nat, i);
    } else {
        let k = i - front.len();
        assert(pieces(first, n)[i] == piece(first, n - 1)[k]);
        assert(k == 0 || k == 1 || k == 2 || k == 3 || k == 4 || k == 5);
    }
}

/// The number of corners of the first `n` pieces of a line.
proof fn lemma_pieces_len(first: int, n: nat)
    ensures
        pieces(first, n).len() == 6 * n,
    decreases n,
{
    if n > 0 {
        lemma_pieces_len(first, (n - 1) as nat);
    }
}

/// Every corner of the triangles of `n` lines is one of their vertices, and
/// there are as many corners as the lines have.
pub proof fn line_corners_are_vertices(n: nat, i: int)
    requires
        n * LINE_VERTICES <= u32::MAX,
        0 <= i < lines_corners(n).len(),
    ensures
        lines_corners(n)[i] < n * LINE_VERTICES,
        lines_corners(n).len() == n * LINE_CORNERS,
    decreases n,
{
    if n > 0 {
        let front = lines_corners((n - 1) as nat);
        lemma_lines_len((n - 1) as nat);
        lemma_pieces_len((n - 1) * LINE_VERTICES, LINE_SEGMENTS as nat);
        if i < front.len() {
            line_corners_are_vertices((n - 1) as nat, i);
        } else {
            lemma_pieces_in_range(
                (n - 1) * LINE_VERTICES,
                LINE_SEGMENTS as nat,
                i - front.len(),
            );
        }
    }
}

/// The number of corners of `n` lines.
proof fn lemma_lines_len(n: nat)
    ensures
        lines_corners(n).len() == n * LINE_CORNERS,
    decreases n,
{
    if n > 0 {
        lemma_lines_len((n - 1) as nat);
        lemma_pieces_len((n - 1) * LINE_VERTICES, LINE_SEGMENTS as nat);
    }
}

/// The lines that are kept are those numbered `-n` to `n` that are not left
/// out.
pub proof fn kept_lines_are_not_left_out(n: int, left_out: Seq<bool>, count: int, line: i32)
    requires
        0 <= n < 0x4000_0000,
        0 <= count <= left_out.len(),
        left_out.len() == 2 * n + 1,
    ensures
        kept_lines(n, left_out, count).contains(line) <==> -n <= line < count - n && !left_out[line
            + n],
    decreases count,
{
    if count > 0 {
        kept_lines_are_not_left_out(n, left_out, count - 1, line);
        let front = kept_lines(n, left_out, count - 1);
        if !left_out[count - 1] {
            let last = (count - 1 - n) as i32;
            if front.contains(line) {
                let k = choose|k: int| 0 <= k < front.len() && front[k] == line;
                assert(front.push(last)[k] == line);
            }
            if line == last {
                assert(front.push(last).last() == line);
            }
            if front.push(last).contains(line) && line != last {
                let k = choose|k: int| 0 <= k < front.len() + 1 && front.push(last)[k] == line;
                assert(front[k] == line);
            }
        }
    }
}

/// The dots of the grid, by the numbers of the lines that cross there, and
/// their triangles.
pub struct DotLayer {
    pub dots: Vec<(i32, i32)>,
    pub indices: Vec<u32>,
    pub vertices: u32,
}

/// The corners of `n` dots, one after the other.
pub open spec fn dots_corners(n: nat) -> Seq<u32>
    decreases n,
{
    if n == 0 {
        seq![]
    } else {
        dots_corners((n - 1) as nat) + slices(
            (n - 1) * DOT_VERTICES,
            DOT_SEGMENTS as nat,
            DOT_SEGMENTS as int,
        )
    }
}

/// The dots at the crossings of the lines numbered `-n` to `n`: all those of
/// one line before those of the next.
pub open spec fn crossing(n: int, k: int) -> (i32, i32) {
    ((k / (2 * n + 1) - n) as i32, (k % (2 * n + 1) - n) as i32)
}

/// Builds the dots of the grid: one wherever two of the lines numbered `-n` to
/// `n` cross.
pub fn build_grid_dots_mesh(n: i32) -> (r: DotLayer)
    requires
        0 <= n < 0x4000_0000,
        (2 * n + 1) * (2 * n + 1) * DOT_VERTICES <= u32::MAX,
    ensures
        r.dots@ == Seq::new(((2 * n + 1) * (2 * n + 1)) as nat, |k: int| crossing(n as int, k)),
        r.indices@ == dots_corners(r.dots@.len()),
        r.vertices == r.dots@.len() * DOT_VERTICES,
{
    let ghost w = 2 * n + 1;
    let mut dots: Vec<(i32, i32)> = Vec::new();
    let mut indices: Vec<u32> = Vec::new();
    let mut vertices: u32 = 0;
    let mut x: i32 = -n;
    proof {
        assert((x + n) * w == 0) by (nonlinear_arith)
            requires
                x + n == 0,
        ;
        assert(dots@ =~= Seq::new(0, |k: int| crossing(n as int, k)));
    }
    while x <= n
        invariant
            0 <= n < 0x4000_0000,
            w == 2 * n + 1,
            w * w * DOT_VERTICES <= u32::MAX,
            -n <= x <= n + 1,
            dots@ == Seq::new(((x + n) * w) as nat, |k: int| crossing(n as int, k)),
            indices@ == dots_corners(dots@.len()),
            vertices == dots@.len() * DOT_VERTICES,
        decreases n + 1 - x,
    {
        let mut z: i32 = -n;
        proof {
            assert((x + n) * w >= 0) by (nonlinear_arith)
                requires
                    x + n >= 0,
                    w >= 1,
            ;
        }
        while z <= n
            invariant
                0 <= n < 0x4000_0000,
                w == 2 * n + 1,
                w * w * DOT_VERTICES <= u32::MAX,
                -n <= x <= n,
                -n <= z <= n + 1,
                (x + n) * w >= 0,
                dots@ == Seq::new(((x + n) * w + z + n) as nat, |k: int| crossing(n as int, k)),
                indices@ == dots_corners(dots@.len()),
                vertices == dots@.len() * DOT_VERTICES,
            decreases n + 1 - z,
        {
            let ghost k = (x + n) * w + (z + n);
            proof {
                assert((x + n) * w + w <= w * w) by (nonlinear_arith)
                    requires
                        x + n + 1 <= w,
                        w >= 1,
                ;
                assert((k + 1) * DOT_VERTICES <= w * w * DOT_VERTICES) by (nonlinear_arith)
                    requires
                        k + 1 <= w * w,
                ;
                vstd::arithmetic::div_mod::lemma_fundamental_div_mod_converse(
                    k,
                    w as int,
                    x + n,
                    z + n,
                );
                assert(crossing(n as int, k) == (x, z));
            }
            let next: u32 = push_disc_faded(&mut indices, vertices, DOT_SEGMENTS);
            let ghost before = dots@;
            dots.push((x, z));
            proof {
                assert(dots@ =~= Seq::new((k + 1) as nat, |k: int| crossing(n as int, k)));
            }
            vertices = next;
            z = z + 1;
        }
        proof {
            assert((x + n) * w + w == (x + 1 + n) * w) by (nonlinear_arith);
        }
        x = x + 1;
    }
    DotLayer { dots, indices, vertices }
}

/// Every corner of the first `n` slices of a dot is one of its vertices.
proof fn lemma_slices_in_range(centre: int, n: nat, segments: int, i: int)
    requires
        0 <= centre,
        n <= segments,
        centre + 1 + segments <= u32::MAX,
        0 <= i < slices(centre, n, segments).len(),
    ensures
        centre <= slices(centre, n, segments)[i] < centre + 1 + segments,
    decreases n,
{
    let front = slices(centre, (n - 1) as nat, segments);
    if i < front.len() {
        lemma_slices_in_range(centre, (n - 1) as nat, segments, i);
    } else {
        let k = i - front.len();
        assert(slices(centre, n, segments)[i] == slice(centre, n - 1, segments)[k]);
        assert(k == 0 || k == 1 || k == 2);
        vstd::arithmetic::div_mod::lemma_mod_bound(n as int, segments);
    }
}

/// Every corner of the triangles of `n` dots is one of their vertices.
pub proof fn dot_corners_are_vertices(n: nat, i: int)
    requires
        n * DOT_VERTICES <= u32::MAX,
        0 <= i < dots_corners(n).len(),
    ensures
        dots_corners(n)[i] < n * DOT_VERTICES,
    decreases n,
{
    if n > 0 {
        let front = dots_corners((n - 1) as nat);
        if i < front.len() {
            dot_corners_are_vertices((n - 1) as nat, i);
        } else {
            lemma_slices_in_range(
                (n - 1) * DOT_VERTICES,
                DOT_SEGMENTS as nat,
                DOT_SEGMENTS as int,
                i - front.len(),
            );
        }
    }
}

/// The bits of `0.1`: by how much the size of the scene must change, relative to
/// the size that the grid was built for, before it is built anew.
pub const REBUILD_CHANGE: u32 = 0x3dcc_cccd;

/// Whether the grid is built: once there is a scene, and then again when its
/// size has changed.
pub open spec fn rebuilds(count: u32, built_for: Single, change: Single) -> bool {
    count != 0 && !((Single { bits: 0 }).below(built_for) && change.below(
        Single { bits: REBUILD_CHANGE },
    ))
}

/// Decides whether the grid is built.
fn needs_rebuild(count: u32, built_for: Single, change: Single) -> (r: bool)
    ensures
        r == rebuilds(count, built_for, change),
{
    if count == 0 {
        return false;
    }
    let zero: Single = Single { bits: 0 };
    let limit: Single = Single { bits: REBUILD_CHANGE };
    !(zero.less(built_for) && change.less(limit))
}

/// What is remembered of the grid.
pub struct WorldGridState {
    /// The size of the scene that it was built for; zero before the first time.
    pub built_for_diag: Single,
    /// The entities of its layers.
    pub entities: Vec<u64>,
}

/// Decides whether the grid is built in this frame, and hands over the entities
/// of the old one, which are to be taken down. `change` is how far the ratio of
/// the scene's size to the one that the grid was built for is from one.
pub fn rebuild_world_grid_when_ready(
    state: &mut WorldGridState,
    count: u32,
    change: Single,
) -> (old_layers: Option<Vec<u64>>)
    ensures
        old_layers is Some <==> rebuilds(count, old(state).built_for_diag, change),
        final(state).built_for_diag == old(state).built_for_diag,
        match old_layers {
            Some(list) => list@ == old(state).entities@ && final(state).entities@.len() == 0,
            None => *final(state) == *old(state),
        },
{
    if !needs_rebuild(count, state.built_for_diag, change) {
        return None;
    }
    let mut list: Vec<u64> = Vec::new();
    std::mem::swap(&mut list, &mut state.entities);
    Some(list)
}

/// Notes that the grid has been built: for which size of the scene, and as which
/// three layers.
pub fn world_grid_built(
    state: &mut WorldGridState,
    diag: Single,
    minor: u64,
    major: u64,
    dots: u64,
)
    ensures
        final(state).built_for_diag == diag,
        final(state).entities@ == seq![minor, major, dots],
{
    let mut list: Vec<u64> = Vec::new();
    list.push(minor);
    list.push(major);
    list.push(dots);
    assert(list@ =~= seq![minor, major, dots]);
    state.built_for_diag = diag;
    state.entities = list;
}

/// A scene that keeps its size keeps its grid, once that is built for a size
/// that is more than nothing.
pub proof fn steady_scenes_keep_their_grid(count: u32, diag: Single)
    requires
        (Single { bits: 0 }).below(diag),
    ensures
        !rebuilds(count, diag, Single { bits: 0 }),
{
}

/// The first scene gets a grid, whatever its size.
pub proof fn first_scenes_get_a_grid(count: u32, change: Single)
    requires
        count != 0,
    ensures
        rebuilds(count, Single { bits: 0 }, change),
{
}

/// The bits of `1.5`, which is halfway from one to two.
pub const ONE_AND_A_HALF: u32 = 0x3fc0_0000;

/// The bits of `3.5`, which is halfway from two to five.
pub const THREE_AND_A_HALF: u32 = 0x4060_0000;

/// The bits of `7.5`, which is halfway from five to ten.
pub const SEVEN_AND_A_HALF: u32 = 0x40f0_0000;

/// The leading digit of a spacing: one, two, five or ten, whichever its mantissa
/// is nearest to; from halfway on, the larger one.
pub open spec fn nearest_digit(mantissa: Single) -> u32 {
    if mantissa.below(Single { bits: ONE_AND_A_HALF }) {
        1u32
    } else if mantissa.below(Single { bits: THREE_AND_A_HALF }) {
        2u32
    } else if mantissa.below(Single { bits: SEVEN_AND_A_HALF }) {
        5u32
    } else {
        10u32
    }
}

/// Finds the leading digit of a spacing.
pub fn bucket_digit(mantissa: Single) -> (r: u32)
    ensures
        r == nearest_digit(mantissa),
{
    if mantissa.less(Single { bits: ONE_AND_A_HALF }) {
        1
    } else if mantissa.less(Single { bits: THREE_AND_A_HALF }) {
        2
    } else if mantissa.less(Single { bits: SEVEN_AND_A_HALF }) {
        5
    } else {
        10
    }
}

/// The bits of `10.0`.
pub const TEN: u32 = 0x4120_0000;

/// How many steps there are to a unit.
pub const UNIT: u32 = 0x80_0000;

/// A number from one up to ten, counted in steps that are small enough to count
/// it exactly.
pub open spec fn steps(x: Single) -> int {
    let significand = UNIT + x.bits as int % UNIT as int;
    let exponent = x.bits as int / UNIT as int - 127;
    if exponent == 0 {
        significand
    } else if exponent == 1 {
        2 * significand
    } else if exponent == 2 {
        4 * significand
    } else {
        8 * significand
    }
}

/// How far a number from one up to ten is from a digit, in steps.
pub open spec fn distance(x: Single, digit: int) -> int {
    let d = steps(x) - digit * UNIT;
    if d < 0 {
        -d
    } else {
        d
    }
}

/// No other digit is nearer to a mantissa than its own.
pub proof fn digits_are_nearest(mantissa: Single)
    requires
        SINGLE_ONE <= mantissa.bits < TEN,
    ensures
        distance(mantissa, nearest_digit(mantissa) as int) <= distance(mantissa, 1),
        distance(mantissa, nearest_digit(mantissa) as int) <= distance(mantissa, 2),
        distance(mantissa, nearest_digit(mantissa) as int) <= distance(mantissa, 5),
        distance(mantissa, nearest_digit(mantissa) as int) <= distance(mantissa, 10),
{
}

} // verus!
