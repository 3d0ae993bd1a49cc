//! What holds of the viewer's decisions, said of what goes in and what comes out.

use crate::ieee::{Double, Single};
use crate::text::texts;
use crate::viewer::animation::{
    driven_count, driven_weights, first_joint, skel_writes, BlendDriver, MorphMesh, PROBE_SKIP,
};
use crate::viewer::camera::{
    both, first_place, is_over, still_growing, wants_fit, FitInput, FitState,
};
use crate::viewer::clock::{clock_for, next_time, Tick, Timeline};
use crate::viewer::display::{rebuild_of, same_key, same_number, Rebuild, TuningKey};
use crate::viewer::extent::{
    at_upper_end, extent_of, highest, lower, lowest, outline_corner, outline_edge, upper,
};
use crate::viewer::files::{
    directory_or, hex16, is_asset_of, is_copy, is_joined, is_looked_for, is_split, names_copy,
    selection_writes, selections, switches_on, text_or, variant_name, weight, RequestedAsset,
    VariantSelection, DEFAULT_ASSET, DEFAULT_DIRECTORY,
};
use crate::viewer::grid::{
    crossing, distance, dots_corners, kept_lines, lines_corners, nearest_digit, pieces, rebuilds,
    slices,
};
use crate::viewer::paths::{
    extension_of, file_name_of, is_portable, is_rooted, may_extend, may_feed, parent_of,
    text_writes,
};
use crate::viewer::report::{
    comes_before, count_of, is_sorted_order, places_of, ORIGIN_ROWS,
};
use crate::viewer::session::{
    has_sun, primary, spawn_action_of, sum_of, was_modified, AssetChange, LoadStatus, SpawnAction,
};
use std::collections::hash_map::DefaultHasher;
use vstd::prelude::*;
use vstd::std_specs::hash::DefaultHasherAdditionalSpecFns;

verus! {

/// The clock of a stage starts, ends and runs at the rate that the stage says. It
/// is set to zero, and plays exactly where the stage has animated prims, animated
/// skeletons, or an end after its start.
pub proof fn clocks_are_set_by_the_stage(t: Timeline)
    ensures
        clock_for(t).start_time_code == t.start_time_code,
        clock_for(t).end_time_code == t.end_time_code,
        clock_for(t).time_codes_per_second == t.time_codes_per_second,
        clock_for(t).seconds.bits == 0,
        clock_for(t).initialized,
        clock_for(t).playing <==> t.animated_prims > 0 || t.skel_animations > 0 || (
        !t.start_time_code.nan() && !t.end_time_code.nan() && t.end_time_code.place()
            > t.start_time_code.place()),
{
}

/// A running clock goes on by the frame until it reaches the end of the stage, and
/// has then held the end for no time. A stage without a length is never at its end,
/// and a time that is no number never reaches one.
pub proof fn clocks_go_on_until_the_end(tick: Tick)
    ensures
        tick.duration.nan() || tick.duration.place() <= 0 ==> next_time(tick) == (
            tick.advanced,
            tick.hold,
        ),
        !tick.duration.nan() && tick.duration.place() > 0 && (tick.advanced.nan()
            || tick.advanced.place() < tick.duration.place()) ==> next_time(tick).0
            == tick.advanced && next_time(tick).1.bits == 0,
{
}

/// At the end of the stage a clock stands, and counts how long, until that has been
/// a second; then both start over at zero.
pub proof fn clocks_hold_the_end_for_a_second(tick: Tick)
    requires
        !tick.duration.nan(),
        tick.duration.place() > 0,
        !tick.advanced.nan(),
        tick.advanced.place() >= tick.duration.place(),
    ensures
        tick.hold_advanced.nan() || tick.hold_advanced.place() < (Double { bits: 0x3ff0_0000_0000_0000 }).place()
            ==> next_time(tick) == (tick.duration, tick.hold_advanced),
        !tick.hold_advanced.nan() && tick.hold_advanced.place() >= (Double {
            bits: 0x3ff0_0000_0000_0000,
        }).place() ==> next_time(tick).0.bits == 0 && next_time(tick).1.bits == 0,
{
}

/// A channel of an animation moves a joint exactly where it is bound to one and
/// that one is there.
pub proof fn channels_move_the_joints_that_are_there(
    joints: Seq<Option<u64>>,
    present: Set<u64>,
    channel: usize,
    e: u64,
)
    requires
        joints.len() <= usize::MAX,
    ensures
        skel_writes(joints, present).contains((channel, e)) <==> channel < joints.len()
            && joints[channel as int] == Some(e) && present.contains(e),
    decreases joints.len(),
{
    let all = skel_writes(joints, present);
    if joints.len() > 0 {
        let front = skel_writes(joints.drop_last(), present);
        channels_move_the_joints_that_are_there(joints.drop_last(), present, channel, e);
        if front.contains((channel, e)) {
            let k = choose|k: int| 0 <= k < front.len() && front[k] == (channel, e);
            assert(all[k] == (channel, e));
        }
        if all.contains((channel, e)) {
            let k = choose|k: int| 0 <= k < all.len() && all[k] == (channel, e);
            if k < front.len() {
                assert(front[k] == (channel, e));
            }
        }
        if channel == joints.len() - 1 && joints.last() == Some(e) && present.contains(e) {
            assert(all.last() == (channel, e));
        }
    }
}

/// The joint that reports look at is the first one from the eleventh channel on,
/// and there is none where none of these channels has one.
pub proof fn reports_look_past_ten_channels(joints: Seq<Option<u64>>, i: int)
    requires
        10 <= i <= joints.len(),
        forall|k: int| 10 <= k < i ==> (#[trigger] joints[k]) is None,
        i < joints.len() ==> joints[i] is Some,
    ensures
        first_joint(joints.skip(PROBE_SKIP as int)) == if i < joints.len() {
            joints[i]
        } else {
            None
        },
{
    let rest = joints.skip(10);
    assert forall|k: int| 0 <= k < i - 10 implies (#[trigger] rest[k]) is None by {
        assert(rest[k] == joints[k + 10]);
    }
    lemma_first_joint(rest, i - 10);
}

/// The first joint of a list is the one in front of which there is none.
proof fn lemma_first_joint(joints: Seq<Option<u64>>, i: int)
    requires
        0 <= i <= joints.len(),
        forall|k: int| 0 <= k < i ==> (#[trigger] joints[k]) is None,
        i < joints.len() ==> joints[i] is Some,
    ensures
        first_joint(joints) == if i < joints.len() {
            joints[i]
        } else {
            None
        },
    decreases i,
{
    if i > 0 {
        assert(joints[0] is None);
        let rest = joints.skip(1);
        assert forall|k: int| 0 <= k < i - 1 implies (#[trigger] rest[k]) is None by {
            assert(rest[k] == joints[k + 1]);
        }
        if i < joints.len() {
            assert(rest[i - 1] == joints[i]);
        }
        lemma_first_joint(rest, i - 1);
    }
}

/// A shape of a mesh follows the last channel of its name, with the weight that
/// this channel has; where the channel has no weight, the shape rests.
pub proof fn shapes_follow_the_last_channel_of_their_name(
    driver: BlendDriver,
    mesh: MorphMesh,
    slot: int,
    channel: int,
)
    requires
        0 <= slot < mesh.weights@.len(),
        slot < mesh.names@.len(),
        0 <= channel < driver.names@.len(),
        driver.names@[channel]@ == mesh.names@[slot]@,
        forall|k: int|
            channel < k < driver.names@.len() ==> (#[trigger] driver.names@[k])@
                != mesh.names@[slot]@,
    ensures
        channel < driver.weights@.len() ==> driven_weights(driver, mesh, false)[slot]
            == driver.weights@[channel],
        channel >= driver.weights@.len() ==> driven_weights(driver, mesh, false)[slot].bits == 0,
{
    let all = texts(driver.names@);
    let name = mesh.names@[slot]@;
    all.index_of_last_ensures(name);
    assert(all[channel] == name);
    assert(all.contains(name));
    let last = all.index_of_last(name)->0;
    if last > channel {
        assert(driver.names@[last]@ == name);
    }
}

/// A shape that no channel is named for rests. One that is forced is followed in
/// full, whatever the channels say. What a mesh has beyond its names stays as it
/// was, and no weight comes or goes.
pub proof fn shapes_without_a_channel_rest(
    driver: BlendDriver,
    mesh: MorphMesh,
    force_all: bool,
    slot: int,
)
    requires
        0 <= slot < mesh.weights@.len(),
    ensures
        driven_weights(driver, mesh, force_all).len() == mesh.weights@.len(),
        slot >= mesh.names@.len() ==> driven_weights(driver, mesh, force_all)[slot]
            == mesh.weights@[slot],
        slot < mesh.names@.len() && force_all ==> driven_weights(driver, mesh, force_all)[slot].bits
            == 0x3f80_0000,
        slot < mesh.names@.len() && !force_all && (forall|k: int|
            0 <= k < driver.names@.len() ==> (#[trigger] driver.names@[k])@ != mesh.names@[slot]@)
            ==> driven_weights(driver, mesh, force_all)[slot].bits == 0,
{
    if slot < mesh.names@.len() {
        let all = texts(driver.names@);
        let name = mesh.names@[slot]@;
        all.index_of_last_ensures(name);
        if all.contains(name) {
            let k = choose|k: int| 0 <= k < all.len() && all[k] == name;
            assert(driver.names@[k]@ == name);
        }
    }
}

/// As many shapes of a mesh are driven as have both a name and a weight.
pub proof fn named_weights_are_driven(mesh: MorphMesh, slot: int)
    requires
        0 <= slot,
    ensures
        slot < driven_count(mesh) <==> slot < mesh.names@.len() && slot < mesh.weights@.len(),
        driven_count(mesh) >= 0,
{
}

/// The camera waits for a scene exactly where it has not been set, prims are inside
/// the bounds and the scene has prims. It waits on exactly before the sixtieth
/// frame, and as long as the size of the scene is above what counts as growing.
pub proof fn cameras_wait_for_the_scene(state: FitState, input: FitInput)
    ensures
        wants_fit(state, input) <==> !state.done && input.count > 0 && input.has_prims,
        still_growing(state, input) <==> state.wait_ticks < 59 && !input.diag.nan()
            && !input.growth_limit.nan() && input.diag.place() > input.growth_limit.place(),
{
}

/// The place of a text in a list is one where the list has it and before which it
/// does not; there is none exactly where the list does not have it.
pub proof fn first_places_are_the_first(list: Seq<Seq<char>>, s: Seq<char>, i: int)
    ensures
        first_place(list, s) is None <==> !list.contains(s),
        first_place(list, s) == Some(i) <==> 0 <= i < list.len() && list[i] == s && (forall|k: int|
            0 <= k < i ==> (#[trigger] list[k]) != s),
{
    list.index_of_first_ensures(s);
    if 0 <= i < list.len() && list[i] == s {
        assert(list.contains(s));
    }
}

/// A flight turns by an angle exactly where it has both ends of it, and between
/// these. It is over exactly where its time is a number that is not above zero.
pub proof fn flights_turn_between_two_ends(
    from: Option<Single>,
    to: Option<Single>,
    remaining: Single,
)
    ensures
        both(from, to) is Some <==> from is Some && to is Some,
        both(from, to) matches Some((a, b)) ==> from == Some(a) && to == Some(b),
        is_over(remaining) <==> !remaining.nan() && !(Single { bits: 0 }).below(remaining),
{
}

/// Two numbers are the same exactly where neither is below the other and both are
/// numbers, and the sliders stand as they did exactly where all three do.
pub proof fn sliders_are_compared_by_value(a: TuningKey, b: TuningKey)
    ensures
        same_number(a.radius, b.radius) <==> !a.radius.nan() && !b.radius.nan() && !a.radius.below(
            b.radius,
        ) && !b.radius.below(a.radius),
        same_key(a, b) <==> same_number(a.radius, b.radius) && same_number(
            a.point_scale,
            b.point_scale,
        ) && a.rings == b.rings,
        same_key(a, b) == same_key(b, a),
{
}

/// The mesh of a prim is rebuilt as curves exactly where it has curves, and not at
/// all exactly where it has neither curves nor points.
pub proof fn curves_go_before_points(
    path: Seq<char>,
    curves: Seq<Seq<char>>,
    points: Seq<Seq<char>>,
)
    ensures
        rebuild_of(path, curves, points) == Rebuild::Curves <==> curves.contains(path),
        rebuild_of(path, curves, points) == Rebuild::Nothing <==> !curves.contains(path)
            && !points.contains(path),
{
}

/// The bounds of points that all have a place along an axis are coordinates of two
/// of them, with all others between. The bounds of no points reach from plus to
/// minus infinity, and the number of prims is the one given.
pub proof fn extents_are_tight(points: Seq<[Single; 3]>, count: u32, axis: int)
    requires
        0 <= axis < 3,
        forall|k: int| 0 <= k < points.len() ==> !(#[trigger] points[k])[axis].nan(),
    ensures
        extent_of(points, count).count == count,
        points.len() == 0 ==> extent_of(points, count).min[axis].bits == 0x7f80_0000
            && extent_of(points, count).max[axis].bits == 0xff80_0000,
        points.len() > 0 ==> exists|k: int|
            0 <= k < points.len() && (#[trigger] points[k])[axis] == extent_of(
                points,
                count,
            ).min[axis],
        points.len() > 0 ==> exists|k: int|
            0 <= k < points.len() && (#[trigger] points[k])[axis] == extent_of(
                points,
                count,
            ).max[axis],
        forall|k: int|
            0 <= k < points.len() ==> extent_of(points, count).min[axis].place() <= (
            #[trigger] points[k])[axis].place() <= extent_of(points, count).max[axis].place(),
{
    assert(axis == 0 || axis == 1 || axis == 2);
    assert(extent_of(points, count).min[axis] == lowest(points, axis));
    assert(extent_of(points, count).max[axis] == highest(points, axis));
    assert forall|k: int| 0 <= k < points.len() implies lowest(points, axis).place() <= (
    #[trigger] points[k])[axis].place() <= highest(points, axis).place() by {
        crate::viewer::extent::extent_holds_its_points(points, k, axis);
    }
    if points.len() > 0 {
        lemma_bounds_are_reached(points, axis);
    }
}

/// The bounds of points are coordinates of two of them.
proof fn lemma_bounds_are_reached(points: Seq<[Single; 3]>, axis: int)
    requires
        points.len() > 0,
        forall|k: int| 0 <= k < points.len() ==> !(#[trigger] points[k])[axis].nan(),
    ensures
        exists|k: int|
            0 <= k < points.len() && (#[trigger] points[k])[axis] == lowest(points, axis),
        exists|k: int|
            0 <= k < points.len() && (#[trigger] points[k])[axis] == highest(points, axis),
    decreases points.len(),
{
    let front = points.drop_last();
    let last = points.len() - 1;
    assert(points[last] == points.last());
    assert forall|k: int| 0 <= k < front.len() implies !(#[trigger] front[k])[axis].nan() by {
        assert(front[k] == points[k]);
    }
    if front.len() > 0 {
        lemma_bounds_are_reached(front, axis);
        let a = choose|k: int|
            0 <= k < front.len() && (#[trigger] front[k])[axis] == lowest(front, axis);
        let b = choose|k: int|
            0 <= k < front.len() && (#[trigger] front[k])[axis] == highest(front, axis);
        assert(points[a] == front[a]);
        assert(points[b] == front[b]);
    } else {
        let x = points[last][axis];
        assert(!x.nan());
        assert(lowest(front, axis).bits == 0x7f80_0000);
        assert(highest(front, axis).bits == 0xff80_0000);
    }
}

/// The number of a corner of a box is made of three binary digits, which say along
/// which axes it is at the upper end: the ones for the first axis, the twos for the
/// second and the fours for the third.
pub proof fn corners_are_numbered_in_binary(i: int)
    requires
        0 <= i < 8,
    ensures
        i == (if at_upper_end(i, 0) {
            1int
        } else {
            0
        }) + (if at_upper_end(i, 1) {
            2int
        } else {
            0
        }) + (if at_upper_end(i, 2) {
            4int
        } else {
            0
        }),
{
    assert(i == 0 || i == 1 || i == 2 || i == 3 || i == 4 || i == 5 || i == 6 || i == 7);
}

/// The outline of a box begins at the lower end of every axis, goes on along the
/// first, and has the top above the bottom, corner above corner. Its lines join
/// different corners: the first four those of the bottom, the next four those of
/// the top, and the last four each one with the one above it.
pub proof fn outlines_go_around_bottom_and_top(i: int)
    requires
        0 <= i < 4,
    ensures
        outline_corner(0) == (false, false, false),
        outline_corner(1) == (true, false, false),
        !outline_corner(i).2,
        outline_corner(4 + i) == (outline_corner(i).0, outline_corner(i).1, true),
        outline_edge(i).0 == i && 0 <= outline_edge(i).1 < 4,
        outline_edge(4 + i) == (4 + outline_edge(i).0, 4 + outline_edge(i).1),
        outline_edge(8 + i) == (i, 4 + i),
{
    assert(i == 0 || i == 1 || i == 2 || i == 3);
}

/// A text comes before another where it ends first, or where the first byte in
/// which the two differ is the smaller one.
pub proof fn texts_are_ordered_by_the_first_difference(a: Seq<u8>, b: Seq<u8>, k: int)
    requires
        0 <= k <= a.len(),
        k <= b.len(),
        forall|i: int| 0 <= i < k ==> (#[trigger] a[i]) == b[i],
        k == a.len() || k == b.len() || a[k] != b[k],
    ensures
        comes_before(a, b) <==> k < b.len() && (k == a.len() || a[k] < b[k]),
    decreases k,
{
    if k > 0 {
        assert(a[0] == b[0]);
        let x = a.skip(1);
        let y = b.skip(1);
        assert forall|i: int| 0 <= i < k - 1 implies (#[trigger] x[i]) == y[i] by {
            assert(x[i] == a[i + 1] && y[i] == b[i + 1]);
        }
        if k < a.len() {
            assert(x[k - 1] == a[k]);
        }
        if k < b.len() {
            assert(y[k - 1] == b[k]);
        }
        texts_are_ordered_by_the_first_difference(x, y, k - 1);
    }
}

/// A sorted report lists as many rows as there are, each once: of two rows, the one
/// listed later does not come before the other by the bytes of its path, and is the
/// later one where the two paths are the same.
pub proof fn sorted_rows_rise(paths: Seq<String>, order: Seq<usize>, i: int, j: int)
    requires
        is_sorted_order(paths, order),
    ensures
        order.len() == paths.len(),
        0 <= i < order.len() ==> order[i] < paths.len(),
        0 <= i < j < order.len() ==> {
            let a = vstd::utf8::encode_utf8(paths[order[i] as int]@);
            let b = vstd::utf8::encode_utf8(paths[order[j] as int]@);
            &&& order[i] != order[j]
            &&& comes_before(a, b) || !comes_before(b, a)
            &&& !comes_before(a, b) ==> order[i] < order[j]
        },
{
}

/// The rows of two lists that hold are as many as those of the first and those of
/// the second together; a single row is one exactly where it holds.
pub proof fn counts_add_up(a: Seq<bool>, b: Seq<bool>, one: bool)
    ensures
        count_of(a + b) == count_of(a) + count_of(b),
        count_of(seq![one]) == if one {
            1int
        } else {
            0
        },
    decreases b.len(),
{
    reveal_with_fuel(count_of, 2);
    assert(seq![one].drop_last() =~= seq![]);
    if b.len() == 0 {
        assert(a + b =~= a);
    } else {
        counts_add_up(a, b.drop_last(), one);
        assert((a + b).drop_last() =~= a + b.drop_last());
    }
}

/// The places of the rows that hold are exactly those of such rows, and rise.
pub proof fn places_are_of_rows_that_hold(list: Seq<bool>, i: usize)
    requires
        list.len() <= usize::MAX,
    ensures
        places_of(list).contains(i) <==> i < list.len() && list[i as int],
        forall|k: int|
            0 <= k < places_of(list).len() ==> (#[trigger] places_of(list)[k]) < list.len(),
        forall|k: int, l: int|
            0 <= k < l < places_of(list).len() ==> (#[trigger] places_of(list)[k]) < (
            #[trigger] places_of(list)[l]),
    decreases list.len(),
{
    if list.len() > 0 {
        let front = places_of(list.drop_last());
        let all = places_of(list);
        places_are_of_rows_that_hold(list.drop_last(), i);
        if front.contains(i) {
            let k = choose|k: int| 0 <= k < front.len() && front[k] == i;
            assert(all[k] == i);
        }
        if all.contains(i) {
            let k = choose|k: int| 0 <= k < all.len() && all[k] == i;
            if k < front.len() {
                assert(front[k] == i);
            }
        }
        if i == list.len() - 1 && list.last() {
            assert(all.last() == i);
        }
    }
}

/// The sum of two lists together is the sum of both, and that of a single number
/// is the number.
pub proof fn sums_add_up(a: Seq<usize>, b: Seq<usize>, x: usize)
    ensures
        sum_of(a + b) == sum_of(a) + sum_of(b),
        sum_of(seq![x]) == x,
    decreases b.len(),
{
    reveal_with_fuel(sum_of, 2);
    assert(seq![x].drop_last() =~= seq![]);
    if b.len() == 0 {
        assert(a + b =~= a);
    } else {
        sums_add_up(a, b.drop_last(), x);
        assert((a + b).drop_last() =~= a + b.drop_last());
    }
}

/// The render settings that count are the first ones, with their resolution,
/// whatever follows; without any, there is neither a path nor a resolution.
pub proof fn first_render_settings_count(
    first: (String, Option<(u32, u32)>),
    rest: Seq<(String, Option<(u32, u32)>)>,
)
    ensures
        primary(seq![first] + rest).0 == Some(first.0@),
        primary(seq![first] + rest).1 == first.1,
        primary(seq![]).0 is None,
        primary(seq![]).1 is None,
{
}

/// A stage is shown exactly where it is not shown yet, and loaded with its
/// contents there; its failure is reported exactly where it is not shown and has
/// failed. It has a sun exactly where its contents are there and hold one.
pub proof fn stages_are_shown_when_they_are_there(spawned: bool, status: LoadStatus)
    ensures
        spawn_action_of(spawned, status) == SpawnAction::Show <==> !spawned && (
        status matches LoadStatus::Loaded { suns } && suns is Some),
        spawn_action_of(spawned, status) == SpawnAction::Report <==> !spawned && status
            == LoadStatus::Failed,
        has_sun(status) <==> (status matches LoadStatus::Loaded { suns } && suns is Some && suns->0
            >= 1),
{
}

/// An asset was modified exactly where one of the changes says so of it.
pub proof fn modifications_are_of_the_asset(changes: Seq<AssetChange>, id: u64)
    ensures
        was_modified(changes, id) <==> exists|i: int|
            0 <= i < changes.len() && (#[trigger] changes[i]) == AssetChange::Modified(id),
{
}

/// Sixteen to a power, as it is weighed.
proof fn lemma_weights_are_powers(n: nat)
    ensures
        weight(n) == vstd::arithmetic::power::pow(16, n),
    decreases n,
{
    reveal(vstd::arithmetic::power::pow);
    if n > 0 {
        lemma_weights_are_powers((n - 1) as nat);
    }
}

/// A number is written as sixteen digits, the one for the ones last: the digit with
/// `n` digits behind it is the one for what the number holds of sixteen to the `n`.
pub proof fn digits_are_hexadecimal(x: u64, n: int)
    requires
        0 <= n < 16,
    ensures
        hex16(x).len() == 16,
        hex16(x)[15 - n] == "0123456789abcdef"@[(x as int / vstd::arithmetic::power::pow(
            16,
            n as nat,
        )) % 16],
{
    reveal_strlit("0123456789abcdef");
    lemma_weights_are_powers(n as nat);
    let d = (x as int / vstd::arithmetic::power::pow(16, n as nat)) % 16;
    assert(15 - (15 - n) == n);
    assert(hex16(x)[15 - n] == crate::viewer::files::hex_digit(d));
    assert(d == 0 || d == 1 || d == 2 || d == 3 || d == 4 || d == 5 || d == 6 || d == 7 || d == 8
        || d == 9 || d == 10 || d == 11 || d == 12 || d == 13 || d == 14 || d == 15);
}

/// The name of a copy begins as those of all copies do, goes on with the digits of
/// its hash, and ends in a dot and its extension.
pub proof fn copies_are_named_by_hash_and_extension(hash: u64, extension: Seq<char>)
    ensures
        ({
            let name = variant_name(hash, extension);
            &&& name.take(22) == ".bevy_openusd_variant_"@
            &&& name.subrange(22, 38) == hex16(hash)
            &&& name[38] == '.'
            &&& name.skip(39) == extension
            &&& is_copy(name)
        }),
{
    reveal_strlit(".bevy_openusd_variant_");
    let name = variant_name(hash, extension);
    assert(name.take(22) =~= ".bevy_openusd_variant_"@);
    assert(name.subrange(22, 38) =~= hex16(hash));
    assert(name.skip(39) =~= extension);
    assert(".bevy_openusd_variant_"@.is_prefix_of(name));
}

/// A file is one of the copies exactly where its name begins as theirs do.
pub proof fn copies_are_told_by_their_names(name: Seq<char>)
    ensures
        is_copy(name) <==> ".bevy_openusd_variant_"@.is_prefix_of(name),
{
}

/// What two lists of choices feed to a hasher is what the first feeds and then what
/// the second does; a single choice feeds its prim, its set and its option, in this
/// order.
pub proof fn choices_are_hashed_one_by_one(
    a: Seq<(Seq<char>, Seq<char>, Seq<char>)>,
    b: Seq<(Seq<char>, Seq<char>, Seq<char>)>,
    one: (Seq<char>, Seq<char>, Seq<char>),
)
    ensures
        selection_writes(a + b) == selection_writes(a) + selection_writes(b),
        selection_writes(seq![one]) == text_writes(one.0) + text_writes(one.1) + text_writes(
            one.2,
        ),
    decreases b.len(),
{
    reveal_with_fuel(selection_writes, 2);
    assert(seq![one].drop_last() =~= seq![]);
    assert(selection_writes(seq![one]) =~= text_writes(one.0) + text_writes(one.1) + text_writes(
        one.2,
    ));
    if b.len() == 0 {
        assert(a + b =~= a);
        assert(selection_writes(a) + selection_writes(b) =~= selection_writes(a));
    } else {
        choices_are_hashed_one_by_one(a, b.drop_last(), one);
        assert((a + b).drop_last() =~= a + b.drop_last());
        assert((a + b).last() == b.last());
        assert(selection_writes(a + b) =~= selection_writes(a) + selection_writes(b));
    }
}

/// A variable switches something on exactly by `1`, `true` or `on`, written so.
pub proof fn switches_are_on_by_three_values(value: Seq<char>)
    ensures
        value == "1"@ ==> switches_on(value),
        value == "true"@ ==> switches_on(value),
        value == "on"@ ==> switches_on(value),
        switches_on(value) ==> value == "1"@ || value == "true"@ || value == "on"@,
{
}

/// The file that a portable path stands for has the name that the path ends in, or
/// the one given where it ends in none, and is in the directory that the path
/// begins with, or the one given where it has none.
pub proof fn assets_are_named_by_their_path(
    asset: RequestedAsset,
    path: Seq<char>,
    name: Seq<char>,
    fallback: Seq<char>,
)
    requires
        is_portable(path),
        is_asset_of(asset, path, name, fallback),
    ensures
        file_name_of(path) matches Some(part) ==> asset.name@ == part,
        file_name_of(path) is None ==> asset.name@ == name,
        parent_of(path) matches Some(part) ==> asset.root@ == part,
        parent_of(path) is None ==> asset.root@ == fallback,
{
    let (file_name, parent) = choose|file_name: Option<Seq<char>>, parent: Option<Seq<char>>|
        {
            &&& #[trigger] is_split(path, file_name, parent)
            &&& asset.name@ == crate::viewer::files::part_or(file_name, name)
            &&& asset.root@ == crate::viewer::files::part_or(parent, fallback)
        };
}

/// A portable name is looked for at itself where it begins at the root, and below a
/// portable directory, behind a separator, where it does not.
pub proof fn names_are_looked_for_below_the_directory(
    path: Seq<char>,
    name: Seq<char>,
    base: Seq<char>,
)
    requires
        is_portable(name),
        is_portable(base),
        is_looked_for(path, name, base),
    ensures
        is_rooted(name) ==> path == name,
        !is_rooted(name) && (base.len() == 0 || base.last() == '/') ==> path == base + name,
        !is_rooted(name) && base.len() > 0 && base.last() != '/' ==> path.len() == base.len() + 1
            + name.len() && path.take(base.len() as int) == base && path.skip(base.len() as int + 1)
            == name,
{
    if !is_rooted(name) && base.len() > 0 && base.last() != '/' {
        assert(path.take(base.len() as int) =~= base);
        assert(path.skip(base.len() as int + 1) =~= name);
    }
}

/// The number of corners of the first pieces of a line, and which they are.
proof fn lemma_piece_corners(first: int, n: nat, s: int, c: int)
    requires
        0 <= first,
        first + 2 * n + 1 <= u32::MAX,
        0 <= s < n,
        0 <= c < 6,
    ensures
        pieces(first, n).len() == 6 * n,
        pieces(first, n)[6 * s + c] == first + 2 * s + seq![0int, 1, 3, 0, 3, 2][c],
    decreases n,
{
    if n > 1 {
        lemma_piece_corners(first, (n - 1) as nat, if s < n - 1 { s } else { 0 }, c);
    }
    let front = pieces(first, (n - 1) as nat);
    assert(front.len() == 6 * (n - 1));
    assert(c == 0 || c == 1 || c == 2 || c == 3 || c == 4 || c == 5);
    if s < n - 1 {
        assert(pieces(first, n)[6 * s + c] == front[6 * s + c]);
    } else {
        assert(pieces(first, n)[6 * s + c] == crate::viewer::grid::piece(first, s)[c]);
    }
}

/// A line is drawn as twenty pieces, one behind the other, each as two triangles:
/// with its vertices numbered by twos from one end to the other, piece `s` is made
/// of corners 0, 1 and 3, and of corners 0, 3 and 2, counted from vertex `2 * s`.
/// Lines follow each other, with 42 vertices each.
pub proof fn lines_are_drawn_piece_by_piece(n: nat, line: int, s: int, c: int)
    requires
        n * 42 <= u32::MAX,
        0 <= line < n,
        0 <= s < 20,
        0 <= c < 6,
    ensures
        lines_corners(n).len() == 120 * n,
        lines_corners(n)[120 * line + 6 * s + c] == 42 * line + 2 * s + seq![0int, 1, 3, 0, 3, 2][c],
    decreases n,
{
    if n > 1 {
        lines_are_drawn_piece_by_piece(
            (n - 1) as nat,
            if line < n - 1 { line } else { 0 },
            s,
            c,
        );
    }
    let front = lines_corners((n - 1) as nat);
    assert(front.len() == 120 * (n - 1));
    lemma_piece_corners((n - 1) * 42, 20, s, c);
    let at = 120 * line + 6 * s + c;
    if line < n - 1 {
        assert(at < front.len());
        assert(lines_corners(n)[at] == front[at]);
    } else {
        assert(lines_corners(n)[at] == pieces((n - 1) * 42, 20)[6 * s + c]);
    }
}

/// The number of corners of the first slices of a dot, and which they are.
proof fn lemma_slice_corners(centre: int, n: nat, s: int)
    requires
        0 <= centre,
        n <= 12,
        centre + 13 <= u32::MAX,
        0 <= s < n,
    ensures
        slices(centre, n, 12).len() == 3 * n,
        slices(centre, n, 12)[3 * s] == centre,
        slices(centre, n, 12)[3 * s + 1] == centre + 1 + s,
        slices(centre, n, 12)[3 * s + 2] == centre + 1 + (s + 1) % 12,
    decreases n,
{
    if n > 1 {
        lemma_slice_corners(centre, (n - 1) as nat, if s < n - 1 { s } else { 0 });
    }
    let front = slices(centre, (n - 1) as nat, 12);
    assert(front.len() == 3 * (n - 1));
    if s < n - 1 {
        assert(slices(centre, n, 12)[3 * s] == front[3 * s]);
        assert(slices(centre, n, 12)[3 * s + 1] == front[3 * s + 1]);
        assert(slices(centre, n, 12)[3 * s + 2] == front[3 * s + 2]);
    } else {
        let one = crate::viewer::grid::slice(centre, s, 12);
        assert(slices(centre, n, 12)[3 * s] == one[0]);
        assert(slices(centre, n, 12)[3 * s + 1] == one[1]);
        assert(slices(centre, n, 12)[3 * s + 2] == one[2]);
    }
}

/// A dot is drawn as twelve slices around its centre, each from one vertex of the
/// rim to the next, and the last one back to the first. Dots follow each other,
/// with 13 vertices each, the centre first.
pub proof fn dots_are_drawn_slice_by_slice(n: nat, dot: int, s: int)
    requires
        n * 13 <= u32::MAX,
        0 <= dot < n,
        0 <= s < 12,
    ensures
        dots_corners(n).len() == 36 * n,
        dots_corners(n)[36 * dot + 3 * s] == 13 * dot,
        dots_corners(n)[36 * dot + 3 * s + 1] == 13 * dot + 1 + s,
        dots_corners(n)[36 * dot + 3 * s + 2] == 13 * dot + 1 + (if s == 11 {
            0
        } else {
            s + 1
        }),
    decreases n,
{
    if n > 1 {
        dots_are_drawn_slice_by_slice((n - 1) as nat, if dot < n - 1 { dot } else { 0 }, s);
    }
    let front = dots_corners((n - 1) as nat);
    assert(front.len() == 36 * (n - 1));
    lemma_slice_corners((n - 1) * 13, 12, s);
    let at = 36 * dot + 3 * s;
    if dot < n - 1 {
        assert(at + 2 < front.len());
        assert(dots_corners(n)[at] == front[at]);
        assert(dots_corners(n)[at + 1] == front[at + 1]);
        assert(dots_corners(n)[at + 2] == front[at + 2]);
    } else {
        let last = slices((n - 1) * 13, 12, 12);
        assert(dots_corners(n)[at] == last[3 * s]);
        assert(dots_corners(n)[at + 1] == last[3 * s + 1]);
        assert(dots_corners(n)[at + 2] == last[3 * s + 2]);
    }
}

/// There is a dot wherever two lines cross, those of one line before those of the
/// next: where the lines numbered `x` and `z` cross, the dot is in row `x`, at `z`.
pub proof fn dots_stand_row_by_row(n: int, x: i32, z: i32)
    requires
        0 <= n < 0x4000_0000,
        -n <= x <= n,
        -n <= z <= n,
    ensures
        crossing(n, (x + n) * (2 * n + 1) + (z + n)) == (x, z),
{
    let w = 2 * n + 1;
    vstd::arithmetic::div_mod::lemma_fundamental_div_mod_converse(
        (x + n) * w + (z + n),
        w,
        x + n,
        z + n,
    );
}

/// The lines that are kept are listed in rising order, each once.
pub proof fn kept_lines_rise(n: int, left_out: Seq<bool>, count: int, a: int, b: int)
    requires
        0 <= n < 0x4000_0000,
        0 <= count <= left_out.len(),
        left_out.len() == 2 * n + 1,
        0 <= a < b < kept_lines(n, left_out, count).len(),
    ensures
        kept_lines(n, left_out, count)[a] < kept_lines(n, left_out, count)[b],
    decreases count,
{
    let front = kept_lines(n, left_out, count - 1);
    if b < front.len() {
        kept_lines_rise(n, left_out, count - 1, a, b);
    } else {
        let line = front[a];
        assert(front.contains(line));
        crate::viewer::grid::kept_lines_are_not_left_out(n, left_out, count - 1, line);
    }
}

/// The grid is built where there is a scene, and not again while it is built for a
/// size above zero and the size has changed by less than a tenth.
pub proof fn grids_are_rebuilt_when_the_size_changes(
    count: u32,
    built_for: Single,
    change: Single,
)
    ensures
        rebuilds(count, built_for, change) ==> count > 0,
        count > 0 && (built_for.nan() || built_for.place() <= 0) ==> rebuilds(
            count,
            built_for,
            change,
        ),
        count > 0 && (change.nan() || change.place() >= (Single { bits: 0x3dcc_cccd }).place())
            ==> rebuilds(count, built_for, change),
        !built_for.nan() && built_for.place() > 0 && !change.nan() && change.place() < (Single {
            bits: 0x3dcc_cccd,
        }).place() ==> !rebuilds(count, built_for, change),
{
}

/// The digit of a spacing is one, two, five or ten. Where another digit is as near
/// to the mantissa, it is not a larger one, and a larger mantissa never gets a
/// smaller digit.
pub proof fn digits_round_up_and_rise(mantissa: Single, other: Single, digit: int)
    requires
        0x3f80_0000 <= mantissa.bits <= other.bits < 0x4120_0000,
        digit == 1 || digit == 2 || digit == 5 || digit == 10,
    ensures
        nearest_digit(mantissa) == 1 || nearest_digit(mantissa) == 2 || nearest_digit(mantissa)
            == 5 || nearest_digit(mantissa) == 10,
        distance(mantissa, digit) == distance(mantissa, nearest_digit(mantissa) as int) ==> digit
            <= nearest_digit(mantissa),
        nearest_digit(mantissa) <= nearest_digit(other),
{
}

/// A choice of a variant is modelled by its prim, its set and its option, in this
/// order, and a list of choices choice by choice.
pub proof fn choices_are_modelled_in_order(list: Seq<VariantSelection>, i: int)
    requires
        0 <= i < list.len(),
    ensures
        selections(list).len() == list.len(),
        selections(list)[i].0 == list[i].prim_path@,
        selections(list)[i].1 == list[i].set_name@,
        selections(list)[i].2 == list[i].option@,
{
}

/// A text that is there is taken, and so is a directory; the other one only where
/// none is.
pub proof fn fallbacks_are_for_what_is_missing(s: String, dir: &str, other: Seq<char>)
    ensures
        text_or(Some(s), other) == s@,
        text_or(None, other) == other,
        directory_or(Some(dir), other) == dir@,
        directory_or(None, other) == other,
{
}

/// Where no file is named, the one that is opened is named so. A report of the
/// origin lists up to forty prims.
pub proof fn defaults_are_spelled()
    ensures
        ORIGIN_ROWS == 40,
        DEFAULT_ASSET@ == "two_xforms.usda"@,
        DEFAULT_DIRECTORY@ == "assets"@,
{
}

/// The name of the copy of a portable path ends in a dot and the extension of the
/// path, or `usda` where that has none, and is one that every copy has.
pub proof fn copies_keep_the_extension(
    name: Seq<char>,
    source: Seq<char>,
    list: Seq<(Seq<char>, Seq<char>, Seq<char>)>,
)
    requires
        is_portable(source),
        names_copy(name, source, list),
    ensures
        is_copy(name),
        name.len() >= 39,
        extension_of(source) matches Some(e) ==> name.skip(39) == e,
        extension_of(source) is None ==> name.skip(39) == "usda"@,
{
    let (fed, extension) = choose|fed: Seq<Seq<u8>>, extension: Option<Seq<char>>|
        {
            &&& #[trigger] may_feed(source, fed)
            &&& #[trigger] may_extend(source, extension)
            &&& is_portable(source) ==> extension == extension_of(source)
            &&& name == variant_name(
                DefaultHasher::spec_finish(fed + selection_writes(list)),
                crate::viewer::files::part_or(extension, "usda"@),
            )
        };
    let hash = DefaultHasher::spec_finish(fed + selection_writes(list));
    let e = crate::viewer::files::part_or(extension, "usda"@);
    copies_are_named_by_hash_and_extension(hash, e);
    reveal_strlit(".bevy_openusd_variant_");
    assert(name.len() == 39 + e.len());
}

/// A portable name that does not begin at the root is joined to a portable directory
/// by one mark, unless the directory ends in a separator or is empty.
pub proof fn joined_paths_hold_both_parts(path: Seq<char>, base: Seq<char>, name: Seq<char>)
    requires
        is_portable(name),
        is_portable(base),
        !is_rooted(name),
        is_joined(path, base, name),
    ensures
        base.is_prefix_of(path),
        path.len() <= base.len() + 1 + name.len(),
        path.skip(path.len() - name.len()) == name,
{
    assert(base =~= path.take(base.len() as int));
    assert(path.skip(path.len() - name.len()) =~= name);
}

/// The lower of two coordinates is the first where that is below the second, and the
/// upper one where it is above; in all other cases, and so where either is no number,
/// both are the second. The bounds of points and one more are taken so, the one more
/// as the second.
pub proof fn bounds_take_the_later_of_equals(
    a: Single,
    b: Single,
    points: Seq<[Single; 3]>,
    p: [Single; 3],
    axis: int,
)
    ensures
        a.below(b) ==> lower(a, b) == a && upper(a, b) == b,
        b.below(a) ==> lower(a, b) == b && upper(a, b) == a,
        !a.below(b) && !b.below(a) ==> lower(a, b) == b && upper(a, b) == b,
        lowest(points.push(p), axis) == lower(lowest(points, axis), p[axis]),
        highest(points.push(p), axis) == upper(highest(points, axis), p[axis]),
{
    assert(points.push(p).drop_last() =~= points);
    assert(points.push(p).last() == p);
}

/// There are 120 corners to every line and 36 to every dot, and none to none.
pub proof fn corners_are_counted(n: nat)
    ensures
        lines_corners(n).len() == 120 * n,
        dots_corners(n).len() == 36 * n,
    decreases n,
{
    if n > 0 {
        corners_are_counted((n - 1) as nat);
        lemma_corner_counts((n - 1) * 42, (n - 1) * 13, 20, 12);
    }
}

/// There are six corners to every piece of a line and three to every slice of a dot.
proof fn lemma_corner_counts(first: int, centre: int, n: nat, m: nat)
    ensures
        pieces(first, n).len() == 6 * n,
        slices(centre, m, 12).len() == 3 * m,
    decreases n, m,
{
    if n > 0 {
        lemma_corner_counts(first, centre, (n - 1) as nat, m);
    } else if m > 0 {
        lemma_corner_counts(first, centre, n, (m - 1) as nat);
    }
}

} // verus!
