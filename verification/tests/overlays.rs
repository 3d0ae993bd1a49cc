use bevy_openusd::ieee::Single;
use bevy_openusd::viewer::extent::{
    box_corner, compute_extent, highlight_corner, highlight_edge, prim_bounds, PrimBounds,
    SceneExtent,
};
use bevy_openusd::viewer::grid::{
    bucket_digit, build_grid_dots_mesh, build_grid_lines_mesh, push_disc_faded,
    push_line_segmented, rebuild_world_grid_when_ready, world_grid_built, WorldGridState,
};

fn single(x: f32) -> Single {
    Single { bits: x.to_bits() }
}

fn point(x: f32, y: f32, z: f32) -> [Single; 3] {
    [single(x), single(y), single(z)]
}

#[test]
fn the_bounds_of_nothing_are_upside_down() {
    let e = SceneExtent::default();
    assert_eq!(e.count, 0);
    assert_eq!(e.min, point(f32::INFINITY, f32::INFINITY, f32::INFINITY));
    assert_eq!(e.max, point(f32::NEG_INFINITY, f32::NEG_INFINITY, f32::NEG_INFINITY));
    assert_eq!(compute_extent(&vec![], 0), e);
}

#[test]
fn the_bounds_hold_their_points() {
    let points = vec![point(1.0, -2.0, 3.0), point(-1.0, 5.0, 0.0), point(0.5, 0.0, -7.0)];
    let e = compute_extent(&points, 2);
    assert_eq!(e.min, point(-1.0, -2.0, -7.0));
    assert_eq!(e.max, point(1.0, 5.0, 3.0));
    assert_eq!(e.count, 2);
}

#[test]
fn a_point_behind_one_without_a_place_counts_alone() {
    let points = vec![point(1.0, 1.0, 1.0), point(f32::NAN, 0.0, 0.0), point(5.0, 2.0, 2.0)];
    let e = compute_extent(&points, 3);
    assert_eq!(e.min, point(5.0, 0.0, 0.0));
    assert_eq!(e.max, point(5.0, 2.0, 2.0));
}

#[test]
fn authored_boxes_go_before_rendered_ones() {
    let (a, b) = (point(0.0, 0.0, 0.0), point(1.0, 1.0, 1.0));
    assert_eq!(prim_bounds(Some((a, b)), Some((b, b))), PrimBounds::Box { low: a, high: b });
    assert_eq!(prim_bounds(None, Some((a, b))), PrimBounds::Box { low: a, high: b });
    assert_eq!(prim_bounds(None, None), PrimBounds::Point);
}

#[test]
fn boxes_have_eight_corners() {
    let (low, high) = (point(0.0, 1.0, 2.0), point(3.0, 4.0, 5.0));
    assert_eq!(box_corner(0, &low, &high), low);
    assert_eq!(box_corner(1, &low, &high), point(3.0, 1.0, 2.0));
    assert_eq!(box_corner(2, &low, &high), point(0.0, 4.0, 2.0));
    assert_eq!(box_corner(4, &low, &high), point(0.0, 1.0, 5.0));
    assert_eq!(box_corner(7, &low, &high), high);
}

#[test]
fn the_outline_of_a_box_has_twelve_edges() {
    let corners: Vec<(bool, bool, bool)> = (0..8).map(highlight_corner).collect();
    assert_eq!(corners[0], (false, false, false));
    assert_eq!(corners[1], (true, false, false));
    assert_eq!(corners[2], (true, true, false));
    assert_eq!(corners[3], (false, true, false));
    assert_eq!(corners[6], (true, true, true));
    let edges: Vec<(usize, usize)> = (0..12).map(highlight_edge).collect();
    assert_eq!(
        edges,
        vec![
            (0, 1), (1, 2), (2, 3), (3, 0), (4, 5), (5, 6), (6, 7), (7, 4), (0, 4), (1, 5), (2, 6),
            (3, 7),
        ]
    );
}

#[test]
fn lines_are_cut_into_twenty_pieces() {
    let mut indices = vec![];
    assert_eq!(push_line_segmented(&mut indices, 10), 52);
    assert_eq!(indices.len(), 120);
    assert_eq!(indices[..6], [10, 11, 13, 10, 13, 12]);
    assert_eq!(indices[114..], [48, 49, 51, 48, 51, 50]);
}

#[test]
fn dots_are_fans_around_their_centre() {
    let mut indices = vec![];
    assert_eq!(push_disc_faded(&mut indices, 5, 3), 9);
    assert_eq!(indices, vec![5, 6, 7, 5, 7, 8, 5, 8, 6]);
}

#[test]
fn layers_of_lines_leave_lines_out() {
    let all = build_grid_lines_mesh(1, &vec![false; 3]);
    assert_eq!(all.along, vec![-1, 0, 1]);
    assert_eq!(all.across, all.along);
    assert_eq!(all.vertices, 6 * 42);
    assert_eq!(all.indices.len(), 6 * 120);
    assert!(all.indices.iter().all(|i| *i < all.vertices));
    let some = build_grid_lines_mesh(2, &vec![true, false, true, false, true]);
    assert_eq!(some.along, vec![-1, 1]);
    assert_eq!(some.vertices, 4 * 42);
}

#[test]
fn dots_are_where_lines_cross() {
    let layer = build_grid_dots_mesh(1);
    assert_eq!(
        layer.dots,
        vec![(-1, -1), (-1, 0), (-1, 1), (0, -1), (0, 0), (0, 1), (1, -1), (1, 0), (1, 1)]
    );
    assert_eq!(layer.vertices, 9 * 13);
    assert_eq!(layer.indices.len(), 9 * 36);
    assert!(layer.indices.iter().all(|i| *i < layer.vertices));
}

#[test]
fn the_grid_is_built_anew_when_the_scene_changes_its_size() {
    let mut s = WorldGridState { built_for_diag: single(0.0), entities: vec![] };
    assert_eq!(rebuild_world_grid_when_ready(&mut s, 0, single(9.0)), None);
    assert_eq!(rebuild_world_grid_when_ready(&mut s, 1, single(f32::NAN)), Some(vec![]));
    world_grid_built(&mut s, single(4.0), 1, 2, 3);
    assert_eq!(s.entities, vec![1, 2, 3]);
    assert_eq!(rebuild_world_grid_when_ready(&mut s, 1, single(0.0)), None);
    assert_eq!(rebuild_world_grid_when_ready(&mut s, 1, single(0.09)), None);
    assert_eq!(rebuild_world_grid_when_ready(&mut s, 1, single(0.1)), Some(vec![1, 2, 3]));
    assert!(s.entities.is_empty());
    assert_eq!(s.built_for_diag, single(4.0));
}

#[test]
fn spacings_begin_with_the_nearest_of_one_two_and_five() {
    for (mantissa, digit) in [
        (1.0, 1),
        (1.49, 1),
        (1.5, 2),
        (1.9, 2),
        (3.4, 2),
        (3.5, 5),
        (5.0, 5),
        (7.4, 5),
        (7.5, 10),
        (9.9, 10),
    ] {
        assert_eq!(bucket_digit(single(mantissa)), digit);
    }
}
