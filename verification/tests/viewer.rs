use bevy_openusd::ieee::{Double, Single};
use bevy_openusd::viewer::animation::{
    animated_rotation, drive_blend_shape_weights, drive_mesh, drive_skel_animations, skel_report,
    BlendDriver, MorphMesh, SkelReport,
};
use bevy_openusd::viewer::camera::{
    apply_fly_to, find_text, fit_camera_once, follow_mounted_camera, projection_or_default,
    CameraMount, CameraProjection, FitInput, FitState,
};
use bevy_openusd::viewer::clock::{sync_clock, tick_stage_time, StageClock, Tick, Timeline};
use bevy_openusd::viewer::display::{
    draw_joint_gizmos, hide_meshes_on_startup, rebuild_tuned_meshes, tuning_moved, DisplayToggles,
    Rebuild, TuningKey,
};
use bevy_openusd::viewer::files::{
    asset_at, env_flag, env_is_one, is_variant_copy, loader_settings, needs_variant_copy,
    resolve_load_request, resolve_requested_asset, sweep_variant_tempfiles, to_hex,
    unique_variant_basename, variant_basename, PathParts, Tuning, VariantSelection,
};
use bevy_openusd::viewer::report::{
    count_meshes, origin_report, report_once, sort_rows, text_comes_before, ReportAction,
};
use bevy_openusd::viewer::session::{
    apply_load_request, describe_stage, finish_reload, handle_usd_hot_reload, spawn_when_ready,
    AssetChange, LoadStatus, ReloadPlan, Session, SpawnAction, StageInfo, StageTally,
};
use bevy_openusd::xform::Axis;
use std::collections::hash_map::DefaultHasher;
use std::collections::HashSet;
use std::hash::{Hash, Hasher};
use std::path::Path;

fn single(x: f32) -> Single {
    Single { bits: x.to_bits() }
}

fn double(x: f64) -> Double {
    Double { bits: x.to_bits() }
}

fn text(s: &str) -> String {
    s.to_string()
}

fn list(items: &[&str]) -> Vec<String> {
    items.iter().map(|s| text(s)).collect()
}

// Files.

#[test]
fn a_file_is_found_in_its_directory() {
    let parts = PathParts { file_name: Some(text("a.usda")), parent: Some(text("/scenes")) };
    let r = asset_at("a.usda", &parts, "/root");
    assert_eq!((r.name.as_str(), r.root.as_str()), ("a.usda", "/scenes"));
    let none = PathParts { file_name: None, parent: None };
    let r = asset_at("/", &none, "/root");
    assert_eq!((r.name.as_str(), r.root.as_str()), ("/", "/root"));
}

#[test]
fn the_requested_file_is_taken_apart() {
    let ask = |arg: Option<&str>, dir: Option<&str>| {
        let r = resolve_requested_asset(arg, dir, "/root");
        (r.name, r.root)
    };
    assert_eq!(ask(None, Some("/home")), (text("two_xforms.usda"), text("/root/assets")));
    assert_eq!(ask(Some("/scenes/a.usda"), Some("/home")), (text("a.usda"), text("/scenes")));
    assert_eq!(ask(Some("b/a.usda"), Some("/home")), (text("a.usda"), text("/home/b")));
    assert_eq!(ask(Some("a.usda"), None), (text("a.usda"), text("/root")));
    assert_eq!(ask(Some("/"), None), (text("/"), text("/root")));
    assert_eq!(ask(Some("a.usda"), Some("/home/")), (text("a.usda"), text("/home")));
    assert_eq!(ask(Some("a.usda"), Some("")), (text("a.usda"), text("")));
    assert_eq!(ask(Some(".."), Some("b")), (text(".."), text("b")));
}

#[test]
fn a_chosen_file_is_taken_apart() {
    let ask = |path: &str| {
        let r = resolve_load_request(path);
        (r.name, r.root)
    };
    assert_eq!(ask("/scenes/a.usda"), (text("a.usda"), text("/scenes")));
    assert_eq!(ask("/"), (text("/"), text(".")));
    assert_eq!(ask("/a.usda"), (text("a.usda"), text("/")));
    assert_eq!(ask("a.usda"), (text("a.usda"), text("")));
    assert_eq!(ask("./a.usda"), (text("a.usda"), text(".")));
    assert_eq!(ask("b//./a.usda/.//"), (text("a.usda"), text("b")));
    assert_eq!(ask("/./a"), (text("a"), text("/")));
    assert_eq!(ask("././a"), (text("a"), text(".")));
    assert_eq!(ask("b/.."), (text("b/.."), text("b")));
    assert_eq!(ask("/.."), (text("/.."), text("/")));
    assert_eq!(ask(".."), (text(".."), text("")));
    assert_eq!(ask("./."), (text("./."), text("")));
    assert_eq!(ask("/./"), (text("/./"), text(".")));
    assert_eq!(ask(""), (text(""), text(".")));
}

#[test]
fn hashes_are_written_in_sixteen_digits() {
    for x in [0, 1, 0xdead_beef, u64::MAX, 0x0123_4567_89ab_cdef] {
        assert_eq!(to_hex(x), format!("{x:016x}"));
    }
}

#[test]
fn copies_are_named_after_their_hash_and_swept_up() {
    let name = variant_basename(0xabc, Some("usdc"));
    assert_eq!(name, ".bevy_openusd_variant_0000000000000abc.usdc");
    let plain = variant_basename(1, None);
    assert_eq!(plain, ".bevy_openusd_variant_0000000000000001.usda");
    assert!(is_variant_copy(&name));
    assert!(!is_variant_copy("scene.usda"));
    let files = vec![text("a.usda"), name.clone(), text("bevy_openusd_variant_"), plain.clone()];
    assert_eq!(sweep_variant_tempfiles(&files), vec![name, plain]);
}

#[test]
fn every_choice_of_variants_has_its_own_copy() {
    let choice = |option: &str| {
        vec![VariantSelection {
            prim_path: text("/A"),
            set_name: text("color"),
            option: text(option),
        }]
    };
    let red = unique_variant_basename("/scenes/a.usdc", &choice("red"));
    assert!(is_variant_copy(&red));
    assert!(red.ends_with(".usdc"));
    assert_eq!(red, unique_variant_basename("/scenes/a.usdc", &choice("red")));
    assert_ne!(red, unique_variant_basename("/scenes/a.usdc", &choice("blue")));
    assert_ne!(red, unique_variant_basename("/scenes/b.usdc", &choice("red")));
    assert_ne!(red, unique_variant_basename("/scenes/a.usdc", &vec![]));
    for (source, end) in [
        ("/scenes/a", ".usda"),
        ("/scenes/.usdc", ".usda"),
        ("/scenes.usdc/a", ".usda"),
        ("/scenes/..", ".usda"),
        ("/scenes/a.b.usdz/", ".usdz"),
        ("/scenes/.a.usdz", ".usdz"),
        ("/scenes/a.", "."),
    ] {
        assert!(unique_variant_basename(source, &vec![]).ends_with(end));
    }
    // The hash is that of the path and of the three texts of each choice.
    let mut h = DefaultHasher::new();
    Path::new("/scenes/a.usdc").hash(&mut h);
    for s in ["/A", "color", "red"] {
        s.hash(&mut h);
    }
    assert_eq!(red, variant_basename(h.finish(), Some("usdc")));
}

#[test]
fn copies_are_made_when_they_are_missing_or_old() {
    assert!(needs_variant_copy(Some(Some(2)), Some(Some(1))));
    assert!(!needs_variant_copy(Some(Some(1)), Some(Some(1))));
    assert!(!needs_variant_copy(Some(Some(1)), Some(Some(2))));
    assert!(needs_variant_copy(Some(Some(1)), None));
    assert!(needs_variant_copy(Some(None), Some(Some(1))));
    assert!(needs_variant_copy(Some(Some(1)), Some(None)));
    assert!(needs_variant_copy(None, Some(Some(1))));
}

#[test]
fn stages_are_loaded_as_tuned() {
    let choice = VariantSelection {
        prim_path: text("/A"),
        set_name: text("color"),
        option: text("red"),
    };
    let tuning = Tuning {
        curve_default_radius: single(0.5),
        curve_ring_segments: 8,
        point_scale: single(2.0),
        variant_selections: vec![choice.clone()],
    };
    let s = loader_settings("/scenes", Some("true"), &tuning);
    assert_eq!(s.search_paths, vec![text("/scenes")]);
    assert!(s.kind_collapse);
    assert_eq!(s.curve_default_radius, single(0.5));
    assert_eq!(s.curve_ring_segments, 8);
    assert_eq!(s.point_scale, single(2.0));
    assert_eq!(s.variant_selections, vec![choice]);
    assert!(!loader_settings("/scenes", None, &tuning).kind_collapse);
}

#[test]
fn the_environment_switches_things_on() {
    for v in ["1", "true", "on"] {
        assert!(env_flag(Some(v)));
    }
    for v in ["0", "", "yes", "True"] {
        assert!(!env_flag(Some(v)));
    }
    assert!(!env_flag(None));
    assert!(env_is_one(Some("1")));
    assert!(!env_is_one(Some("true")));
    assert!(!env_is_one(None));
}

// The session.

#[test]
fn modified_and_requested_stages_are_taken_down() {
    let shown = Session { spawned: true, reload_requested: false, default_sun: true };
    let mut s = shown;
    let plan = handle_usd_hot_reload(&mut s, Some(7), &vec![AssetChange::Modified(8)]);
    assert_eq!(plan, ReloadPlan { despawn: false, reload: false });
    assert_eq!(s, shown);
    let changes = vec![AssetChange::Other, AssetChange::Modified(7)];
    let plan = handle_usd_hot_reload(&mut s, Some(7), &changes);
    assert_eq!(plan, ReloadPlan { despawn: true, reload: false });
    assert!(!s.spawned);
    let mut s = Session { spawned: true, reload_requested: true, default_sun: true };
    assert_eq!(
        handle_usd_hot_reload(&mut s, None, &changes),
        ReloadPlan { despawn: false, reload: false }
    );
    assert!(s.reload_requested);
    let plan = handle_usd_hot_reload(&mut s, Some(7), &vec![]);
    assert_eq!(plan, ReloadPlan { despawn: true, reload: true });
    assert!(s.spawned && !s.reload_requested);
    assert!(!finish_reload(&mut s, false));
    assert!(s.spawned);
    assert!(finish_reload(&mut s, true));
    assert!(!s.spawned);
}

#[test]
fn stages_are_shown_once_and_failures_reported_once() {
    for (status, action) in [
        (LoadStatus::Loaded { suns: Some(0) }, SpawnAction::Show),
        (LoadStatus::Failed, SpawnAction::Report),
    ] {
        let mut s = Session { spawned: false, reload_requested: false, default_sun: true };
        for waiting in [LoadStatus::Pending, LoadStatus::Loaded { suns: None }] {
            assert_eq!(spawn_when_ready(&mut s, waiting), SpawnAction::Nothing);
            assert!(!s.spawned);
        }
        assert_eq!(spawn_when_ready(&mut s, status), action);
        assert!(s.spawned);
        assert_eq!(spawn_when_ready(&mut s, status), SpawnAction::Nothing);
    }
}

fn info() -> StageInfo {
    StageInfo {
        path: text("old.usda"),
        default_prim: None,
        layer_count: 0,
        variant_count: 0,
        lights_directional: 0,
        lights_point: 0,
        lights_spot: 0,
        lights_dome: 0,
        instance_prim_count: 0,
        instance_prototype_reuses: 0,
        animated_prim_count: 0,
        skeleton_count: 0,
        skel_root_count: 0,
        skel_binding_count: 0,
        render_settings_count: 0,
        render_product_count: 0,
        render_var_count: 0,
        render_primary_resolution: None,
        render_primary_path: None,
        rigid_body_count: 0,
        physics_scene_count: 0,
        joint_count: 0,
        custom_attr_prim_count: 0,
        custom_layer_data_entries: 0,
        subdivision_prim_count: 0,
        light_linked_count: 0,
        clip_prim_count: 0,
    }
}

fn tally() -> StageTally {
    StageTally {
        default_prim: Some(text("World")),
        layer_count: 2,
        variant_sets: vec![3, 4],
        lights_directional: 5,
        lights_point: 6,
        lights_spot: 7,
        lights_dome: 8,
        instance_prim_count: 9,
        instance_prototype_reuses: 10,
        animated_prim_count: 11,
        skeleton_count: 12,
        skel_root_count: 13,
        skel_binding_count: 14,
        render_settings: vec![(text("/R"), Some((640, 480))), (text("/S"), None)],
        render_product_count: 15,
        render_var_count: 16,
        rigid_body_count: 17,
        physics_scene_count: 18,
        joint_count: 19,
        custom_attr_prim_count: 20,
        custom_layer_data_entries: 21,
        subdivision_prim_count: 22,
        light_linked_count: 23,
        clip_prim_count: 24,
    }
}

#[test]
fn a_stage_with_a_sun_takes_down_the_default_one() {
    let mut s = Session { spawned: false, reload_requested: false, default_sun: true };
    for status in [LoadStatus::Pending, LoadStatus::Loaded { suns: None }] {
        spawn_when_ready(&mut s, status);
        assert!(s.default_sun);
    }
    assert_eq!(spawn_when_ready(&mut s, LoadStatus::Loaded { suns: Some(0) }), SpawnAction::Show);
    assert!(s.default_sun && s.spawned);
    spawn_when_ready(&mut s, LoadStatus::Loaded { suns: Some(2) });
    assert!(s.default_sun);
    s.spawned = false;
    assert_eq!(spawn_when_ready(&mut s, LoadStatus::Loaded { suns: Some(2) }), SpawnAction::Show);
    assert!(!s.default_sun && s.spawned);
    s.spawned = false;
    spawn_when_ready(&mut s, LoadStatus::Loaded { suns: Some(0) });
    assert!(!s.default_sun);
}

#[test]
fn a_loaded_stage_is_described() {
    let mut i = info();
    describe_stage(&mut i, &tally());
    assert_eq!(i.path, "old.usda");
    assert_eq!(i.default_prim, Some(text("World")));
    assert_eq!((i.layer_count, i.variant_count), (2, 7));
    assert_eq!((i.lights_directional, i.lights_point, i.lights_spot, i.lights_dome), (5, 6, 7, 8));
    assert_eq!((i.instance_prim_count, i.instance_prototype_reuses), (9, 10));
    assert_eq!((i.animated_prim_count, i.skeleton_count), (11, 12));
    assert_eq!((i.skel_root_count, i.skel_binding_count), (13, 14));
    assert_eq!((i.render_settings_count, i.render_product_count, i.render_var_count), (2, 15, 16));
    assert_eq!(i.render_primary_path, Some(text("/R")));
    assert_eq!(i.render_primary_resolution, Some((640, 480)));
    assert_eq!((i.rigid_body_count, i.physics_scene_count, i.joint_count), (17, 18, 19));
    assert_eq!((i.custom_attr_prim_count, i.custom_layer_data_entries), (20, 21));
    assert_eq!((i.subdivision_prim_count, i.light_linked_count, i.clip_prim_count), (22, 23, 24));
}

#[test]
fn another_file_starts_over() {
    let mut i = info();
    describe_stage(&mut i, &tally());
    let mut s = Session { spawned: true, reload_requested: false, default_sun: true };
    apply_load_request(&mut s, &mut i, "new.usda");
    assert!(!s.spawned);
    assert_eq!(i.path, "new.usda");
    assert_eq!(i.default_prim, None);
    assert_eq!((i.layer_count, i.variant_count), (0, 0));
    assert_eq!(i.joint_count, 19);
}

// The camera.

#[test]
fn the_camera_is_set_once_the_scene_stands_still() {
    let input = |diag: f32, limit: f32| FitInput {
        count: 1,
        has_prims: true,
        diag: single(diag),
        growth_limit: single(limit),
        has_camera: true,
    };
    let start = FitState { done: false, wait_ticks: 0, last_diag: single(0.0) };
    let mut s = start;
    assert!(!fit_camera_once(&mut s, &input(1.0, 0.0)));
    assert_eq!((s.wait_ticks, s.last_diag), (1, single(1.0)));
    assert!(fit_camera_once(&mut s, &input(1.0, 1.05)));
    assert!(s.done);
    assert!(!fit_camera_once(&mut s, &input(9.0, 0.0)));
    // A scene that keeps growing is waited for until the sixtieth frame.
    let mut s = start;
    let mut frames = 1;
    while !fit_camera_once(&mut s, &input(2.0, 1.0)) {
        frames += 1;
    }
    assert_eq!(frames, 60);
    // Nothing happens without a scene, and nothing is done without a camera.
    let mut s = start;
    assert!(!fit_camera_once(&mut s, &FitInput { count: 0, ..input(1.0, 2.0) }));
    assert!(!fit_camera_once(&mut s, &FitInput { has_prims: false, ..input(1.0, 2.0) }));
    assert_eq!(s, start);
    assert!(!fit_camera_once(&mut s, &FitInput { has_camera: false, ..input(1.0, 2.0) }));
    assert!(!s.done && s.wait_ticks == 1);
}

#[test]
fn the_view_follows_the_mounted_camera() {
    let cameras = list(&["/A", "/B", "/B"]);
    let prims = list(&["/X", "/B"]);
    let mounted = |p: &str| CameraMount::Mounted { prim_path: text(p) };
    assert_eq!(follow_mounted_camera(&mounted("/B"), &cameras, &prims), Some((1, 1)));
    assert_eq!(follow_mounted_camera(&mounted("/A"), &cameras, &prims), None);
    assert_eq!(follow_mounted_camera(&mounted("/X"), &cameras, &prims), None);
    assert_eq!(follow_mounted_camera(&CameraMount::Arcball, &cameras, &prims), None);
    assert_eq!(find_text(&cameras, "/B"), Some(1));
    assert_eq!(find_text(&cameras, "/C"), None);
    assert_eq!(projection_or_default(None), CameraProjection::Perspective);
    assert_eq!(
        projection_or_default(Some(CameraProjection::Orthographic)),
        CameraProjection::Orthographic
    );
}

#[test]
fn a_flight_moves_while_time_remains() {
    let (a, b) = (Some(single(1.0)), Some(single(2.0)));
    let plan = apply_fly_to(single(0.5), true, (a, b), (a, None));
    assert!(plan.moving);
    assert_eq!(plan.yaw, Some((single(1.0), single(2.0))));
    assert_eq!(plan.elevation, None);
    for remaining in [0.0, -0.0, -1.0] {
        let plan = apply_fly_to(single(remaining), true, (a, b), (a, b));
        assert!(!plan.moving && plan.yaw.is_none() && plan.elevation.is_none());
    }
    assert!(!apply_fly_to(single(0.5), false, (a, b), (a, b)).moving);
    assert!(apply_fly_to(single(f32::NAN), true, (a, b), (a, b)).moving);
}

// The clock.

fn clock() -> StageClock {
    StageClock {
        start_time_code: double(0.0),
        end_time_code: double(0.0),
        time_codes_per_second: double(24.0),
        seconds: double(3.0),
        playing: false,
        initialized: false,
    }
}

#[test]
fn the_clock_is_set_by_the_first_stage() {
    let timeline = |end: f64, prims: usize| Timeline {
        start_time_code: double(1.0),
        end_time_code: double(end),
        time_codes_per_second: double(30.0),
        animated_prims: prims,
        skel_animations: 0,
    };
    let mut c = clock();
    assert!(!sync_clock(&mut c, &None));
    assert_eq!(c, clock());
    assert!(sync_clock(&mut c, &Some(timeline(1.0, 0))));
    assert!(c.initialized && !c.playing);
    assert_eq!(c.seconds, double(0.0));
    assert_eq!(c.time_codes_per_second, double(30.0));
    assert!(!sync_clock(&mut c, &Some(timeline(9.0, 9))));
    assert!(!c.playing);
    for t in [timeline(2.0, 0), timeline(1.0, 1)] {
        let mut c = clock();
        sync_clock(&mut c, &Some(t));
        assert!(c.playing);
    }
}

#[test]
fn the_clock_holds_at_the_end_and_starts_over() {
    let mut c = StageClock { playing: true, ..clock() };
    let tick = |advanced: f64, hold: f64, hold_advanced: f64, duration: f64| Tick {
        advanced: double(advanced),
        hold: double(hold),
        hold_advanced: double(hold_advanced),
        duration: double(duration),
    };
    assert_eq!(tick_stage_time(&mut c, &tick(1.5, 0.3, 0.4, 2.0)), double(0.0));
    assert_eq!(c.seconds, double(1.5));
    assert_eq!(tick_stage_time(&mut c, &tick(2.5, 0.3, 0.4, 2.0)), double(0.4));
    assert_eq!(c.seconds, double(2.0));
    assert_eq!(tick_stage_time(&mut c, &tick(2.5, 0.9, 1.0, 2.0)), double(0.0));
    assert_eq!(c.seconds, double(0.0));
    assert_eq!(tick_stage_time(&mut c, &tick(7.0, 0.3, 0.4, 0.0)), double(0.3));
    assert_eq!(c.seconds, double(7.0));
    c.playing = false;
    assert_eq!(tick_stage_time(&mut c, &tick(8.0, 0.3, 0.4, 2.0)), double(0.3));
    assert_eq!(c.seconds, double(7.0));
}

// Animation.

#[test]
fn the_last_animated_axis_wins() {
    let (x, y, z) = (Some(single(1.0)), Some(single(2.0)), Some(single(3.0)));
    assert_eq!(animated_rotation(y, x, z), Some((Axis::Z, single(3.0))));
    assert_eq!(animated_rotation(y, x, None), Some((Axis::X, single(1.0))));
    assert_eq!(animated_rotation(y, None, None), Some((Axis::Y, single(2.0))));
    assert_eq!(animated_rotation(None, None, None), None);
}

#[test]
fn channels_move_the_joints_that_are_there() {
    let mut joints: Vec<Option<u64>> = vec![Some(1), None, Some(2), Some(3)];
    let present = HashSet::from([1, 3]);
    let plan = drive_skel_animations(&joints, &present);
    assert_eq!(plan.writes, vec![(0, 1), (3, 3)]);
    assert_eq!(plan.misses, 2);
    assert_eq!(plan.probe, None);
    joints.resize(11, None);
    joints.push(Some(9));
    assert_eq!(drive_skel_animations(&joints, &present).probe, Some(9));
    joints.truncate(10);
    assert_eq!(drive_skel_animations(&joints, &present).probe, None);
}

#[test]
fn skeletons_are_reported_first_and_every_thirtieth_frame() {
    let mut emitted = false;
    assert_eq!(skel_report(&mut emitted, 0, 1), SkelReport::Nothing);
    assert_eq!(skel_report(&mut emitted, 0, 30), SkelReport::Periodic);
    assert_eq!(skel_report(&mut emitted, 5, 60), SkelReport::First);
    assert!(emitted);
    assert_eq!(skel_report(&mut emitted, 5, 61), SkelReport::Nothing);
    assert_eq!(skel_report(&mut emitted, 5, 90), SkelReport::Periodic);
}

#[test]
fn blend_shapes_follow_the_channel_of_their_name() {
    let driver = BlendDriver {
        names: list(&["smile", "frown", "smile", "blink"]),
        weights: vec![single(0.1), single(0.2), single(0.3)],
    };
    let mesh = |names: &[&str], n: usize| MorphMesh {
        names: list(names),
        weights: vec![single(9.0); n],
    };
    let face = mesh(&["smile", "frown", "blink", "wink"], 5);
    let (weights, driven) = drive_mesh(&driver, &face, false);
    assert_eq!(weights, vec![single(0.3), single(0.2), single(0.0), single(0.0), single(9.0)]);
    assert_eq!(driven, 4);
    let (weights, driven) = drive_mesh(&driver, &mesh(&["smile", "frown"], 1), true);
    assert_eq!((weights, driven), (vec![single(1.0)], 1));
    let meshes = vec![face, mesh(&[], 1)];
    let update = drive_blend_shape_weights(&Some(driver), &meshes, false).unwrap();
    assert_eq!(update.targets, vec![4, 0]);
    assert_eq!(update.weights[1], vec![single(9.0)]);
    let silent = BlendDriver { names: list(&["smile"]), weights: vec![] };
    assert!(drive_blend_shape_weights(&Some(silent), &meshes, false).is_none());
    assert!(drive_blend_shape_weights(&None, &meshes, true).is_none());
}

// Reports.

#[test]
fn rows_are_sorted_by_path() {
    assert!(text_comes_before("/A", "/A/B"));
    assert!(text_comes_before("/A/B", "/B"));
    assert!(!text_comes_before("/A", "/A"));
    assert!(text_comes_before("/Z", "/a"));
    assert!(text_comes_before("/z", "/ä"));
    let paths = list(&["/B", "/A/C", "/B", "/A"]);
    assert_eq!(sort_rows(&paths), vec![3, 1, 0, 2]);
    assert!(sort_rows(&vec![]).is_empty());
}

#[test]
fn reports_are_written_once() {
    let mut done = false;
    assert_eq!(report_once(&mut done, 0, true), ReportAction::Nothing);
    assert!(!done);
    assert_eq!(report_once(&mut done, 3, true), ReportAction::Write);
    assert_eq!(report_once(&mut done, 3, true), ReportAction::Nothing);
    let mut done = false;
    assert_eq!(report_once(&mut done, 3, false), ReportAction::Nothing);
    assert!(done);
    assert_eq!(count_meshes(&vec![true, false, true]), 2);
}

#[test]
fn at_most_forty_prims_at_the_origin_are_listed() {
    let few = origin_report(&vec![false, true, true]);
    assert_eq!((few.near.clone(), few.listed, few.more), (vec![1, 2], 2, 0));
    let many = origin_report(&vec![true; 43]);
    assert_eq!((many.near.len(), many.listed, many.more), (43, 40, 3));
    let none = origin_report(&vec![false]);
    assert_eq!((none.near.len(), none.listed, none.more), (0, 0, 0));
}

// Display.

#[test]
fn the_grid_is_on_and_the_rest_off() {
    let t = DisplayToggles::default();
    assert!(t.show_world_grid);
    assert!(!t.show_world_axes && !t.show_prim_markers && !t.show_skeleton && !t.wireframe);
    assert_eq!((t.prim_marker_bias, t.light_intensity_scale), (single(1.0), single(1.0)));
}

#[test]
fn bones_are_drawn_for_the_user_and_spheres_for_the_environment() {
    for (show, forced) in [(false, false), (false, true), (true, false), (true, true)] {
        let g = draw_joint_gizmos(show, forced);
        assert_eq!((g.bones, g.spheres), (show || forced, forced));
    }
}

#[test]
fn meshes_are_hidden_until_there_have_been_some() {
    let mut done = false;
    assert!(!hide_meshes_on_startup(false, &mut done, 3));
    assert!(hide_meshes_on_startup(true, &mut done, 0));
    assert!(!done);
    assert!(hide_meshes_on_startup(true, &mut done, 2));
    assert!(done);
    assert!(!hide_meshes_on_startup(true, &mut done, 2));
}

#[test]
fn tuned_meshes_are_rebuilt_when_a_slider_moves() {
    let key = |r: f32, n: u32| TuningKey {
        radius: single(r),
        rings: n,
        point_scale: single(1.0),
    };
    let mut last = None;
    assert!(tuning_moved(&mut last, key(0.5, 8)));
    assert!(!tuning_moved(&mut last, key(0.5, 8)));
    assert!(tuning_moved(&mut last, key(0.5, 9)));
    assert!(tuning_moved(&mut last, key(0.25, 9)));
    assert!(tuning_moved(&mut last, key(f32::NAN, 9)));
    assert!(tuning_moved(&mut last, key(f32::NAN, 9)));
    assert!(tuning_moved(&mut last, key(0.0, 9)));
    assert!(!tuning_moved(&mut last, key(-0.0, 9)));
    let rebuilt = rebuild_tuned_meshes(
        &list(&["/A", "/B", "/C", "/D"]),
        &list(&["/A", "/D"]),
        &list(&["/B", "/D"]),
    );
    assert_eq!(rebuilt, vec![Rebuild::Curves, Rebuild::Points, Rebuild::Nothing, Rebuild::Curves]);
}
