//! The session: loading a stage, showing it, and loading it again.

use crate::text::text_of;
use vstd::prelude::*;

verus! {

/// What the session remembers between frames.
#[derive(Debug, Clone, Copy, PartialEq, Eq, Structural)]
pub struct Session {
    /// Whether the loaded stage is shown, or has failed to load.
    pub spawned: bool,
    /// Whether the user has asked for the stage to be loaded again.
    pub reload_requested: bool,
    /// Whether the viewer's own sun is up, which lights stages that have none.
    pub default_sun: bool,
}

/// What became of an asset.
#[derive(Debug, Clone, Copy, PartialEq, Eq, Structural)]
pub enum AssetChange {
    Modified(u64),
    Other,
}

/// What to do about changes of the stage.
#[derive(Debug, Clone, Copy, PartialEq, Eq, Structural)]
pub struct ReloadPlan {
    /// Take down what is shown.
    pub despawn: bool,
    /// Drop the stage, and load it again under another name.
    pub reload: bool,
}

/// Whether a list of changes says that an asset was modified.
pub open spec fn was_modified(changes: Seq<AssetChange>, id: u64) -> bool {
    changes.contains(AssetChange::Modified(id))
}

fn find_modification(changes: &Vec<AssetChange>, id: u64) -> (r: bool)
    ensures
        r == was_modified(changes@, id),
{
    let mut i: usize = 0;
    while i < changes.len()
        invariant
            i <= changes.len(),
            forall|j: int| 0 <= j < i ==> changes@[j] != AssetChange::Modified(id),
        decreases changes.len() - i,
    {
        if let AssetChange::Modified(other) = changes[i] {
            if other == id {
                assert(changes@[i as int] == AssetChange::Modified(id));
                return true;
            }
        }
        i = i + 1;
    }
    false
}

/// Reacts to changes of the stage. One that was modified on disk is taken down,
/// to be shown anew; one that the user wants again is also dropped and loaded
/// again. Without a stage nothing happens, and a request stays.
pub fn handle_usd_hot_reload(
    session: &mut Session,
    stage: Option<u64>,
    changes: &Vec<AssetChange>,
) -> (r: ReloadPlan)
    ensures
        match stage {
            None => {
                &&& r == (ReloadPlan { despawn: false, reload: false })
                &&& *final(session) == *old(session)
            },
            Some(id) => {
                &&& r.reload == old(session).reload_requested
                &&& r.despawn == (was_modified(changes@, id) || old(session).reload_requested)
                &&& final(session).spawned == (old(session).spawned && !was_modified(changes@, id))
                &&& !final(session).reload_requested
                &&& final(session).default_sun == old(session).default_sun
            },
        },
{
    let id: u64 = match stage {
        None => return ReloadPlan { despawn: false, reload: false },
        Some(id) => id,
    };
    let modified: bool = find_modification(changes, id);
    if modified {
        session.spawned = false;
    }
    let reload: bool = session.reload_requested;
    session.reload_requested = false;
    ReloadPlan { despawn: modified || reload, reload }
}

/// Notes how the copy for a reload came out. Without it the reload ends there;
/// with it the stage is loaded under its new name, to be shown when it is there.
pub fn finish_reload(session: &mut Session, copied: bool) -> (load: bool)
    ensures
        load == copied,
        final(session).spawned == (old(session).spawned && !copied),
        final(session).reload_requested == old(session).reload_requested,
        final(session).default_sun == old(session).default_sun,
{
    if copied {
        session.spawned = false;
    }
    copied
}

/// How far the loading of a stage has come.
#[derive(Debug, Clone, Copy, PartialEq, Eq, Structural)]
pub enum LoadStatus {
    /// It is loaded, with so many directional lights. For a while after a reload
    /// that is said of a stage whose contents are not there yet.
    Loaded { suns: Option<usize> },
    Failed,
    Pending,
}

/// What to do about a stage that is being loaded.
#[derive(Debug, Clone, Copy, PartialEq, Eq, Structural)]
pub enum SpawnAction {
    Nothing,
    /// Describe it and show it.
    Show,
    /// Say that it failed.
    Report,
}

/// What to do about a stage that is being loaded.
pub open spec fn spawn_action_of(spawned: bool, status: LoadStatus) -> SpawnAction {
    if spawned {
        SpawnAction::Nothing
    } else {
        match status {
            LoadStatus::Loaded { suns: Some(_) } => SpawnAction::Show,
            LoadStatus::Loaded { suns: None } => SpawnAction::Nothing,
            LoadStatus::Failed => SpawnAction::Report,
            LoadStatus::Pending => SpawnAction::Nothing,
        }
    }
}

/// Whether a stage has a sun of its own.
pub open spec fn has_sun(status: LoadStatus) -> bool {
    status matches LoadStatus::Loaded { suns: Some(n) } && n > 0
}

/// Decides what to do about a stage that is being loaded. It is shown once, and
/// its failure is reported once. One that is shown and has a sun of its own takes
/// down the viewer's, so that the two do not light it together.
pub fn spawn_when_ready(session: &mut Session, status: LoadStatus) -> (r: SpawnAction)
    ensures
        r == spawn_action_of(old(session).spawned, status),
        final(session).spawned == (old(session).spawned || r != SpawnAction::Nothing),
        final(session).reload_requested == old(session).reload_requested,
        final(session).default_sun == (old(session).default_sun && !(r == SpawnAction::Show
            && has_sun(status))),
{
    if session.spawned {
        return SpawnAction::Nothing;
    }
    match status {
        LoadStatus::Loaded { suns: Some(n) } => {
            session.spawned = true;
            if n > 0 {
                session.default_sun = false;
            }
            SpawnAction::Show
        },
        LoadStatus::Failed => {
            session.spawned = true;
            SpawnAction::Report
        },
        _ => SpawnAction::Nothing,
    }
}

/// Once shown, a stage is not shown again until it is taken down.
pub proof fn a_stage_is_shown_once(status: LoadStatus, later: LoadStatus)
    ensures
        spawn_action_of(false, status) != SpawnAction::Nothing ==> spawn_action_of(
            false || spawn_action_of(false, status) != SpawnAction::Nothing,
            later,
        ) == SpawnAction::Nothing,
{
}

/// What a loaded stage holds, by number.
#[derive(Debug, Clone)]
pub struct StageTally {
    pub default_prim: Option<String>,
    pub layer_count: usize,
    /// The number of variant sets of each prim that has any.
    pub variant_sets: Vec<usize>,
    pub lights_directional: usize,
    pub lights_point: usize,
    pub lights_spot: usize,
    pub lights_dome: usize,
    pub instance_prim_count: usize,
    pub instance_prototype_reuses: usize,
    pub animated_prim_count: usize,
    pub skeleton_count: usize,
    pub skel_root_count: usize,
    pub skel_binding_count: usize,
    /// The render settings, each by its path and its resolution.
    pub render_settings: Vec<(String, Option<(u32, u32)>)>,
    pub render_product_count: usize,
    pub render_var_count: usize,
    pub rigid_body_count: usize,
    pub physics_scene_count: usize,
    pub joint_count: usize,
    pub custom_attr_prim_count: usize,
    pub custom_layer_data_entries: usize,
    pub subdivision_prim_count: usize,
    pub light_linked_count: usize,
    pub clip_prim_count: usize,
}

/// What the viewer tells of the stage.
#[derive(Debug, Clone)]
pub struct StageInfo {
    pub path: String,
    pub default_prim: Option<String>,
    pub layer_count: usize,
    pub variant_count: usize,
    pub lights_directional: usize,
    pub lights_point: usize,
    pub lights_spot: usize,
    pub lights_dome: usize,
    pub instance_prim_count: usize,
    pub instance_prototype_reuses: usize,
    pub animated_prim_count: usize,
    pub skeleton_count: usize,
    pub skel_root_count: usize,
    pub skel_binding_count: usize,
    pub render_settings_count: usize,
    pub render_product_count: usize,
    pub render_var_count: usize,
    pub render_primary_resolution: Option<(u32, u32)>,
    pub render_primary_path: Option<String>,
    pub rigid_body_count: usize,
    pub physics_scene_count: usize,
    pub joint_count: usize,
    pub custom_attr_prim_count: usize,
    pub custom_layer_data_entries: usize,
    pub subdivision_prim_count: usize,
    pub light_linked_count: usize,
    pub clip_prim_count: usize,
}

/// The sum of a list.
pub open spec fn sum_of(list: Seq<usize>) -> int
    decreases list.len(),
{
    if list.len() == 0 {
        0
    } else {
        sum_of(list.drop_last()) + list.last()
    }
}

/// The sum of the beginning of a list is no larger than that of the list.
proof fn lemma_sum_grows(list: Seq<usize>, n: int)
    requires
        0 <= n <= list.len(),
    ensures
        0 <= sum_of(list.take(n)) <= sum_of(list),
    decreases list.len(),
{
    if n < list.len() {
        assert(list.drop_last().take(n) =~= list.take(n));
        lemma_sum_grows(list.drop_last(), n);
    } else {
        assert(list.take(n) =~= list);
        if n > 0 {
            assert(list.drop_last().take(n - 1) =~= list.drop_last());
            lemma_sum_grows(list.drop_last(), n - 1);
        }
    }
}

/// Adds up a list.
fn add_up(list: &Vec<usize>) -> (r: usize)
    requires
        sum_of(list@) <= usize::MAX,
    ensures
        r == sum_of(list@),
{
    let mut sum: usize = 0;
    let mut i: usize = 0;
    assert(list@.take(0) =~= seq![]);
    while i < list.len()
        invariant
            i <= list.len(),
            sum == sum_of(list@.take(i as int)),
            sum_of(list@) <= usize::MAX,
        decreases list.len() - i,
    {
        proof {
            assert(list@.take(i + 1).drop_last() =~= list@.take(i as int));
            lemma_sum_grows(list@, i + 1);
        }
        sum = sum + list[i];
        i = i + 1;
    }
    assert(list@.take(i as int) =~= list@);
    sum
}

/// The entry of a list of render settings that counts: the first one.
pub open spec fn primary(settings: Seq<(String, Option<(u32, u32)>)>) -> (
    Option<Seq<char>>,
    Option<(u32, u32)>,
) {
    if settings.len() > 0 {
        (Some(settings[0].0@), settings[0].1)
    } else {
        (None, None)
    }
}

/// Describes a stage that has been loaded.
pub fn describe_stage(info: &mut StageInfo, tally: &StageTally)
    requires
        sum_of(tally.variant_sets@) <= usize::MAX,
    ensures
        final(info).path == old(info).path,
        text_of(final(info).default_prim) == text_of(tally.default_prim),
        final(info).layer_count == tally.layer_count,
        final(info).variant_count == sum_of(tally.variant_sets@),
        final(info).lights_directional == tally.lights_directional,
        final(info).lights_point == tally.lights_point,
        final(info).lights_spot == tally.lights_spot,
        final(info).lights_dome == tally.lights_dome,
        final(info).instance_prim_count == tally.instance_prim_count,
        final(info).instance_prototype_reuses == tally.instance_prototype_reuses,
        final(info).animated_prim_count == tally.animated_prim_count,
        final(info).skeleton_count == tally.skeleton_count,
        final(info).skel_root_count == tally.skel_root_count,
        final(info).skel_binding_count == tally.skel_binding_count,
        final(info).render_settings_count == tally.render_settings.len(),
        final(info).render_product_count == tally.render_product_count,
        final(info).render_var_count == tally.render_var_count,
        text_of(final(info).render_primary_path) == primary(tally.render_settings@).0,
        final(info).render_primary_resolution == primary(tally.render_settings@).1,
        final(info).rigid_body_count == tally.rigid_body_count,
        final(info).physics_scene_count == tally.physics_scene_count,
        final(info).joint_count == tally.joint_count,
        final(info).custom_attr_prim_count == tally.custom_attr_prim_count,
        final(info).custom_layer_data_entries == tally.custom_layer_data_entries,
        final(info).subdivision_prim_count == tally.subdivision_prim_count,
        final(info).light_linked_count == tally.light_linked_count,
        final(info).clip_prim_count == tally.clip_prim_count,
{
    info.default_prim = match &tally.default_prim {
        Some(s) => Some(s.as_str().to_owned()),
        None => None,
    };
    info.layer_count = tally.layer_count;
    info.variant_count = add_up(&tally.variant_sets);
    info.lights_directional = tally.lights_directional;
    info.lights_point = tally.lights_point;
    info.lights_spot = tally.lights_spot;
    info.lights_dome = tally.lights_dome;
    info.instance_prim_count = tally.instance_prim_count;
    info.instance_prototype_reuses = tally.instance_prototype_reuses;
    info.animated_prim_count = tally.animated_prim_count;
    info.skeleton_count = tally.skeleton_count;
    info.skel_root_count = tally.skel_root_count;
    info.skel_binding_count = tally.skel_binding_count;
    info.render_settings_count = tally.render_settings.len();
    info.render_product_count = tally.render_product_count;
    info.render_var_count = tally.render_var_count;
    if tally.render_settings.len() > 0 {
        info.render_primary_path = Some(tally.render_settings[0].0.as_str().to_owned());
        info.render_primary_resolution = tally.render_settings[0].1;
    } else {
        info.render_primary_path = None;
        info.render_primary_resolution = None;
    }
    info.rigid_body_count = tally.rigid_body_count;
    info.physics_scene_count = tally.physics_scene_count;
    info.joint_count = tally.joint_count;
    info.custom_attr_prim_count = tally.custom_attr_prim_count;
    info.custom_layer_data_entries = tally.custom_layer_data_entries;
    info.subdivision_prim_count = tally.subdivision_prim_count;
    info.light_linked_count = tally.light_linked_count;
    info.clip_prim_count = tally.clip_prim_count;
}

/// Turns to another file: what is shown is taken down, and what was said of the
/// stage before is forgotten as far as it names it.
pub fn apply_load_request(session: &mut Session, info: &mut StageInfo, file: &str)
    ensures
        !final(session).spawned,
        final(session).reload_requested == old(session).reload_requested,
        final(session).default_sun == old(session).default_sun,
        final(info).path@ == file@,
        *final(info) == (StageInfo {
            path: final(info).path,
            default_prim: None,
            layer_count: 0,
            variant_count: 0,
            ..*old(info)
        }),
{
    session.spawned = false;
    info.path = file.to_owned();
    info.default_prim = None;
    info.layer_count = 0;
    info.variant_count = 0;
}

} // verus!
