//! The camera: framing the scene once, flying, and looking through a camera of
//! the stage.

use crate::ieee::Single;
use crate::text::{same_text, texts};
use vstd::prelude::*;

verus! {

/// What is remembered until the camera has been set on the scene.
#[derive(Debug, Clone, Copy, PartialEq, Eq, Structural)]
pub struct FitState {
    pub done: bool,
    pub wait_ticks: u32,
    pub last_diag: Single,
}

/// How many frames the scene is waited for at most, while it keeps growing.
pub const FIT_WAIT_TICKS: u32 = 60;

/// What is seen of the scene in one frame.
#[derive(Debug, Clone, Copy)]
pub struct FitInput {
    /// The number of prims inside the bounds.
    pub count: u32,
    /// Whether the scene has prims.
    pub has_prims: bool,
    /// The size of the scene, and the largest that would not count as growing.
    pub diag: Single,
    pub growth_limit: Single,
    /// Whether there is one camera to set.
    pub has_camera: bool,
}

/// Whether there is a scene that the camera has not been set on.
pub open spec fn wants_fit(state: FitState, input: FitInput) -> bool {
    !state.done && input.count != 0 && input.has_prims
}

/// Whether the scene is waited for another frame.
pub open spec fn still_growing(state: FitState, input: FitInput) -> bool {
    state.wait_ticks + 1 < FIT_WAIT_TICKS && input.growth_limit.below(input.diag)
}

/// Decides whether the camera is set on the scene in this frame. It is set once,
/// when the scene has stopped growing or has been waited for long enough.
pub fn fit_camera_once(state: &mut FitState, input: &FitInput) -> (fit: bool)
    requires
        old(state).wait_ticks < u32::MAX,
    ensures
        fit == (wants_fit(*old(state), *input) && !still_growing(*old(state), *input)
            && input.has_camera),
        final(state).done == (old(state).done || fit),
        final(state).wait_ticks == if wants_fit(*old(state), *input) {
            old(state).wait_ticks + 1
        } else {
            old(state).wait_ticks as int
        },
        final(state).last_diag == if wants_fit(*old(state), *input) && still_growing(
            *old(state),
            *input,
        ) {
            input.diag
        } else {
            old(state).last_diag
        },
{
    if state.done || input.count == 0 || !input.has_prims {
        return false;
    }
    state.wait_ticks = state.wait_ticks + 1;
    if state.wait_ticks < FIT_WAIT_TICKS && input.growth_limit.less(input.diag) {
        state.last_diag = input.diag;
        return false;
    }
    if !input.has_camera {
        return false;
    }
    state.done = true;
    true
}

/// A camera that has been set on the scene stays with the user.
pub proof fn camera_is_set_once(state: FitState, input: FitInput)
    requires
        state.done,
    ensures
        !wants_fit(state, input),
{
}

/// A scene that keeps growing is waited for until the sixtieth frame only.
pub proof fn waiting_ends(state: FitState, input: FitInput)
    requires
        state.wait_ticks >= FIT_WAIT_TICKS - 1,
    ensures
        !still_growing(state, input),
{
}

/// The place of the first entry of a list that is a text.
pub open spec fn first_place(list: Seq<Seq<char>>, s: Seq<char>) -> Option<int> {
    list.index_of_first(s)
}

/// Finds the first entry of a list that is a text.
pub fn find_text(list: &Vec<String>, s: &str) -> (r: Option<usize>)
    ensures
        match r {
            Some(i) => first_place(texts(list@), s@) == Some(i as int),
            None => first_place(texts(list@), s@) is None,
        },
{
    let ghost all = texts(list@);
    proof {
        all.index_of_first_ensures(s@);
    }
    let mut i: usize = 0;
    while i < list.len()
        invariant
            i <= list.len(),
            all == texts(list@),
            forall|j: int| 0 <= j < i ==> all[j] != s@,
            match all.index_of_first(s@) {
                Some(k) => {
                    &&& 0 <= k < all.len()
                    &&& all[k] == s@
                    &&& forall|j: int| 0 <= j < k ==> all[j] != s@
                },
                None => !all.contains(s@),
            },
        decreases list.len() - i,
    {
        if same_text(list[i].as_str(), s) {
            assert(all[i as int] == s@);
            assert(all.contains(s@));
            return Some(i);
        }
        i = i + 1;
    }
    None
}

/// What the view follows.
#[derive(Debug, Clone)]
pub enum CameraMount {
    /// The user's own camera.
    Arcball,
    /// A camera of the stage.
    Mounted { prim_path: String },
}

/// Decides which camera of the stage the view follows, and which entity says
/// where it is: the first of each that has the mounted path. Where either is
/// missing, the view stays.
pub fn follow_mounted_camera(
    mount: &CameraMount,
    camera_paths: &Vec<String>,
    prim_paths: &Vec<String>,
) -> (r: Option<(usize, usize)>)
    ensures
        match *mount {
            CameraMount::Arcball => r is None,
            CameraMount::Mounted { prim_path } => match r {
                Some((camera, prim)) => {
                    &&& first_place(texts(camera_paths@), prim_path@) == Some(camera as int)
                    &&& first_place(texts(prim_paths@), prim_path@) == Some(prim as int)
                },
                None => first_place(texts(camera_paths@), prim_path@) is None || first_place(
                    texts(prim_paths@),
                    prim_path@,
                ) is None,
            },
        },
{
    match mount {
        CameraMount::Arcball => None,
        CameraMount::Mounted { prim_path } => {
            let camera: usize = match find_text(camera_paths, prim_path.as_str()) {
                Some(i) => i,
                None => return None,
            };
            match find_text(prim_paths, prim_path.as_str()) {
                Some(prim) => Some((camera, prim)),
                None => None,
            }
        },
    }
}

/// How a camera of the stage projects.
#[derive(Debug, Clone, Copy, PartialEq, Eq, Structural)]
pub enum CameraProjection {
    Perspective,
    Orthographic,
}

/// Decides how a camera projects: in perspective, unless it says otherwise.
pub fn projection_or_default(projection: Option<CameraProjection>) -> (r: CameraProjection)
    ensures
        r == match projection {
            Some(p) => p,
            None => CameraProjection::Perspective,
        },
{
    projection.unwrap_or(CameraProjection::Perspective)
}

/// What a flight of the camera moves.
#[derive(Debug, Clone, Copy, PartialEq)]
pub struct FlyPlan {
    pub moving: bool,
    /// The angles to turn between, around and up.
    pub yaw: Option<(Single, Single)>,
    pub elevation: Option<(Single, Single)>,
}

/// A pair of numbers, where both are there.
pub open spec fn both(a: Option<Single>, b: Option<Single>) -> Option<(Single, Single)> {
    match (a, b) {
        (Some(a), Some(b)) => Some((a, b)),
        _ => None,
    }
}

fn pair_of(a: Option<Single>, b: Option<Single>) -> (r: Option<(Single, Single)>)
    ensures
        r == both(a, b),
{
    match (a, b) {
        (Some(a), Some(b)) => Some((a, b)),
        _ => None,
    }
}

/// Whether no time of a flight remains.
pub open spec fn is_over(remaining: Single) -> bool {
    !remaining.nan() && remaining.place() <= 0
}

/// Decides what a flight of the camera moves in this frame: nothing when no time
/// of it remains or there is no one camera; else where it looks and from how
/// far, and each angle that it has both ends of.
pub fn apply_fly_to(
    remaining: Single,
    has_camera: bool,
    yaw: (Option<Single>, Option<Single>),
    elevation: (Option<Single>, Option<Single>),
) -> (r: FlyPlan)
    ensures
        r.moving == (!is_over(remaining) && has_camera),
        r.yaw == if r.moving {
            both(yaw.0, yaw.1)
        } else {
            None
        },
        r.elevation == if r.moving {
            both(elevation.0, elevation.1)
        } else {
            None
        },
{
    let zero: Single = Single { bits: 0 };
    let over: bool = !remaining.is_nan() && !zero.less(remaining);
    if over || !has_camera {
        return FlyPlan { moving: false, yaw: None, elevation: None };
    }
    FlyPlan {
        moving: true,
        yaw: pair_of(yaw.0, yaw.1),
        elevation: pair_of(elevation.0, elevation.1),
    }
}

} // verus!
