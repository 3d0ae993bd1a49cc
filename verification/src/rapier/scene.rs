//! Gravity.

use vstd::prelude::*;

verus! {

/// What the scenes that have appeared amount to.
#[derive(Debug, Clone, Copy, PartialEq, Eq, Structural)]
pub struct GravityPlan {
    /// Which of them sets the gravity of the world.
    pub applied: Option<usize>,
    /// How many are passed over, because there is one world only.
    pub ignored: usize,
}

/// Which of the scenes that have appeared sets the gravity of the world: the
/// first one, unless an earlier scene has. Without a world, none does.
pub open spec fn gravity_plan_of(settled: bool, new_scenes: usize, has_world: bool) -> GravityPlan {
    if settled {
        GravityPlan { applied: None, ignored: new_scenes }
    } else if new_scenes > 0 && has_world {
        GravityPlan { applied: Some(0), ignored: (new_scenes - 1) as usize }
    } else {
        GravityPlan { applied: None, ignored: 0 }
    }
}

/// Decides which of the scenes that have appeared sets the gravity of the world.
/// `settled` tells whether a scene has set it, now or before.
pub fn sync_gravity_from_usd_scene(
    settled: &mut bool,
    new_scenes: usize,
    has_world: bool,
) -> (r: GravityPlan)
    ensures
        r == gravity_plan_of(*old(settled), new_scenes, has_world),
        *final(settled) == (*old(settled) || r.applied is Some),
{
    if *settled {
        GravityPlan { applied: None, ignored: new_scenes }
    } else if new_scenes == 0 || !has_world {
        GravityPlan { applied: None, ignored: 0 }
    } else {
        *settled = true;
        GravityPlan { applied: Some(0), ignored: new_scenes - 1 }
    }
}

/// The first scene wins: once a scene has set the gravity of the world, those that
/// appear later are all passed over.
pub proof fn first_scene_wins(settled: bool, earlier: usize, later: usize, has_world: bool)
    requires
        gravity_plan_of(settled, earlier, has_world).applied is Some,
    ensures
        gravity_plan_of(settled, earlier, has_world).applied == Some(0usize),
        forall|world: bool| #[trigger]
            gravity_plan_of(true, later, world) == (GravityPlan { applied: None, ignored: later }),
{
}

} // verus!
