//! Rigid bodies.

use crate::ieee::{Double, Single};
use vstd::prelude::*;

verus! {

/// How a body takes part in the simulation.
#[derive(Debug, Clone, Copy, PartialEq, Eq, Structural)]
pub enum BodyType {
    Fixed,
    KinematicPositionBased,
    Dynamic,
}

/// A rigid body of the scene.
#[derive(Debug, Clone, Copy)]
pub struct BodyMarker {
    pub enabled: bool,
    pub kinematic: bool,
    pub starts_asleep: bool,
    pub velocity: [Single; 3],
    pub angular_velocity: [Single; 3],
}

/// The inertia of a body of the scene, as far as it is given.
#[derive(Debug, Clone, Copy)]
pub struct MassMarker {
    pub mass: Option<Single>,
    /// The density of what the body is made of.
    pub density: Option<Single>,
    pub center_of_mass: Option<[Single; 3]>,
    pub diagonal_inertia: Option<[Single; 3]>,
}

/// The inertia to add to a body.
#[derive(Debug, Clone, Copy)]
pub enum MassPlan {
    /// A mass at a point, with a principal inertia; where that is not given,
    /// one in proportion to the mass.
    Given { mass: Single, center: [Single; 3], inertia: Option<[Single; 3]> },
    /// Nothing: the colliders of the body have this density, and bring its mass.
    Density { density: Single },
    /// A mass at the origin, with the same inertia about every axis, both too
    /// small to matter. It keeps the solver from dividing by zero until the
    /// colliders bring their mass.
    Safety { least_mass: Double, least_inertia: Double },
    /// Nothing: the body does not move by forces.
    Nothing,
}

/// How the motion of a body is damped.
#[derive(Debug, Clone, Copy, PartialEq, Eq, Structural)]
pub struct Damping {
    pub linear: Double,
    pub angular: Double,
}

/// The bits of `0.1`. Motion is damped little: a robot's wheels must turn.
pub const LINEAR_DAMPING: u64 = 0x3fb9_9999_9999_999a;

/// The bits of `0.5`.
pub const ANGULAR_DAMPING: u64 = 0x3fe0_0000_0000_0000;

/// The bits of `0.001`.
pub const SAFETY_MASS: u64 = 0x3f50_624d_d2f1_a9fc;

/// The bits of `0.0001`.
pub const SAFETY_INERTIA: u64 = 0x3f1a_36e2_eb1c_432d;

/// How to build a body.
#[derive(Debug, Clone, Copy)]
pub struct BodyPlan {
    pub entity: u64,
    pub body_type: BodyType,
    pub velocity: [Single; 3],
    pub angular_velocity: [Single; 3],
    pub sleeping: bool,
    /// The damping of a body that forces move.
    pub damping: Option<Damping>,
    pub mass: MassPlan,
}

/// A body that is switched off stays where it is; a kinematic one follows its
/// animation; any other is moved by forces.
pub open spec fn body_type_of(rb: BodyMarker) -> BodyType {
    if !rb.enabled {
        BodyType::Fixed
    } else if rb.kinematic {
        BodyType::KinematicPositionBased
    } else {
        BodyType::Dynamic
    }
}

/// The mass of a body for which none is given, nor a density: the safety mass, if
/// forces move it.
pub open spec fn least_plan_of(body_type: BodyType) -> MassPlan {
    if body_type == BodyType::Dynamic {
        MassPlan::Safety {
            least_mass: Double { bits: SAFETY_MASS },
            least_inertia: Double { bits: SAFETY_INERTIA },
        }
    } else {
        MassPlan::Nothing
    }
}

/// The mass that is given; else the mass that a density gives, as long as that is
/// more than nothing; else, for a body that forces move, the safety mass.
pub open spec fn mass_plan_of(body_type: BodyType, mass: Option<MassMarker>) -> MassPlan {
    match mass {
        Some(m) => match (m.mass, m.density) {
            (Some(kg), _) => MassPlan::Given {
                mass: kg,
                center: match m.center_of_mass {
                    Some(c) => c,
                    None => [Single { bits: 0 }, Single { bits: 0 }, Single { bits: 0 }],
                },
                inertia: m.diagonal_inertia,
            },
            (None, Some(density)) => if (Single { bits: 0 }).below(density) {
                MassPlan::Density { density }
            } else {
                least_plan_of(body_type)
            },
            (None, None) => least_plan_of(body_type),
        },
        None => least_plan_of(body_type),
    }
}

/// Decides what mass a body gets.
fn plan_mass(body_type: BodyType, mass: &Option<MassMarker>) -> (r: MassPlan)
    ensures
        r == mass_plan_of(body_type, *mass),
{
    let zero: Single = Single { bits: 0 };
    if let Some(m) = mass {
        if let Some(kg) = m.mass {
            let center: [Single; 3] = match m.center_of_mass {
                Some(c) => c,
                None => [zero, zero, zero],
            };
            return MassPlan::Given { mass: kg, center, inertia: m.diagonal_inertia };
        }
        if let Some(density) = m.density {
            if zero.less(density) {
                return MassPlan::Density { density };
            }
        }
    }
    if body_type == BodyType::Dynamic {
        MassPlan::Safety {
            least_mass: Double { bits: SAFETY_MASS },
            least_inertia: Double { bits: SAFETY_INERTIA },
        }
    } else {
        MassPlan::Nothing
    }
}

/// How to build the body of an entity.
pub open spec fn body_plan_of(entity: u64, rb: BodyMarker, mass: Option<MassMarker>) -> BodyPlan {
    BodyPlan {
        entity,
        body_type: body_type_of(rb),
        velocity: rb.velocity,
        angular_velocity: rb.angular_velocity,
        sleeping: rb.starts_asleep,
        damping: if body_type_of(rb) == BodyType::Dynamic {
            Some(
                Damping {
                    linear: Double { bits: LINEAR_DAMPING },
                    angular: Double { bits: ANGULAR_DAMPING },
                },
            )
        } else {
            None
        },
        mass: mass_plan_of(body_type_of(rb), mass),
    }
}

/// Decides how to build the body of an entity.
pub fn plan_rigid_body(entity: u64, rb: &BodyMarker, mass: &Option<MassMarker>) -> (r: BodyPlan)
    ensures
        r == body_plan_of(entity, *rb, *mass),
{
    let body_type: BodyType = if !rb.enabled {
        BodyType::Fixed
    } else if rb.kinematic {
        BodyType::KinematicPositionBased
    } else {
        BodyType::Dynamic
    };
    let mass: MassPlan = plan_mass(body_type, mass);
    BodyPlan {
        entity,
        body_type,
        velocity: rb.velocity,
        angular_velocity: rb.angular_velocity,
        sleeping: rb.starts_asleep,
        damping: if body_type == BodyType::Dynamic {
            Some(
                Damping {
                    linear: Double { bits: LINEAR_DAMPING },
                    angular: Double { bits: ANGULAR_DAMPING },
                },
            )
        } else {
            None
        },
        mass,
    }
}

/// A body of the scene that the world may not have yet.
#[derive(Debug, Clone, Copy)]
pub struct BodyRequest {
    pub entity: u64,
    pub body: BodyMarker,
    pub mass: Option<MassMarker>,
    /// Whether the world has it.
    pub attached: bool,
}

/// The bodies to build: those that the world does not have, in their order.
pub open spec fn body_plans(requests: Seq<BodyRequest>) -> Seq<BodyPlan> {
    requests.filter(|q: BodyRequest| !q.attached).map_values(
        |q: BodyRequest| body_plan_of(q.entity, q.body, q.mass),
    )
}

/// Decides which bodies to build, and how. A body that the world has is not
/// built again.
pub fn convert_rigid_bodies(requests: &Vec<BodyRequest>) -> (r: Vec<BodyPlan>)
    ensures
        r@ == body_plans(requests@),
{
    let mut out: Vec<BodyPlan> = Vec::new();
    let mut i: usize = 0;
    proof {
        reveal(Seq::filter);
        assert(body_plans(requests@.take(0)) =~= seq![]);
    }
    while i < requests.len()
        invariant
            i <= requests.len(),
            out@ == body_plans(requests@.take(i as int)),
        decreases requests.len() - i,
    {
        let q: &BodyRequest = &requests[i];
        proof {
            reveal(Seq::filter);
            assert(requests@.take(i + 1).drop_last() =~= requests@.take(i as int));
        }
        if !q.attached {
            let ghost before = out@;
            out.push(plan_rigid_body(q.entity, &q.body, &q.mass));
            assert(out@ =~= body_plans(requests@.take(i + 1)));
        }
        i = i + 1;
    }
    assert(requests@.take(i as int) =~= requests@);
    out
}

/// A body that forces move is never left without any plan for its mass, and the
/// safety mass is for such bodies alone. A given mass goes before a density, and
/// that before the safety mass. A density gives a body no mass before it has a
/// collider.
pub proof fn moving_bodies_have_mass(entity: u64, rb: BodyMarker, mass: Option<MassMarker>)
    ensures
        body_plan_of(entity, rb, mass).body_type == BodyType::Dynamic ==> !(body_plan_of(
            entity,
            rb,
            mass,
        ).mass is Nothing),
        body_plan_of(entity, rb, mass).mass is Safety ==> rb.enabled && !rb.kinematic,
        match mass {
            Some(m) => match (m.mass, m.density) {
                (Some(_), _) => body_plan_of(entity, rb, mass).mass is Given,
                (None, Some(d)) => (Single { bits: 0 }).below(d) ==> body_plan_of(
                    entity,
                    rb,
                    mass,
                ).mass == (MassPlan::Density { density: d }),
                (None, None) => true,
            },
            None => true,
        },
{
}

} // verus!
