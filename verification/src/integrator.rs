//! One step of the gravity integrator.
//!
//! The integrator decides which bodies pull on which, in what order the
//! pulls are summed, and in what order velocity and position are advanced.
//! The arithmetic itself is done by two kernels that the caller hands in:
//!
//! - `attract(acc, g, mass, from, to)` stands for `acc` plus the pull that a
//!   body of mass `mass` at `to` has on a body at `from`: `g * mass` over the
//!   squared distance, along the unit vector from `from` to `to`;
//! - `drift(base, rate, dt)` stands for `base + rate * dt`.
//!
//! Nothing is assumed of the kernels. Where two bodies coincide the pull is
//! whatever `attract` returns for it.

use vstd::prelude::*;
use crate::body::Mass;
use crate::trajectory::SimSnapshot;
use crate::vector::{Scalar, Vec2};

verus! {

/// Bit pattern of the time step, `0.005`.
pub const TIME_STEP_BITS: u32 = 0x3BA3_D70A;

/// The fixed time step of the integrator.
pub fn time_step() -> (r: Scalar)
    ensures
        r == Scalar(TIME_STEP_BITS),
{
    Scalar(TIME_STEP_BITS)
}

/// `acc` is an acceleration that `attract` can give for the pull on the body
/// `target` of the bodies before index `upto`, taken in index order, the
/// target itself left out.
pub open spec fn pulled<A: Fn(Vec2, Scalar, Mass, Vec2, Vec2) -> Vec2>(
    attract: A,
    g: Scalar,
    masses: Seq<Mass>,
    states: Seq<SimSnapshot>,
    target: int,
    upto: int,
    acc: Vec2,
) -> bool
    decreases upto,
{
    let k = upto - 1;
    if upto <= 0 {
        acc == Vec2::spec_zero()
    } else if k == target {
        pulled(attract, g, masses, states, target, k, acc)
    } else {
        exists|before: Vec2|
            pulled(attract, g, masses, states, target, k, before) && #[trigger] call_ensures(
                attract,
                (before, g, masses[k], states[target].position, states[k].position),
                acc,
            )
    }
}

/// `next` is a state that the two kernels can give for the body `target`
/// one time step after `states`: its velocity is the old velocity drifted
/// along the total pull, and its position is the old position drifted along
/// that new velocity.
pub open spec fn stepped<
    A: Fn(Vec2, Scalar, Mass, Vec2, Vec2) -> Vec2,
    D: Fn(Vec2, Vec2, Scalar) -> Vec2,
>(
    attract: A,
    drift: D,
    g: Scalar,
    masses: Seq<Mass>,
    states: Seq<SimSnapshot>,
    target: int,
    next: SimSnapshot,
) -> bool {
    exists|accel: Vec2|
        pulled(attract, g, masses, states, target, states.len() as int, accel) && #[trigger] call_ensures(
            drift,
            (states[target].velocity, accel, Scalar(TIME_STEP_BITS)),
            next.velocity,
        ) && call_ensures(
            drift,
            (states[target].position, next.velocity, Scalar(TIME_STEP_BITS)),
            next.position,
        )
}

/// Whether `attract` may be called on every input.
pub open spec fn attract_total<A: Fn(Vec2, Scalar, Mass, Vec2, Vec2) -> Vec2>(attract: A) -> bool {
    forall|acc: Vec2, g: Scalar, m: Mass, from: Vec2, to: Vec2|
        call_requires(attract, (acc, g, m, from, to))
}

/// Whether `drift` may be called on every input.
pub open spec fn drift_total<D: Fn(Vec2, Vec2, Scalar) -> Vec2>(drift: D) -> bool {
    forall|base: Vec2, rate: Vec2, dt: Scalar| call_requires(drift, (base, rate, dt))
}

/// The acceleration of the body `target` under the pull of all the others.
///
/// Starting from zero, `attract` is called once for every other body, in
/// index order; each call gets the acceleration found so far, the
/// gravitational constant, the other body's mass, the target's position and
/// the other body's position, and returns the acceleration with that body's
/// pull added.
pub fn total_pull<A: Fn(Vec2, Scalar, Mass, Vec2, Vec2) -> Vec2>(
    attract: &A,
    g: Scalar,
    masses: &Vec<Mass>,
    states: &Vec<SimSnapshot>,
    target: usize,
) -> (acc: Vec2)
    requires
        masses.len() == states.len(),
        target < states.len(),
        attract_total(*attract),
    ensures
        pulled(*attract, g, masses@, states@, target as int, states.len() as int, acc),
{
    let mut acc = Vec2::zero();
    let mut k: usize = 0;
    while k < states.len()
        invariant
            k <= states.len(),
            masses.len() == states.len(),
            target < states.len(),
            attract_total(*attract),
            pulled(*attract, g, masses@, states@, target as int, k as int, acc),
        decreases states.len() - k,
    {
        let ghost before = acc;
        if k != target {
            acc = attract(acc, g, masses[k], states[target].position, states[k].position);
        }
        proof {
            assert(k != target ==> call_ensures(
                *attract,
                (before, g, masses@[k as int], states@[target as int].position, states@[k as int].position),
                acc,
            ));
        }
        k += 1;
    }
    acc
}

/// The state of the body `target` one time step after `states`.
///
/// `states` holds the state of every body at one time index and `masses`
/// their masses. The update is semi-implicit: the velocity is advanced
/// first, along the total pull, and the position is then advanced along the
/// new velocity. `drift(base, rate, dt)` stands for `base + rate * dt`.
pub fn step<A: Fn(Vec2, Scalar, Mass, Vec2, Vec2) -> Vec2, D: Fn(Vec2, Vec2, Scalar) -> Vec2>(
    attract: &A,
    drift: &D,
    g: Scalar,
    masses: &Vec<Mass>,
    states: &Vec<SimSnapshot>,
    target: usize,
) -> (next: SimSnapshot)
    requires
        masses.len() == states.len(),
        target < states.len(),
        attract_total(*attract),
        drift_total(*drift),
    ensures
        stepped(*attract, *drift, g, masses@, states@, target as int, next),
{
    let current = states[target];
    let accel = total_pull(attract, g, masses, states, target);
    let velocity = drift(current.velocity, accel, time_step());
    let position = drift(current.position, velocity, time_step());
    SimSnapshot { velocity, position }
}

} // verus!
