//! What holds of the engine as a whole.

use vstd::prelude::*;
use crate::body::{BodyModel, Mass};
use crate::integrator::{pulled, stepped};
use crate::model::{lemma_extends_refl, lemma_full_extension_is_identity, SimModel};
use crate::playback::SimState;
use crate::trajectory::{SimSnapshot, TRAJECTORY_LEN};
use crate::vector::{Scalar, Vec2};

verus! {

/// Whether `attract` gives one result for one input.
pub open spec fn attract_functional<A: Fn(Vec2, Scalar, Mass, Vec2, Vec2) -> Vec2>(attract: A) -> bool {
    forall|args: (Vec2, Scalar, Mass, Vec2, Vec2), r1: Vec2, r2: Vec2|
        #[trigger] call_ensures(attract, args, r1) && #[trigger] call_ensures(attract, args, r2) ==> r1
            == r2
}

/// Whether `drift` gives one result for one input.
pub open spec fn drift_functional<D: Fn(Vec2, Vec2, Scalar) -> Vec2>(drift: D) -> bool {
    forall|args: (Vec2, Vec2, Scalar), r1: Vec2, r2: Vec2|
        #[trigger] call_ensures(drift, args, r1) && #[trigger] call_ensures(drift, args, r2) ==> r1 == r2
}

/// With a kernel that gives one result for one input, the total pull on a
/// body is one acceleration.
pub proof fn lemma_pull_unique<A: Fn(Vec2, Scalar, Mass, Vec2, Vec2) -> Vec2>(
    attract: A,
    g: Scalar,
    masses: Seq<Mass>,
    states: Seq<SimSnapshot>,
    target: int,
    upto: int,
    a1: Vec2,
    a2: Vec2,
)
    requires
        attract_functional(attract),
        pulled(attract, g, masses, states, target, upto, a1),
        pulled(attract, g, masses, states, target, upto, a2),
    ensures
        a1 == a2,
    decreases upto,
{
    let k = upto - 1;
    if upto <= 0 {
    } else if k == target {
        lemma_pull_unique(attract, g, masses, states, target, k, a1, a2);
    } else {
        let args1 = choose|before: Vec2|
            pulled(attract, g, masses, states, target, k, before) && #[trigger] call_ensures(
                attract,
                (before, g, masses[k], states[target].position, states[k].position),
                a1,
            );
        let args2 = choose|before: Vec2|
            pulled(attract, g, masses, states, target, k, before) && #[trigger] call_ensures(
                attract,
                (before, g, masses[k], states[target].position, states[k].position),
                a2,
            );
        lemma_pull_unique(attract, g, masses, states, target, k, args1, args2);
    }
}

/// With kernels that give one result for one input, the next state of a
/// body is one state.
pub proof fn lemma_step_unique<
    A: Fn(Vec2, Scalar, Mass, Vec2, Vec2) -> Vec2,
    D: Fn(Vec2, Vec2, Scalar) -> Vec2,
>(
    attract: A,
    drift: D,
    g: Scalar,
    masses: Seq<Mass>,
    states: Seq<SimSnapshot>,
    target: int,
    n1: SimSnapshot,
    n2: SimSnapshot,
)
    requires
        attract_functional(attract),
        drift_functional(drift),
        stepped(attract, drift, g, masses, states, target, n1),
        stepped(attract, drift, g, masses, states, target, n2),
    ensures
        n1 == n2,
{
    let dt = Scalar(crate::integrator::TIME_STEP_BITS);
    let accel1 = choose|accel: Vec2|
        pulled(attract, g, masses, states, target, states.len() as int, accel) && #[trigger] call_ensures(
            drift,
            (states[target].velocity, accel, dt),
            n1.velocity,
        ) && call_ensures(drift, (states[target].position, n1.velocity, dt), n1.position);
    let accel2 = choose|accel: Vec2|
        pulled(attract, g, masses, states, target, states.len() as int, accel) && #[trigger] call_ensures(
            drift,
            (states[target].velocity, accel, dt),
            n2.velocity,
        ) && call_ensures(drift, (states[target].position, n2.velocity, dt), n2.position);
    lemma_pull_unique(attract, g, masses, states, target, states.len() as int, accel1, accel2);
    assert(n1.velocity == n2.velocity);
    assert(n1.position == n2.position);
}

/// Two extensions of one simulation hold the same states at every time
/// index below `upto` that both have computed.
proof fn lemma_extensions_agree<
    A: Fn(Vec2, Scalar, Mass, Vec2, Vec2) -> Vec2,
    D: Fn(Vec2, Vec2, Scalar) -> Vec2,
>(s: SimModel, t1: SimModel, t2: SimModel, attract: A, drift: D, upto: int)
    requires
        attract_functional(attract),
        drift_functional(drift),
        s.wf(),
        1 <= s.trajectory_pos,
        s.extends_to(t1, attract, drift),
        s.extends_to(t2, attract, drift),
        upto <= t1.trajectory_pos,
        upto <= t2.trajectory_pos,
    ensures
        forall|b: int, i: int|
            0 <= b < s.bodies.len() && 0 <= i < upto ==> t1.bodies[b].trajectory[i]
                == t2.bodies[b].trajectory[i],
    decreases upto,
{
    if upto <= 0 {
    } else {
        lemma_extensions_agree(s, t1, t2, attract, drift, upto - 1);
        let i = upto - 1;
        assert forall|b: int| 0 <= b < s.bodies.len() implies t1.bodies[b].trajectory[i]
            == t2.bodies[b].trajectory[i] by {
            assert(s.bodies[b].same_up_to(t1.bodies[b], s.trajectory_pos));
            assert(s.bodies[b].same_up_to(t2.bodies[b], s.trajectory_pos));
            if i < s.trajectory_pos {
            } else {
                assert(t1.states_at(i - 1) =~= t2.states_at(i - 1));
                assert(stepped(
                    attract,
                    drift,
                    s.gravitational_const,
                    s.masses(),
                    t1.states_at(i - 1),
                    b,
                    t1.bodies[b].trajectory[i],
                ));
                assert(stepped(
                    attract,
                    drift,
                    s.gravitational_const,
                    s.masses(),
                    t2.states_at(i - 1),
                    b,
                    t2.bodies[b].trajectory[i],
                ));
                lemma_step_unique(
                    attract,
                    drift,
                    s.gravitational_const,
                    s.masses(),
                    t1.states_at(i - 1),
                    b,
                    t1.bodies[b].trajectory[i],
                    t2.bodies[b].trajectory[i],
                );
            }
        }
    }
}

/// Precomputation is deterministic: with kernels that give one result for
/// one input, a simulation has one precomputed future. Whatever two runs
/// from the same state produce is the same, body by body and state by
/// state.
pub proof fn law_precompute_deterministic<
    A: Fn(Vec2, Scalar, Mass, Vec2, Vec2) -> Vec2,
    D: Fn(Vec2, Vec2, Scalar) -> Vec2,
>(s: SimModel, t1: SimModel, t2: SimModel, attract: A, drift: D)
    requires
        attract_functional(attract),
        drift_functional(drift),
        s.wf(),
        s.precomputes_to(t1, attract, drift),
        s.precomputes_to(t2, attract, drift),
    ensures
        t1 == t2,
{
    if s.bodies.len() > 0 && s.trajectory_pos > 0 {
        lemma_extensions_agree(s, t1, t2, attract, drift, TRAJECTORY_LEN as int);
        assert forall|b: int| 0 <= b < s.bodies.len() implies t1.bodies[b] == t2.bodies[b] by {
            assert(s.bodies[b].same_up_to(t1.bodies[b], s.trajectory_pos));
            assert(s.bodies[b].same_up_to(t2.bodies[b], s.trajectory_pos));
            assert(t1.bodies[b].trajectory =~= t2.bodies[b].trajectory);
        }
        assert(t1.bodies =~= t2.bodies);
    }
}

/// Invalidation keeps the invariant, puts the cursor at one and leaves
/// every body with exactly one state, its present one: the first state of
/// its trajectory, or, where playback had consumed them all, the state that
/// was handed out last.
pub proof fn law_invalidate_keeps_present(s: SimModel)
    requires
        s.wf(),
    ensures
        s.invalidated().wf(),
        s.invalidated().trajectory_pos == 1,
        s.invalidated().bodies.len() == s.bodies.len(),
        forall|b: int|
            0 <= b < s.bodies.len() ==> (#[trigger] s.invalidated().bodies[b]).trajectory
                == seq![s.bodies[b].present()],
        s.trajectory_pos > 0 ==> forall|b: int|
            0 <= b < s.bodies.len() ==> (#[trigger] s.invalidated().bodies[b]).trajectory
                == seq![s.bodies[b].trajectory[0]],
{
    if s.trajectory_pos > 0 {
        assert forall|b: int| 0 <= b < s.bodies.len() implies (#[trigger] s.invalidated().bodies[b]).trajectory
            == seq![s.bodies[b].trajectory[0]] by {
            assert(s.bodies[b].trajectory.len() == s.trajectory_pos);
        }
    }
}

/// Invalidation is idempotent: a second invalidation with no edit in
/// between changes nothing.
pub proof fn law_invalidate_idempotent(s: SimModel)
    requires
        s.wf(),
    ensures
        s.invalidated().invalidated() == s.invalidated(),
{
    law_invalidate_keeps_present(s);
    let once = s.invalidated();
    let twice = once.invalidated();
    assert forall|b: int| 0 <= b < once.bodies.len() implies twice.bodies[b] == once.bodies[b] by {
        assert(once.bodies[b].trajectory == seq![s.bodies[b].present()]);
        assert(twice.bodies[b].trajectory =~= once.bodies[b].trajectory);
    }
    assert(twice.bodies =~= once.bodies);
}

/// Invalidation followed by precomputation rebuilds the whole horizon,
/// whatever playback had consumed: the cursor is at the horizon again and
/// every body holds that many states, the first of them its present state
/// from before.
pub proof fn law_invalidate_then_precompute<
    A: Fn(Vec2, Scalar, Mass, Vec2, Vec2) -> Vec2,
    D: Fn(Vec2, Vec2, Scalar) -> Vec2,
>(s: SimModel, t: SimModel, attract: A, drift: D)
    requires
        s.wf(),
        s.bodies.len() > 0,
        s.invalidated().precomputes_to(t, attract, drift),
    ensures
        t.wf(),
        t.trajectory_pos == TRAJECTORY_LEN,
        t.bodies.len() == s.bodies.len(),
        forall|b: int|
            0 <= b < s.bodies.len() ==> {
                &&& (#[trigger] t.bodies[b]).trajectory.len() == TRAJECTORY_LEN
                &&& t.bodies[b].trajectory[0] == s.bodies[b].present()
            },
{
    law_invalidate_keeps_present(s);
    let once = s.invalidated();
    assert forall|b: int| 0 <= b < s.bodies.len() implies {
        &&& (#[trigger] t.bodies[b]).trajectory.len() == TRAJECTORY_LEN
        &&& t.bodies[b].trajectory[0] == s.bodies[b].present()
    } by {
        assert(once.bodies[b].same_up_to(t.bodies[b], 1));
        assert(once.bodies[b].trajectory == seq![s.bodies[b].present()]);
    }
}

/// A horizon that was rebuilt is consumed state by state, down to the
/// last: after an invalidation, a precomputation and `n` steps of
/// playback, the cursor is `n` below the horizon and every body holds that
/// many states.
pub proof fn law_rebuilt_horizon_is_consumed<
    A: Fn(Vec2, Scalar, Mass, Vec2, Vec2) -> Vec2,
    D: Fn(Vec2, Vec2, Scalar) -> Vec2,
>(s: SimModel, t: SimModel, n: nat, attract: A, drift: D)
    requires
        s.wf(),
        s.bodies.len() > 0,
        s.invalidated().precomputes_to(t, attract, drift),
        n <= TRAJECTORY_LEN,
    ensures
        t.advanced_by(n).wf(),
        t.advanced_by(n).trajectory_pos == TRAJECTORY_LEN - n,
        forall|b: int|
            0 <= b < s.bodies.len() ==> (#[trigger] t.advanced_by(n).bodies[b]).trajectory.len()
                == TRAJECTORY_LEN - n,
{
    law_invalidate_then_precompute(s, t, attract, drift);
    law_repeated_advance_shifts(t, n);
}

/// With no body in it, a simulation is left as it is by precomputation and
/// by playback.
pub proof fn law_no_bodies_nothing_changes<
    A: Fn(Vec2, Scalar, Mass, Vec2, Vec2) -> Vec2,
    D: Fn(Vec2, Vec2, Scalar) -> Vec2,
>(s: SimModel, t: SimModel, attract: A, drift: D)
    requires
        s.bodies.len() == 0,
        s.precomputes_to(t, attract, drift),
    ensures
        t == s,
        s.advanced() == s,
{
}

/// Precomputation on a full horizon changes nothing.
pub proof fn law_precompute_full_horizon<
    A: Fn(Vec2, Scalar, Mass, Vec2, Vec2) -> Vec2,
    D: Fn(Vec2, Vec2, Scalar) -> Vec2,
>(s: SimModel, t: SimModel, attract: A, drift: D)
    requires
        s.wf(),
        s.trajectory_pos == TRAJECTORY_LEN,
        s.precomputes_to(t, attract, drift),
    ensures
        t == s,
{
    if s.bodies.len() > 0 {
        lemma_full_extension_is_identity(s, t, attract, drift);
    }
}

/// Playback only shifts the cursor. Where there is a body and no
/// trajectory is empty, every trajectory is one state shorter, the state
/// that a body had at time index `i + 1` is the state it has at index `i`,
/// the state that it had at index 0 is the state to draw, and the cursor is
/// one lower; this holds of the last state as of any other. No future
/// state is changed, dropped or reordered, and the parameters, masses,
/// names, radii and visibilities are as they were. Where there is no body
/// or the trajectories are empty, nothing changes at all.
pub proof fn law_advance_shifts(s: SimModel)
    requires
        s.wf(),
    ensures
        s.can_advance() <==> s.bodies.len() > 0 && s.trajectory_pos > 0,
        s.advanced().wf(),
        s.advanced().gravitational_const == s.gravitational_const,
        s.advanced().bodies.len() == s.bodies.len(),
        s.advanced().masses() == s.masses(),
        s.can_advance() ==> s.advanced().trajectory_pos == s.trajectory_pos - 1,
        s.can_advance() ==> forall|b: int|
            0 <= b < s.bodies.len() ==> {
                &&& (#[trigger] s.advanced().bodies[b]).trajectory.len() == s.bodies[b].trajectory.len() - 1
                &&& s.advanced().bodies[b].current == s.bodies[b].trajectory[0]
                &&& s.advanced().bodies[b].name == s.bodies[b].name
                &&& s.advanced().bodies[b].mass == s.bodies[b].mass
                &&& s.advanced().bodies[b].radius == s.bodies[b].radius
                &&& s.advanced().bodies[b].visible == s.bodies[b].visible
            },
        s.can_advance() ==> forall|b: int, i: int|
            0 <= b < s.bodies.len() && 0 <= i < s.trajectory_pos - 1 ==> (#[trigger] s.advanced().bodies[b].trajectory[i])
                == s.bodies[b].trajectory[i + 1],
        !s.can_advance() ==> s.advanced() == s,
{
    if s.bodies.len() > 0 && s.trajectory_pos > 0 {
        assert forall|b: int| 0 <= b < s.bodies.len() implies (#[trigger] s.bodies[b]).trajectory.len()
            > 0 by {}
    }
    if s.can_advance() {
        assert(s.bodies[0].trajectory.len() > 0);
        assert forall|b: int| 0 <= b < s.bodies.len() implies (#[trigger] s.advanced().bodies[b]).trajectory.len()
            == s.trajectory_pos - 1 by {
            assert(s.bodies[b].trajectory.len() == s.trajectory_pos);
        }
        assert(s.advanced().masses() =~= s.masses());
    }
}

/// Once playback has consumed every state, the simulation waits for an
/// edit: precomputation and playback change nothing, and an invalidation
/// starts every body again from the state that was handed out last.
pub proof fn law_drained_waits_for_an_edit<
    A: Fn(Vec2, Scalar, Mass, Vec2, Vec2) -> Vec2,
    D: Fn(Vec2, Vec2, Scalar) -> Vec2,
>(s: SimModel, t: SimModel, attract: A, drift: D)
    requires
        s.wf(),
        s.drained(),
        s.precomputes_to(t, attract, drift),
    ensures
        t == s,
        s.advanced() == s,
        s.invalidated().wf(),
        s.invalidated().trajectory_pos == 1,
        forall|b: int|
            0 <= b < s.bodies.len() ==> (#[trigger] s.invalidated().bodies[b]).trajectory
                == seq![s.bodies[b].current],
{
    law_advance_shifts(s);
    assert forall|b: int| 0 <= b < s.bodies.len() implies (#[trigger] s.invalidated().bodies[b]).trajectory
        == seq![s.bodies[b].current] by {
        assert(s.bodies[b].trajectory.len() == s.trajectory_pos);
    }
}

/// Playback repeated is a shift by as many places: after `n` steps in a
/// row, no more than there are states, the state that a body had at time
/// index `i + n` is the state it has at index `i`, and the state to draw is
/// the last one handed out. Nothing else has changed.
pub proof fn law_repeated_advance_shifts(s: SimModel, n: nat)
    requires
        s.wf(),
        s.bodies.len() > 0,
        n <= s.trajectory_pos,
    ensures
        s.advanced_by(n).wf(),
        s.advanced_by(n).gravitational_const == s.gravitational_const,
        s.advanced_by(n).trajectory_pos == s.trajectory_pos - n,
        s.advanced_by(n).bodies.len() == s.bodies.len(),
        s.advanced_by(n).masses() == s.masses(),
        forall|b: int, i: int|
            0 <= b < s.bodies.len() && 0 <= i < s.trajectory_pos - n ==> (#[trigger] s.advanced_by(
                n,
            ).bodies[b].trajectory[i]) == s.bodies[b].trajectory[i + n],
        n > 0 ==> forall|b: int|
            0 <= b < s.bodies.len() ==> (#[trigger] s.advanced_by(n).bodies[b]).current
                == s.bodies[b].trajectory[n - 1],
    decreases n,
{
    if n > 0 {
        let before = s.advanced_by((n - 1) as nat);
        law_repeated_advance_shifts(s, (n - 1) as nat);
        law_advance_shifts(before);
        assert(before.can_advance());
        assert forall|b: int, i: int|
            0 <= b < s.bodies.len() && 0 <= i < s.trajectory_pos - n implies (#[trigger] s.advanced_by(
            n,
        ).bodies[b].trajectory[i]) == s.bodies[b].trajectory[i + n] by {
            assert(before.advanced().bodies[b].trajectory[i] == before.bodies[b].trajectory[i + 1]);
        }
        assert forall|b: int| 0 <= b < s.bodies.len() implies (#[trigger] s.advanced_by(n).bodies[b]).current
            == s.bodies[b].trajectory[n - 1] by {
            assert(before.bodies[b].trajectory[0] == s.bodies[b].trajectory[0 + (n - 1)]);
        }
    }
}

/// The simulation `later` with every body given back `head` as its present
/// state, in front of the states it holds: what `later` was before one
/// step of playback, had that step been taken last.
pub open spec fn rewound(later: SimModel, heads: Seq<SimSnapshot>, drawn: Seq<SimSnapshot>) -> SimModel {
    SimModel {
        gravitational_const: later.gravitational_const,
        trajectory_pos: later.trajectory_pos + 1,
        bodies: Seq::new(
            later.bodies.len(),
            |b: int|
                BodyModel {
                    current: drawn[b],
                    trajectory: seq![heads[b]] + later.bodies[b].trajectory,
                    ..later.bodies[b]
                },
        ),
    }
}

/// Playback and extension commute. Take a simulation `s` with a state
/// beyond the first, play back one step and extend the trajectories to
/// reach `t`. Then `s` itself extends, one time index further, to a
/// simulation of which `t` is the playback by one step: the states that
/// follow playback are the states that one precomputation of a longer
/// horizon would have held.
pub proof fn law_playback_commutes<
    A: Fn(Vec2, Scalar, Mass, Vec2, Vec2) -> Vec2,
    D: Fn(Vec2, Vec2, Scalar) -> Vec2,
>(s: SimModel, t: SimModel, attract: A, drift: D)
    requires
        s.wf(),
        s.bodies.len() > 0,
        s.trajectory_pos >= 2,
        s.advanced().extends_to(t, attract, drift),
    ensures
        ({
            let whole = rewound(t, s.states_at(0), Seq::new(s.bodies.len(), |b: int| s.bodies[b].current));
            s.extends_to(whole, attract, drift) && whole.advanced() == t
        }),
{
    let drawn = Seq::new(s.bodies.len(), |b: int| s.bodies[b].current);
    let whole = rewound(t, s.states_at(0), drawn);
    let played = s.advanced();
    let pos = s.trajectory_pos;
    assert(played.masses() =~= s.masses());
    assert forall|b: int| 0 <= b < s.bodies.len() implies {
        &&& (#[trigger] s.bodies[b]).same_up_to(whole.bodies[b], pos)
        &&& whole.bodies[b].trajectory.len() == whole.trajectory_pos
        &&& whole.bodies[b].advanced() == t.bodies[b]
    } by {
        assert(s.bodies[b].trajectory.len() == pos);
        assert(played.bodies[b].same_up_to(t.bodies[b], pos - 1));
        assert forall|i: int| 0 <= i < pos implies #[trigger] whole.bodies[b].trajectory[i]
            == s.bodies[b].trajectory[i] by {
            if i > 0 {
                assert(t.bodies[b].trajectory[i - 1] == played.bodies[b].trajectory[i - 1]);
            }
        }
        assert(whole.bodies[b].trajectory.skip(1) =~= t.bodies[b].trajectory);
    }
    assert(whole.advanced().bodies =~= t.bodies);
    assert forall|b: int, i: int|
        0 <= b < s.bodies.len() && pos <= i < whole.trajectory_pos implies stepped(
        attract,
        drift,
        s.gravitational_const,
        s.masses(),
        whole.states_at(i - 1),
        b,
        #[trigger] whole.bodies[b].trajectory[i],
    ) by {
        assert(whole.states_at(i - 1) =~= t.states_at(i - 2));
        assert(stepped(
            attract,
            drift,
            played.gravitational_const,
            played.masses(),
            t.states_at((i - 1) - 1),
            b,
            t.bodies[b].trajectory[i - 1],
        ));
    }
}

/// Playback and precomputation commute, down to the last state. Take a
/// simulation `s` that playback can move, play back one step and
/// precompute to reach `t`. Then `s` itself extends to a simulation of
/// which `t` is the playback by one step. Where the step consumed the last
/// state, precomputation had nothing to start from, and that simulation is
/// `s`.
pub proof fn law_playback_then_precompute<
    A: Fn(Vec2, Scalar, Mass, Vec2, Vec2) -> Vec2,
    D: Fn(Vec2, Vec2, Scalar) -> Vec2,
>(s: SimModel, t: SimModel, attract: A, drift: D)
    requires
        s.wf(),
        s.can_advance(),
        s.advanced().precomputes_to(t, attract, drift),
    ensures
        ({
            let whole = rewound(t, s.states_at(0), Seq::new(s.bodies.len(), |b: int| s.bodies[b].current));
            s.extends_to(whole, attract, drift) && whole.advanced() == t
        }),
{
    law_advance_shifts(s);
    if s.trajectory_pos >= 2 {
        law_playback_commutes(s, t, attract, drift);
    } else {
        let drawn = Seq::new(s.bodies.len(), |b: int| s.bodies[b].current);
        let whole = rewound(t, s.states_at(0), drawn);
        assert forall|b: int| 0 <= b < s.bodies.len() implies whole.bodies[b] == s.bodies[b] by {
            assert(s.bodies[b].trajectory.len() == 1);
            assert(whole.bodies[b].trajectory =~= s.bodies[b].trajectory);
        }
        assert(whole.bodies =~= s.bodies);
        assert(whole == s);
        lemma_extends_refl(s, attract, drift);
    }
}

/// Removal touches no other body: whoever stays is found, state for state
/// but for the forgotten future, at the index that
/// [`SimModel::index_after_removal`] gives.
pub proof fn law_removal_keeps_the_others(s: SimModel, removed: int, b: int)
    requires
        s.wf(),
        0 <= removed < s.bodies.len(),
        0 <= b < s.bodies.len(),
        b != removed,
    ensures
        SimModel::index_after_removal(b, removed).is_some(),
        ({
            let i = SimModel::index_after_removal(b, removed).unwrap();
            &&& 0 <= i < s.left_by(removed).invalidated().bodies.len()
            &&& s.left_by(removed).invalidated().bodies[i] == s.bodies[b].invalidated()
        }),
{
}

/// A tick is deterministic: with kernels that give one result for one
/// input, a simulation, a playback state and a number of notices have one
/// outcome.
pub proof fn law_tick_deterministic<
    A: Fn(Vec2, Scalar, Mass, Vec2, Vec2) -> Vec2,
    D: Fn(Vec2, Vec2, Scalar) -> Vec2,
>(s: SimModel, t1: SimModel, t2: SimModel, state: SimState, notices: int, attract: A, drift: D)
    requires
        attract_functional(attract),
        drift_functional(drift),
        s.wf(),
        s.ticks_to(t1, state, notices, attract, drift),
        s.ticks_to(t2, state, notices, attract, drift),
    ensures
        t1 == t2,
{
    law_invalidate_keeps_present(s);
    let start = s.cleared_on(notices);
    let filled1 = choose|filled: SimModel| #[trigger]
        start.precomputes_to(filled, attract, drift) && t1 == (if state.spec_advances() {
            filled.advanced()
        } else {
            filled
        });
    let filled2 = choose|filled: SimModel| #[trigger]
        start.precomputes_to(filled, attract, drift) && t2 == (if state.spec_advances() {
            filled.advanced()
        } else {
            filled
        });
    law_precompute_deterministic(start, filled1, filled2, attract, drift);
}

/// A tick keeps playback behind the horizon: it leaves the invariant in
/// place, and with a body and a state to start from the cursor ends at the
/// horizon, or one below it if the tick moved the cursor. With no body, or
/// with the trajectories empty and no edit to take in, it changes nothing.
pub proof fn law_tick_keeps_the_horizon<
    A: Fn(Vec2, Scalar, Mass, Vec2, Vec2) -> Vec2,
    D: Fn(Vec2, Vec2, Scalar) -> Vec2,
>(s: SimModel, t: SimModel, state: SimState, notices: int, attract: A, drift: D)
    requires
        s.wf(),
        s.ticks_to(t, state, notices, attract, drift),
    ensures
        t.wf(),
        t.bodies.len() == s.bodies.len(),
        s.bodies.len() > 0 && s.cleared_on(notices).trajectory_pos > 0 ==> t.trajectory_pos == (if state.spec_advances() {
            TRAJECTORY_LEN - 1
        } else {
            TRAJECTORY_LEN as int
        }),
        s.bodies.len() == 0 || s.cleared_on(notices).trajectory_pos == 0 ==> t == s.cleared_on(notices),
{
    law_invalidate_keeps_present(s);
    let start = s.cleared_on(notices);
    let filled = choose|filled: SimModel| #[trigger]
        start.precomputes_to(filled, attract, drift) && t == (if state.spec_advances() {
            filled.advanced()
        } else {
            filled
        });
    if s.bodies.len() > 0 && start.trajectory_pos > 0 {
        assert forall|b: int| 0 <= b < filled.bodies.len() implies (#[trigger] filled.bodies[b]).trajectory.len()
            == filled.trajectory_pos by {
            assert(start.bodies[b].same_up_to(filled.bodies[b], start.trajectory_pos));
        }
    }
    law_advance_shifts(filled);
}

} // verus!
