//! The playback controller: when the cursor moves, and in what order a tick
//! does its work.

use vstd::prelude::*;
use crate::body::Mass;
use crate::integrator::{attract_total, drift_total};
use crate::laws::{attract_functional, drift_functional};
use crate::model::SimModel;
use crate::sim::{Simulation, Warning};
use crate::vector::{Scalar, Vec2};

verus! {

/// The notice that some edit has made the precomputed future stale.
#[derive(Clone, Copy, Debug, PartialEq, Eq, Structural)]
pub struct ClearTrajectories;

/// The state of playback.
#[derive(Clone, Copy, Debug, PartialEq, Eq, Hash, Structural)]
pub enum SimState {
    /// Every tick moves the cursor.
    Playing,
    /// No tick moves the cursor.
    Paused,
    /// The next tick moves the cursor, and playback is paused after it.
    Step,
}

impl SimState {
    /// The state in which playback starts.
    pub fn initial() -> (r: SimState)
        ensures
            r == SimState::Paused,
    {
        SimState::Paused
    }

    /// The state after the toggle key: a running playback pauses and a
    /// paused one runs. The toggle leads nowhere from a pending single
    /// step, which ends in a pause by itself.
    pub open spec fn spec_toggled(self) -> SimState {
        match self {
            SimState::Playing => SimState::Paused,
            SimState::Paused => SimState::Playing,
            SimState::Step => SimState::Step,
        }
    }

    /// The state after the toggle key.
    #[verifier::when_used_as_spec(spec_toggled)]
    pub fn toggled(self) -> (r: SimState)
        ensures
            r == self.spec_toggled(),
    {
        match self {
            SimState::Playing => SimState::Paused,
            SimState::Paused => SimState::Playing,
            SimState::Step => SimState::Step,
        }
    }

    /// The state after the play/pause button: a running playback pauses and
    /// a paused one runs; while a single step is pending the button does
    /// nothing.
    pub fn play_pause(self) -> (r: SimState)
        ensures
            r == (match self {
                SimState::Playing => SimState::Paused,
                SimState::Paused => SimState::Playing,
                SimState::Step => SimState::Step,
            }),
    {
        match self {
            SimState::Playing => SimState::Paused,
            SimState::Paused => SimState::Playing,
            SimState::Step => SimState::Step,
        }
    }

    /// The state after the step button, whatever the state was.
    pub fn step(self) -> (r: SimState)
        ensures
            r == SimState::Step,
    {
        SimState::Step
    }

    /// Whether a tick in this state moves the cursor.
    pub open spec fn spec_advances(self) -> bool {
        self == SimState::Playing || self == SimState::Step
    }

    /// Whether a tick in this state moves the cursor.
    #[verifier::when_used_as_spec(spec_advances)]
    pub fn advances(self) -> (r: bool)
        ensures
            r == self.spec_advances(),
    {
        match self {
            SimState::Playing => true,
            SimState::Paused => false,
            SimState::Step => true,
        }
    }

    /// The state after a tick: a single step is over and playback is
    /// paused; the other states last.
    pub open spec fn spec_settled(self) -> SimState {
        if self == SimState::Step {
            SimState::Paused
        } else {
            self
        }
    }

    /// The state after a tick.
    #[verifier::when_used_as_spec(spec_settled)]
    pub fn settled(self) -> (r: SimState)
        ensures
            r == self.spec_settled(),
    {
        match self {
            SimState::Step => SimState::Paused,
            SimState::Playing => SimState::Playing,
            SimState::Paused => SimState::Paused,
        }
    }
}

/// What the keyboard asks of playback.
#[derive(Clone, Copy, Debug, PartialEq, Eq, Structural)]
pub struct InputResponse {
    /// Whether the cursor is to move once, now, whatever the state.
    pub advance_now: bool,
    /// The state to enter, if the state is to change.
    pub next_state: Option<SimState>,
}

/// The state that a press of the toggle key asks for: the other one of
/// playing and paused. While a single step is pending the key asks for
/// nothing.
pub open spec fn toggle_request(state: SimState) -> Option<SimState> {
    if state == SimState::Step {
        None
    } else {
        Some(state.spec_toggled())
    }
}

/// Decides what the keyboard asks of playback. While the advance key is
/// held the cursor moves once per call, in any state. A press of the toggle
/// key switches between playing and paused; it opens no way out of a
/// pending single step.
pub fn handle_input(state: SimState, advance_held: bool, toggle_pressed: bool) -> (r: InputResponse)
    ensures
        r.advance_now == advance_held,
        r.next_state == (if toggle_pressed {
            toggle_request(state)
        } else {
            None
        }),
{
    let next_state = if toggle_pressed {
        match state {
            SimState::Step => None,
            SimState::Playing => Some(state.toggled()),
            SimState::Paused => Some(state.toggled()),
        }
    } else {
        None
    };
    InputResponse { advance_now: advance_held, next_state }
}

/// Whether a tick that the state `entered` was entered for has taken the
/// single step: it has if that state is the single step, and no other
/// state has one to take.
pub fn step_taken(entered: SimState) -> (r: bool)
    ensures
        r == (entered == SimState::Step),
{
    match entered {
        SimState::Step => true,
        SimState::Playing => false,
        SimState::Paused => false,
    }
}

/// The state that a tick is due in. The clock may tick again before the
/// pause that follows a single step is entered: once the step is taken it
/// is over, and what is due is a pause.
pub fn due(state: SimState, step_taken: bool) -> (r: SimState)
    ensures
        r == (if step_taken && state == SimState::Step {
            SimState::Paused
        } else {
            state
        }),
{
    if step_taken {
        state.settled()
    } else {
        state
    }
}

impl SimModel {
    /// The simulation after `notices` notices of an edit were taken in:
    /// invalidated if there was one, and as it is if there was none.
    pub open spec fn cleared_on(self, notices: int) -> SimModel {
        if notices > 0 {
            self.invalidated()
        } else {
            self
        }
    }

    /// Whether `later` is what one tick in the playback state `state`
    /// makes of this simulation after `notices` notices of an edit: first
    /// the invalidation, if any edit was made; then precomputation up to
    /// the horizon; then, if the state moves the cursor, one step of
    /// playback.
    pub open spec fn ticks_to<
        A: Fn(Vec2, Scalar, Mass, Vec2, Vec2) -> Vec2,
        D: Fn(Vec2, Vec2, Scalar) -> Vec2,
    >(self, later: SimModel, state: SimState, notices: int, attract: A, drift: D) -> bool {
        exists|filled: SimModel| #[trigger]
            self.cleared_on(notices).precomputes_to(filled, attract, drift) && later == (if state.spec_advances() {
                filled.advanced()
            } else {
                filled
            })
    }
}

impl SimModel {
    /// What one tick in the playback state `state` makes of this
    /// simulation after `notices` notices of an edit, with kernels that
    /// give one result for one input.
    pub open spec fn ticked<
        A: Fn(Vec2, Scalar, Mass, Vec2, Vec2) -> Vec2,
        D: Fn(Vec2, Vec2, Scalar) -> Vec2,
    >(self, state: SimState, notices: int, attract: A, drift: D) -> SimModel {
        let filled = self.cleared_on(notices).precomputed(attract, drift);
        if state.spec_advances() {
            filled.advanced()
        } else {
            filled
        }
    }
}

/// What one tick did.
#[derive(Clone, Copy, Debug, PartialEq, Eq, Structural)]
pub struct Tick {
    /// The playback state after the tick.
    pub state: SimState,
    /// Why precomputation did nothing, if it did nothing.
    pub simulate: Option<Warning>,
    /// Why playback did not move the cursor, if it was to move it and did
    /// not.
    pub update: Option<Warning>,
}

impl Simulation {
    /// Takes in the notices of edits: the simulation is invalidated once
    /// for each, which comes to once if there is any.
    pub fn clear_trajectories_on_change(&mut self, notices: &Vec<ClearTrajectories>)
        requires
            old(self).wf(),
        ensures
            final(self).wf(),
            final(self)@ == old(self)@.cleared_on(notices.len() as int),
    {
        let mut taken: usize = 0;
        while taken < notices.len()
            invariant
                taken <= notices.len(),
                self.wf(),
                old(self).wf(),
                self@ == old(self)@.cleared_on(taken as int),
            decreases notices.len() - taken,
        {
            proof {
                crate::laws::law_invalidate_idempotent(old(self)@);
            }
            self.invalidate();
            taken += 1;
        }
    }

    /// One tick of the fixed clock, in the order that keeps playback behind
    /// the horizon: invalidation for the edits made since the last tick,
    /// then precomputation, then playback if `state` moves the cursor.
    ///
    /// With no body nothing changes. With the trajectories empty and no
    /// edit to take in, nothing changes either: both steps report
    /// [`Warning::EmptyTrajectory`].
    pub fn tick<A: Fn(Vec2, Scalar, Mass, Vec2, Vec2) -> Vec2, D: Fn(Vec2, Vec2, Scalar) -> Vec2>(
        &mut self,
        state: SimState,
        notices: &Vec<ClearTrajectories>,
        attract: &A,
        drift: &D,
    ) -> (r: Tick)
        requires
            old(self).wf(),
            attract_total(*attract),
            drift_total(*drift),
        ensures
            final(self).wf(),
            old(self)@.ticks_to(final(self)@, state, notices.len() as int, *attract, *drift),
            attract_functional(*attract) && drift_functional(*drift) ==> final(self)@ == old(self)@.ticked(
                state,
                notices.len() as int,
                *attract,
                *drift,
            ),
            r.state == state.spec_settled(),
            r.simulate == (if old(self)@.bodies.len() == 0 {
                Some(Warning::NothingToSimulate)
            } else if old(self)@.cleared_on(notices.len() as int).trajectory_pos == 0 {
                Some(Warning::EmptyTrajectory)
            } else {
                None
            }),
            r.update == (if !state.spec_advances() {
                None
            } else if old(self)@.bodies.len() == 0 {
                Some(Warning::NothingToUpdate)
            } else if old(self)@.cleared_on(notices.len() as int).trajectory_pos == 0 {
                Some(Warning::EmptyTrajectory)
            } else {
                None
            }),
    {
        self.clear_trajectories_on_change(notices);
        let simulate = self.precompute(attract, drift);
        let ghost filled = self@;
        let update = if state.advances() {
            self.advance()
        } else {
            None
        };
        proof {
            let start = old(self)@.cleared_on(notices.len() as int);
            assert(start.precomputes_to(filled, *attract, *drift));
            if start.bodies.len() > 0 {
                if start.trajectory_pos == 0 {
                    assert(filled.bodies[0].trajectory.len() == 0);
                } else {
                    assert forall|b: int| 0 <= b < filled.bodies.len() implies (#[trigger] filled.bodies[b]).trajectory.len()
                        > 0 by {}
                }
            }
        }
        Tick { state: state.settled(), simulate, update }
    }
}

} // verus!
