//! Scenarios, and the state of the application that loads them.

use vstd::prelude::*;
use crate::model::SimModel;
use crate::sim::Simulation;
use crate::vector::Scalar;

verus! {

/// The description of a scenario: a set of bodies and the constant of
/// gravity they move under.
#[derive(Clone, Debug)]
pub struct System {
    /// Where the descriptions of the bodies are found.
    pub folder: String,
    pub display_name: String,
    pub gravitational_const: Scalar,
}

/// What the application is doing. Scenarios are named by their index in
/// the list of the scenarios that are known.
#[derive(Clone, Copy, Debug, PartialEq, Eq, Hash, Structural)]
pub enum AppState {
    MainMenu,
    /// The bodies of a scenario are being brought in.
    Loading,
    Simulating,
    /// The running scenario is being taken down to make room for another.
    SwitchSim { next_sim_id: usize },
}

/// What the user asks of the application.
#[derive(Clone, Copy, Debug, PartialEq, Eq, Structural)]
pub enum AppEvent {
    LoadSystem { id: usize },
    ReloadSystem,
}

/// What the application is to do next.
#[derive(Clone, Copy, Debug, PartialEq, Eq, Structural)]
pub struct AppResponse {
    /// The state to enter, if the state is to change.
    pub next_state: Option<AppState>,
    /// The scenario whose bodies are to be brought in, if any.
    pub load: Option<usize>,
}

/// The scenario that the last request to load in `events` names, if there
/// is such a request.
pub open spec fn last_load(events: Seq<AppEvent>) -> Option<usize>
    decreases events.len(),
{
    if events.len() == 0 {
        None
    } else {
        match events.last() {
            AppEvent::LoadSystem { id } => Some(id),
            AppEvent::ReloadSystem => last_load(events.drop_last()),
        }
    }
}

/// What a batch of requests asks for in the state `state`.
///
/// Only requests to load count, and of several the last one wins. From the
/// main menu the scenario is loaded at once. While a scenario runs, it is
/// first taken down: the application switches. In the other states
/// requests are dropped.
pub open spec fn response_to(state: AppState, events: Seq<AppEvent>) -> AppResponse {
    match (state, last_load(events)) {
        (AppState::MainMenu, Some(id)) => AppResponse {
            next_state: Some(AppState::Loading),
            load: Some(id),
        },
        (AppState::Simulating, Some(id)) => AppResponse {
            next_state: Some(AppState::SwitchSim { next_sim_id: id }),
            load: None,
        },
        _ => AppResponse { next_state: None, load: None },
    }
}

/// Decides what a batch of requests asks for in the state `state`.
pub fn recieve_app_events(state: AppState, events: &Vec<AppEvent>) -> (r: AppResponse)
    ensures
        r == response_to(state, events@),
{
    let mut response = AppResponse { next_state: None, load: None };
    let mut taken: usize = 0;
    while taken < events.len()
        invariant
            taken <= events.len(),
            response == response_to(state, events@.take(taken as int)),
        decreases events.len() - taken,
    {
        proof {
            let before = events@.take(taken as int);
            let after = events@.take(taken + 1);
            assert(after.drop_last() =~= before);
            assert(after.last() == events@[taken as int]);
        }
        match events[taken] {
            AppEvent::LoadSystem { id } => {
                match state {
                    AppState::MainMenu => {
                        response = AppResponse { next_state: Some(AppState::Loading), load: Some(id) };
                    },
                    AppState::Simulating => {
                        response = AppResponse {
                            next_state: Some(AppState::SwitchSim { next_sim_id: id }),
                            load: None,
                        };
                    },
                    _ => {},
                }
            },
            AppEvent::ReloadSystem => {},
        }
        taken += 1;
    }
    proof {
        assert(events@.take(events.len() as int) =~= events@);
    }
    response
}

/// Once the running scenario is taken down, decides what follows: after a
/// switch the scenario that was asked for is loaded, and in any other state
/// nothing is to be done.
pub fn load_next_sim(state: AppState) -> (r: AppResponse)
    ensures
        r == (match state {
            AppState::SwitchSim { next_sim_id } => AppResponse {
                next_state: Some(AppState::Loading),
                load: Some(next_sim_id),
            },
            _ => AppResponse { next_state: None, load: None },
        }),
{
    match state {
        AppState::SwitchSim { next_sim_id } => AppResponse {
            next_state: Some(AppState::Loading),
            load: Some(next_sim_id),
        },
        _ => AppResponse { next_state: None, load: None },
    }
}

/// Decides whether loading is over: the simulation starts once bodies were
/// asked for and all of them have arrived.
pub fn check_system_load_state(requested: bool, loaded: bool) -> (r: Option<AppState>)
    ensures
        r == (if requested && loaded {
            Some(AppState::Simulating)
        } else {
            None
        }),
{
    if requested && loaded {
        Some(AppState::Simulating)
    } else {
        None
    }
}

impl Simulation {
    /// Makes the simulation ready for the bodies of `system`: no body is
    /// left, the gravitational constant is that of the scenario, and the
    /// cursor is at one.
    pub fn load_system(&mut self, system: &System)
        ensures
            final(self).wf(),
            final(self)@ == SimModel::empty(system.gravitational_const),
    {
        self.reset(system.gravitational_const);
    }
}

} // verus!
