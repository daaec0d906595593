//! What a body is made of.

use vstd::prelude::*;
use crate::trajectory::{SimSnapshot, Trajectory};
use crate::vector::{Scalar, Vec2};

verus! {

/// The name of a body. It identifies nothing: two bodies may share one.
#[derive(Clone, Debug)]
pub struct Name(pub String);

/// The mass of a body, in kilograms.
#[derive(Clone, Copy, Debug, PartialEq, Eq, Structural)]
pub struct Mass(pub Scalar);

/// The radius of a body. It serves drawing and picking and has no part in
/// gravity.
#[derive(Clone, Copy, Debug, PartialEq, Eq, Structural)]
pub struct Radius(pub Scalar);

/// Whether the trajectory of a body is drawn.
#[derive(Clone, Copy, Debug, PartialEq, Eq, Structural)]
pub struct TrajectoryVisibility(pub bool);

/// The description of a body as a scenario gives it.
#[derive(Clone, Debug)]
pub struct Body {
    pub initial_pos: Vec2,
    /// In metres per second.
    pub velocity: Vec2,
    /// In kilograms.
    pub mass: Scalar,
    pub radius: Scalar,
    pub name: String,
}

/// What the contracts say of a body: its fields, the name by its
/// characters and the trajectory by its states.
pub struct BodyModel {
    pub name: Seq<char>,
    pub mass: Mass,
    pub radius: Radius,
    pub visible: bool,
    pub current: SimSnapshot,
    pub trajectory: Seq<SimSnapshot>,
}

/// A body of the running simulation.
#[derive(Debug)]
pub struct CelestialBody {
    pub name: Name,
    pub mass: Mass,
    pub radius: Radius,
    /// The state that was last handed to playback: what a front end draws.
    pub current: SimSnapshot,
    pub trajectory: Trajectory,
    pub trajectory_visibility: TrajectoryVisibility,
}

impl View for CelestialBody {
    type V = BodyModel;

    open spec fn view(&self) -> BodyModel {
        BodyModel {
            name: self.name.0@,
            mass: self.mass,
            radius: self.radius,
            visible: self.trajectory_visibility.0,
            current: self.current,
            trajectory: self.trajectory@,
        }
    }
}

impl BodyModel {
    /// The body as a scenario describes it, before any step was computed.
    pub open spec fn spawned(body: Body) -> BodyModel {
        let initial = SimSnapshot { velocity: body.velocity, position: body.initial_pos };
        BodyModel {
            name: body.name@,
            mass: Mass(body.mass),
            radius: Radius(body.radius),
            visible: true,
            current: initial,
            trajectory: seq![initial],
        }
    }

    /// The body with every state but the present one forgotten: its
    /// trajectory holds the present state alone.
    pub open spec fn invalidated(self) -> BodyModel {
        BodyModel { trajectory: seq![self.present()], ..self }
    }

    /// The state the body is in now: the first state of its trajectory,
    /// and, once playback has consumed them all, the state that was handed
    /// out last.
    pub open spec fn present(self) -> SimSnapshot {
        if self.trajectory.len() > 0 {
            self.trajectory[0]
        } else {
            self.current
        }
    }

    /// The body after playback has consumed its present state.
    pub open spec fn advanced(self) -> BodyModel {
        BodyModel { current: self.trajectory[0], trajectory: self.trajectory.skip(1), ..self }
    }

    /// The body under the name `name`.
    pub open spec fn renamed(self, name: Seq<char>) -> BodyModel {
        BodyModel { name, ..self }
    }

    /// The body with the radius `radius`.
    pub open spec fn with_radius(self, radius: Radius) -> BodyModel {
        BodyModel { radius, ..self }
    }

    /// The body with its trajectory drawn or not, as `visible` says.
    pub open spec fn shown(self, visible: bool) -> BodyModel {
        BodyModel { visible, ..self }
    }

    /// The body with the mass `mass`.
    pub open spec fn with_mass(self, mass: Mass) -> BodyModel {
        BodyModel { mass, ..self }
    }

    /// The body put at `position`: both the first state of its trajectory,
    /// if it holds one, and the state to draw have that position.
    pub open spec fn moved_to(self, position: Vec2) -> BodyModel {
        BodyModel {
            current: SimSnapshot { position, ..self.current },
            trajectory: if self.trajectory.len() > 0 {
                self.trajectory.update(0, SimSnapshot { position, ..self.trajectory[0] })
            } else {
                self.trajectory
            },
            ..self
        }
    }

    /// The body given the velocity `velocity`, in the first state of its
    /// trajectory, if it holds one, and in the state to draw.
    pub open spec fn launched_at(self, velocity: Vec2) -> BodyModel {
        BodyModel {
            current: SimSnapshot { velocity, ..self.current },
            trajectory: if self.trajectory.len() > 0 {
                self.trajectory.update(0, SimSnapshot { velocity, ..self.trajectory[0] })
            } else {
                self.trajectory
            },
            ..self
        }
    }

    /// Whether `later` is this body with nothing changed but the states
    /// from time index `from` on.
    pub open spec fn same_up_to(self, later: BodyModel, from: int) -> bool {
        &&& later.name == self.name
        &&& later.mass == self.mass
        &&& later.radius == self.radius
        &&& later.visible == self.visible
        &&& later.current == self.current
        &&& later.trajectory.len() >= from
        &&& self.trajectory.len() >= from
        &&& forall|i: int| 0 <= i < from ==> #[trigger] later.trajectory[i] == self.trajectory[i]
    }
}

impl CelestialBody {
    /// The state the body is in now: the first state of its trajectory,
    /// and, once playback has consumed them all, the state that was handed
    /// out last.
    pub fn present(&self) -> (r: SimSnapshot)
        ensures
            r == self@.present(),
    {
        match self.trajectory.front() {
            Some(first) => first,
            None => self.current,
        }
    }

    /// The live body for a description: visible, and with a trajectory
    /// that holds the initial state alone.
    pub fn spawn(body: &Body) -> (r: CelestialBody)
        ensures
            r@ == BodyModel::spawned(*body),
    {
        CelestialBody {
            name: Name(body.name.clone()),
            mass: Mass(body.mass),
            radius: Radius(body.radius),
            current: SimSnapshot { velocity: body.velocity, position: body.initial_pos },
            trajectory: Trajectory::new(body.initial_pos, body.velocity),
            trajectory_visibility: TrajectoryVisibility(true),
        }
    }
}

} // verus!
