//! The simulation engine: precomputation, playback and invalidation.

use vstd::prelude::*;
use crate::body::{Body, BodyModel, CelestialBody, Mass, Name, Radius, TrajectoryVisibility};
use crate::integrator::{attract_total, drift_total, step, stepped};
use crate::laws::{attract_functional, drift_functional, law_precompute_deterministic};
use crate::model::{
    lemma_edit_keeps_wf, lemma_extends_refl, lemma_extends_trans, lemma_full_extension_is_identity,
    SimModel,
};
use crate::trajectory::{SimSnapshot, TRAJECTORY_LEN};
use crate::vector::{Scalar, Vec2, ONE_BITS};

verus! {

/// The parameters of a simulation.
#[derive(Clone, Copy, Debug, PartialEq, Eq, Structural)]
pub struct SimData {
    pub gravitational_const: Scalar,
    pub trajectory_pos: usize,
}

impl Default for SimData {
    fn default() -> (r: SimData)
        ensures
            r.gravitational_const == Scalar(ONE_BITS),
            r.trajectory_pos == 1,
    {
        SimData { gravitational_const: Scalar(ONE_BITS), trajectory_pos: 1 }
    }
}

impl SimData {
    /// How many time indices, counted from the present, are computed.
    pub fn trajectory_pos(&self) -> (r: usize)
        ensures
            r == self.trajectory_pos,
    {
        self.trajectory_pos
    }
}

/// Why an operation of the engine did nothing. None of these is a failure:
/// the simulation is as it was and can go on.
#[derive(Clone, Copy, Debug, PartialEq, Eq, Structural)]
pub enum Warning {
    /// Precomputation found no body.
    NothingToSimulate,
    /// Playback found no body.
    NothingToUpdate,
    /// The trajectories are empty: playback has consumed every state that
    /// was computed.
    EmptyTrajectory,
    /// An edit named a body that does not exist.
    NoSuchBody,
}

impl Warning {
    /// The line to log for this warning.
    pub fn message(&self) -> (r: &'static str)
        ensures
            r@ == (match *self {
                Warning::NothingToSimulate => "Nothing to simulate"@,
                Warning::NothingToUpdate => "Nothing to update"@,
                Warning::EmptyTrajectory => "Trajectory is empty"@,
                Warning::NoSuchBody => "No such body"@,
            }),
    {
        match self {
            Warning::NothingToSimulate => "Nothing to simulate",
            Warning::NothingToUpdate => "Nothing to update",
            Warning::EmptyTrajectory => "Trajectory is empty",
            Warning::NoSuchBody => "No such body",
        }
    }
}

/// A set of bodies with their precomputed trajectories.
#[derive(Debug)]
pub struct Simulation {
    bodies: Vec<CelestialBody>,
    data: SimData,
}

impl View for Simulation {
    type V = SimModel;

    closed spec fn view(&self) -> SimModel {
        SimModel {
            gravitational_const: self.data.gravitational_const,
            trajectory_pos: self.data.trajectory_pos as int,
            bodies: Seq::new(self.bodies@.len(), |b: int| self.bodies@[b]@),
        }
    }
}

impl Simulation {
    /// The invariant of the engine: see [`SimModel::wf`].
    pub open spec fn wf(&self) -> bool {
        self@.wf()
    }

    /// A simulation without bodies, with the gravitational constant one.
    pub fn new() -> (r: Simulation)
        ensures
            r.wf(),
            r@ == SimModel::empty(Scalar(ONE_BITS)),
    {
        let r = Simulation { bodies: Vec::new(), data: SimData::default() };
        proof {
            assert(r@.bodies =~= SimModel::empty(Scalar(ONE_BITS)).bodies);
        }
        r
    }

    /// The number of bodies.
    pub fn len(&self) -> (r: usize)
        ensures
            r == self@.bodies.len(),
    {
        self.bodies.len()
    }

    /// The parameters of the simulation.
    pub fn data(&self) -> (r: SimData)
        ensures
            r.gravitational_const == self@.gravitational_const,
            r.trajectory_pos == self@.trajectory_pos,
    {
        self.data
    }

    /// The body with index `b`, if there is one.
    pub fn body(&self, b: usize) -> (r: Option<&CelestialBody>)
        ensures
            b < self@.bodies.len() ==> r.is_some() && r.unwrap()@ == self@.bodies[b as int],
            b >= self@.bodies.len() ==> r.is_none(),
    {
        if b < self.bodies.len() {
            Some(&self.bodies[b])
        } else {
            None
        }
    }

    /// The path of the body with index `b` beside the path of the body with
    /// index `followed`, time index by time index: what a front end needs
    /// to draw the one as seen from the other. Both paths have the same
    /// length, so no position is left without its partner. Where one of the
    /// two bodies does not exist, there is no such path.
    pub fn paired_positions(&self, b: usize, followed: usize) -> (r: Option<Vec<(Vec2, Vec2)>>)
        requires
            self.wf(),
        ensures
            b < self@.bodies.len() && followed < self@.bodies.len() ==> r.is_some() && r.unwrap()@.len()
                == self@.trajectory_pos && forall|i: int|
                0 <= i < self@.trajectory_pos ==> #[trigger] r.unwrap()@[i] == (
                    self@.bodies[b as int].trajectory[i].position,
                    self@.bodies[followed as int].trajectory[i].position,
                ),
            b >= self@.bodies.len() || followed >= self@.bodies.len() ==> r.is_none(),
    {
        if b >= self.bodies.len() || followed >= self.bodies.len() {
            return None;
        }
        proof {
            assert(self@.bodies[b as int] == self.bodies@[b as int]@);
            assert(self@.bodies[followed as int] == self.bodies@[followed as int]@);
        }
        let own = self.bodies[b].trajectory.positions();
        let other = self.bodies[followed].trajectory.positions();
        let n = own.len();
        let mut pairs: Vec<(Vec2, Vec2)> = Vec::with_capacity(n);
        let mut i: usize = 0;
        while i < n
            invariant
                i <= n,
                n == own.len(),
                n == other.len(),
                pairs@.len() == i,
                forall|k: int| 0 <= k < i ==> #[trigger] pairs@[k] == (own@[k], other@[k]),
            decreases n - i,
        {
            pairs.push((own[i], other[i]));
            i += 1;
        }
        Some(pairs)
    }

    /// Throws the precomputed future away: the trajectory of every body
    /// is left with its present state alone, and the cursor is at one.
    /// Where playback had consumed every state, the present state is the
    /// one that was handed out last.
    pub fn invalidate(&mut self)
        ensures
            final(self).wf(),
            final(self)@ == old(self)@.invalidated(),
    {
        let n = self.bodies.len();
        let mut b: usize = 0;
        while b < n
            invariant
                b <= n,
                n == self.bodies.len(),
                self.data == old(self).data,
                self.bodies@.len() == old(self).bodies@.len(),
                forall|c: int|
                    0 <= c < b ==> (#[trigger] self.bodies@[c])@ == old(self).bodies@[c]@.invalidated(),
                forall|c: int| b <= c < n ==> #[trigger] self.bodies@[c] == old(self).bodies@[c],
            decreases n - b,
        {
            if self.bodies[b].trajectory.is_empty() {
                let present = self.bodies[b].current;
                self.bodies[b].trajectory.push_back(present);
            } else {
                self.bodies[b].trajectory.keep_front();
            }
            proof {
                let before = old(self).bodies@[b as int]@;
                assert(self.bodies@[b as int]@.trajectory =~= seq![before.present()]);
            }
            b += 1;
        }
        self.data.trajectory_pos = 1;
        proof {
            assert(self@.bodies =~= old(self)@.invalidated().bodies);
        }
    }

    /// One step of playback: every body hands out the first state of its
    /// trajectory, which becomes the state to draw, and the state that
    /// followed it, if there is one, becomes the first. The cursor goes
    /// down by one.
    ///
    /// With no body, or with the trajectories empty, nothing changes and
    /// the reason is returned.
    pub fn advance(&mut self) -> (r: Option<Warning>)
        requires
            old(self).wf(),
        ensures
            final(self).wf(),
            final(self)@ == old(self)@.advanced(),
            r == (if old(self)@.bodies.len() == 0 {
                Some(Warning::NothingToUpdate)
            } else if !old(self)@.can_advance() {
                Some(Warning::EmptyTrajectory)
            } else {
                None
            }),
    {
        let n = self.bodies.len();
        if n == 0 {
            return Some(Warning::NothingToUpdate);
        }
        if self.data.trajectory_pos == 0 {
            proof {
                assert(old(self)@.bodies[0].trajectory.len() == 0);
            }
            return Some(Warning::EmptyTrajectory);
        }
        let mut b: usize = 0;
        while b < n
            invariant
                b <= n,
                n == self.bodies.len(),
                old(self).wf(),
                old(self)@.trajectory_pos >= 1,
                self.data == old(self).data,
                self.bodies@.len() == old(self).bodies@.len(),
                forall|c: int|
                    0 <= c < b ==> (#[trigger] self.bodies@[c])@ == old(self).bodies@[c]@.advanced(),
                forall|c: int| b <= c < n ==> #[trigger] self.bodies@[c] == old(self).bodies@[c],
            decreases n - b,
        {
            proof {
                assert(old(self)@.bodies[b as int] == old(self).bodies@[b as int]@);
            }
            let head = self.bodies[b].trajectory.pop_front();
            if let Some(state) = head {
                self.bodies[b].current = state;
            }
            b += 1;
        }
        self.data.trajectory_pos = self.data.trajectory_pos - 1;
        proof {
            assert(self@.bodies =~= old(self)@.advanced().bodies);
            assert forall|c: int| 0 <= c < self@.bodies.len() implies (#[trigger] self@.bodies[c]).trajectory.len()
                == self@.trajectory_pos by {
                assert(old(self)@.bodies[c] == old(self).bodies@[c]@);
            }
        }
        None
    }

    /// The masses of the bodies, in body order.
    pub fn masses(&self) -> (r: Vec<Mass>)
        ensures
            r@ == self@.masses(),
    {
        let n = self.bodies.len();
        let mut masses: Vec<Mass> = Vec::with_capacity(n);
        let mut b: usize = 0;
        while b < n
            invariant
                b <= n,
                n == self.bodies.len(),
                masses@.len() == b,
                forall|c: int| 0 <= c < b ==> masses@[c] == self.bodies@[c].mass,
            decreases n - b,
        {
            masses.push(self.bodies[b].mass);
            b += 1;
        }
        proof {
            assert(masses@ =~= self@.masses());
        }
        masses
    }

    /// The states of all bodies at time index `i`, in body order, if that
    /// index has been computed.
    pub fn states_at(&self, i: usize) -> (r: Option<Vec<SimSnapshot>>)
        requires
            self.wf(),
        ensures
            i < self@.trajectory_pos ==> r.is_some() && r.unwrap()@ == self@.states_at(i as int),
            i >= self@.trajectory_pos ==> r.is_none(),
    {
        if i >= self.data.trajectory_pos {
            return None;
        }
        let n = self.bodies.len();
        let mut states: Vec<SimSnapshot> = Vec::with_capacity(n);
        let mut b: usize = 0;
        while b < n
            invariant
                b <= n,
                n == self.bodies.len(),
                self.wf(),
                i < self.data.trajectory_pos,
                states@.len() == b,
                forall|c: int| 0 <= c < b ==> states@[c] == self.bodies@[c].trajectory@[i as int],
            decreases n - b,
        {
            proof {
                assert(self@.bodies[b as int] == self.bodies@[b as int]@);
            }
            match self.bodies[b].trajectory.get(i) {
                Some(state) => {
                    states.push(state);
                },
                None => {},
            }
            b += 1;
        }
        proof {
            assert(states@ =~= self@.states_at(i as int));
        }
        Some(states)
    }

    /// Computes one more time index for every body. All bodies are read at
    /// the last computed index before any of them is extended.
    fn extend_by_one<
        A: Fn(Vec2, Scalar, Mass, Vec2, Vec2) -> Vec2,
        D: Fn(Vec2, Vec2, Scalar) -> Vec2,
    >(&mut self, attract: &A, drift: &D, masses: &Vec<Mass>, states: &Vec<SimSnapshot>)
        requires
            old(self).wf(),
            1 <= old(self)@.trajectory_pos < TRAJECTORY_LEN,
            masses@ == old(self)@.masses(),
            states@ == old(self)@.states_at(old(self)@.trajectory_pos - 1),
            attract_total(*attract),
            drift_total(*drift),
        ensures
            final(self).wf(),
            final(self)@.trajectory_pos == old(self)@.trajectory_pos + 1,
            old(self)@.extends_to(final(self)@, *attract, *drift),
    {
        let n = self.bodies.len();
        let g = self.data.gravitational_const;
        let ghost pos = self.data.trajectory_pos as int;
        let mut b: usize = 0;
        while b < n
            invariant
                b <= n,
                n == self.bodies.len(),
                n == masses.len(),
                n == states.len(),
                old(self).wf(),
                pos == old(self).data.trajectory_pos,
                g == old(self).data.gravitational_const,
                masses@ == old(self)@.masses(),
                states@ == old(self)@.states_at(pos - 1),
                attract_total(*attract),
                drift_total(*drift),
                self.data == old(self).data,
                self.bodies@.len() == old(self).bodies@.len(),
                forall|c: int|
                    0 <= c < b ==> {
                        &&& old(self).bodies@[c]@.same_up_to((#[trigger] self.bodies@[c])@, pos)
                        &&& self.bodies@[c]@.trajectory.len() == pos + 1
                        &&& stepped(*attract, *drift, g, masses@, states@, c, self.bodies@[c]@.trajectory[pos])
                    },
                forall|c: int| b <= c < n ==> #[trigger] self.bodies@[c] == old(self).bodies@[c],
            decreases n - b,
        {
            proof {
                assert(old(self)@.bodies[b as int] == old(self).bodies@[b as int]@);
            }
            let next = step(attract, drift, g, masses, states, b);
            self.bodies[b].trajectory.push_back(next);
            proof {
                let before = old(self).bodies@[b as int]@;
                let after = self.bodies@[b as int]@;
                assert forall|i: int| 0 <= i < pos implies #[trigger] after.trajectory[i]
                    == before.trajectory[i] by {}
            }
            b += 1;
        }
        self.data.trajectory_pos = self.data.trajectory_pos + 1;
        proof {
            let before = old(self)@;
            let after = self@;
            assert forall|c: int| 0 <= c < before.bodies.len() implies {
                &&& (#[trigger] before.bodies[c]).same_up_to(after.bodies[c], before.trajectory_pos)
                &&& after.bodies[c].trajectory.len() == after.trajectory_pos
            } by {
                assert(old(self).bodies@[c]@.same_up_to(self.bodies@[c]@, pos));
            }
            assert(after.states_at(pos - 1) =~= states@) by {
                assert forall|c: int| 0 <= c < before.bodies.len() implies after.bodies[c].trajectory[pos - 1]
                    == before.bodies[c].trajectory[pos - 1] by {
                    assert(old(self).bodies@[c]@.same_up_to(self.bodies@[c]@, pos));
                    assert(after.bodies[c].trajectory[pos - 1] == before.bodies[c].trajectory[pos - 1]);
                }
            }
            assert forall|c: int, i: int|
                0 <= c < before.bodies.len() && before.trajectory_pos <= i < after.trajectory_pos implies stepped(
                *attract,
                *drift,
                before.gravitational_const,
                before.masses(),
                after.states_at(i - 1),
                c,
                #[trigger] after.bodies[c].trajectory[i],
            ) by {
                assert(stepped(*attract, *drift, g, masses@, states@, c, self.bodies@[c]@.trajectory[pos]));
            }
        }
    }

    /// Fills every trajectory up to the horizon.
    ///
    /// Time index by time index, the state of every body is computed by
    /// [`step`] from the states that all bodies have at the index before,
    /// and appended. With no body, or with the trajectories empty, there
    /// is nothing to start from: nothing changes, and that is reported.
    pub fn precompute<
        A: Fn(Vec2, Scalar, Mass, Vec2, Vec2) -> Vec2,
        D: Fn(Vec2, Vec2, Scalar) -> Vec2,
    >(&mut self, attract: &A, drift: &D) -> (r: Option<Warning>)
        requires
            old(self).wf(),
            attract_total(*attract),
            drift_total(*drift),
        ensures
            final(self).wf(),
            old(self)@.precomputes_to(final(self)@, *attract, *drift),
            old(self)@.bodies.len() == 0 || old(self)@.trajectory_pos == TRAJECTORY_LEN ==> final(self)@
                == old(self)@,
            attract_functional(*attract) && drift_functional(*drift) ==> final(self)@ == old(self)@.precomputed(
                *attract,
                *drift,
            ),
            r == (if old(self)@.bodies.len() == 0 {
                Some(Warning::NothingToSimulate)
            } else if old(self)@.trajectory_pos == 0 {
                Some(Warning::EmptyTrajectory)
            } else {
                None
            }),
    {
        if self.bodies.len() == 0 || self.data.trajectory_pos == 0 {
            proof {
                if attract_functional(*attract) && drift_functional(*drift) {
                    law_precompute_deterministic(
                        old(self)@,
                        self@,
                        old(self)@.precomputed(*attract, *drift),
                        *attract,
                        *drift,
                    );
                }
            }
            if self.bodies.len() == 0 {
                return Some(Warning::NothingToSimulate);
            }
            return Some(Warning::EmptyTrajectory);
        }
        let masses = self.masses();
        proof {
            lemma_extends_refl(self@, *attract, *drift);
        }
        while self.data.trajectory_pos < TRAJECTORY_LEN
            invariant
                self.wf(),
                old(self).wf(),
                old(self)@.trajectory_pos >= 1,
                old(self)@.extends_to(self@, *attract, *drift),
                masses@ == old(self)@.masses(),
                attract_total(*attract),
                drift_total(*drift),
            decreases TRAJECTORY_LEN - self.data.trajectory_pos,
        {
            let ghost before = self@;
            proof {
                assert(before.masses() =~= old(self)@.masses()) by {
                    assert forall|c: int| 0 <= c < before.bodies.len() implies before.bodies[c].mass
                        == old(self)@.bodies[c].mass by {
                        assert(old(self)@.bodies[c].same_up_to(before.bodies[c], old(self)@.trajectory_pos));
                    }
                }
            }
            match self.states_at(self.data.trajectory_pos - 1) {
                Some(states) => {
                    self.extend_by_one(attract, drift, &masses, &states);
                },
                None => {},
            }
            proof {
                lemma_extends_trans(old(self)@, before, self@, *attract, *drift);
            }
        }
        proof {
            if old(self)@.trajectory_pos == TRAJECTORY_LEN {
                lemma_full_extension_is_identity(old(self)@, self@, *attract, *drift);
            }
            if attract_functional(*attract) && drift_functional(*drift) {
                law_precompute_deterministic(
                    old(self)@,
                    self@,
                    old(self)@.precomputed(*attract, *drift),
                    *attract,
                    *drift,
                );
            }
        }
        None
    }

    /// Adds a body as a scenario describes it and invalidates: every body,
    /// the new one included, is left with its present state alone. The
    /// index of the new body is returned.
    pub fn spawn(&mut self, body: &Body) -> (r: usize)
        requires
            old(self).wf(),
        ensures
            final(self).wf(),
            r == old(self)@.bodies.len(),
            final(self)@ == old(self)@.joined_by(BodyModel::spawned(*body)).invalidated(),
    {
        let index = self.bodies.len();
        self.bodies.push(CelestialBody::spawn(body));
        proof {
            assert(self@.bodies =~= old(self)@.joined_by(BodyModel::spawned(*body)).bodies);
        }
        self.invalidate();
        index
    }

    /// Takes in the bodies whose descriptions have arrived: each is spawned
    /// in turn, as [`Simulation::spawn`] does it. The indices of the new
    /// bodies are returned, in the order of their descriptions.
    pub fn recieve_asset_events(&mut self, loaded: &Vec<Body>) -> (r: Vec<usize>)
        requires
            old(self).wf(),
        ensures
            final(self).wf(),
            final(self)@ == old(self)@.joined_by_all(loaded@),
            r@.len() == loaded@.len(),
            forall|i: int| 0 <= i < r@.len() ==> #[trigger] r@[i] == old(self)@.bodies.len() + i,
    {
        let mut indices: Vec<usize> = Vec::with_capacity(loaded.len());
        let mut taken: usize = 0;
        while taken < loaded.len()
            invariant
                taken <= loaded.len(),
                self.wf(),
                self@ == old(self)@.joined_by_all(loaded@.take(taken as int)),
                self@.bodies.len() == old(self)@.bodies.len() + taken,
                indices@.len() == taken,
                forall|i: int| 0 <= i < taken ==> #[trigger] indices@[i] == old(self)@.bodies.len() + i,
            decreases loaded.len() - taken,
        {
            proof {
                let before = loaded@.take(taken as int);
                let after = loaded@.take(taken + 1);
                assert(after.drop_last() =~= before);
                assert(after.last() == loaded@[taken as int]);
            }
            let index = self.spawn(&loaded[taken]);
            indices.push(index);
            taken += 1;
        }
        proof {
            assert(loaded@.take(loaded.len() as int) =~= loaded@);
        }
        indices
    }

    /// Removes the body with index `b` and hands it out; the bodies behind
    /// it move up by one, and the simulation is invalidated. Where there is
    /// no such body, nothing changes.
    pub fn remove(&mut self, b: usize) -> (r: Option<CelestialBody>)
        requires
            old(self).wf(),
        ensures
            final(self).wf(),
            b < old(self)@.bodies.len() ==> r.is_some() && r.unwrap()@ == old(self)@.bodies[b as int]
                && final(self)@ == old(self)@.left_by(b as int).invalidated(),
            b >= old(self)@.bodies.len() ==> r.is_none() && final(self)@ == old(self)@,
    {
        if b >= self.bodies.len() {
            return None;
        }
        let removed = self.bodies.remove(b);
        proof {
            assert(self@.bodies =~= old(self)@.left_by(b as int).bodies);
        }
        self.invalidate();
        Some(removed)
    }

    /// Where the body that has the index `b` is found once the body with
    /// index `removed` has left.
    pub fn index_after_removal(b: usize, removed: usize) -> (r: Option<usize>)
        ensures
            match SimModel::index_after_removal(b as int, removed as int) {
                Some(i) => r == Some(i as usize) && i >= 0,
                None => r.is_none(),
            },
    {
        if b == removed {
            None
        } else if b > removed {
            Some(b - 1)
        } else {
            Some(b)
        }
    }

    /// Sets the gravitational constant and invalidates.
    pub fn set_gravitational_const(&mut self, g: Scalar)
        requires
            old(self).wf(),
        ensures
            final(self).wf(),
            final(self)@ == old(self)@.with_gravity(g).invalidated(),
    {
        self.data.gravitational_const = g;
        proof {
            assert(self@.bodies =~= old(self)@.bodies);
        }
        self.invalidate();
    }

    /// Sets the mass of the body with index `b` and invalidates. Where
    /// there is no such body, nothing changes.
    pub fn set_mass(&mut self, b: usize, mass: Mass) -> (r: Option<Warning>)
        requires
            old(self).wf(),
        ensures
            final(self).wf(),
            b < old(self)@.bodies.len() ==> r.is_none() && final(self)@ == old(self)@.edited(
                b as int,
                old(self)@.bodies[b as int].with_mass(mass),
            ).invalidated(),
            b >= old(self)@.bodies.len() ==> r == Some(Warning::NoSuchBody) && final(self)@ == old(self)@,
    {
        if b >= self.bodies.len() {
            return Some(Warning::NoSuchBody);
        }
        self.bodies[b].mass = mass;
        proof {
            let body = old(self)@.bodies[b as int].with_mass(mass);
            assert(self@.bodies =~= old(self)@.edited(b as int, body).bodies);
        }
        self.invalidate();
        None
    }

    /// Puts the body with index `b` at `position`, in its present state and
    /// in the state to draw, and invalidates. Where there is no such body,
    /// nothing changes.
    pub fn set_position(&mut self, b: usize, position: Vec2) -> (r: Option<Warning>)
        requires
            old(self).wf(),
        ensures
            final(self).wf(),
            b < old(self)@.bodies.len() ==> r.is_none() && final(self)@ == old(self)@.edited(
                b as int,
                old(self)@.bodies[b as int].moved_to(position),
            ).invalidated(),
            b >= old(self)@.bodies.len() ==> r == Some(Warning::NoSuchBody) && final(self)@ == old(self)@,
    {
        if b >= self.bodies.len() {
            return Some(Warning::NoSuchBody);
        }
        proof {
            assert(old(self)@.bodies[b as int] == old(self).bodies@[b as int]@);
        }
        match self.bodies[b].trajectory.front_mut() {
            Some(present) => {
                present.position = position;
            },
            None => {},
        }
        self.bodies[b].current.position = position;
        proof {
            let body = old(self)@.bodies[b as int].moved_to(position);
            assert(self@.bodies =~= old(self)@.edited(b as int, body).bodies);
        }
        self.invalidate();
        None
    }

    /// Gives the body with index `b` the velocity `velocity`, in its
    /// present state and in the state to draw, and invalidates. Where there
    /// is no such body, nothing changes.
    pub fn set_velocity(&mut self, b: usize, velocity: Vec2) -> (r: Option<Warning>)
        requires
            old(self).wf(),
        ensures
            final(self).wf(),
            b < old(self)@.bodies.len() ==> r.is_none() && final(self)@ == old(self)@.edited(
                b as int,
                old(self)@.bodies[b as int].launched_at(velocity),
            ).invalidated(),
            b >= old(self)@.bodies.len() ==> r == Some(Warning::NoSuchBody) && final(self)@ == old(self)@,
    {
        if b >= self.bodies.len() {
            return Some(Warning::NoSuchBody);
        }
        proof {
            assert(old(self)@.bodies[b as int] == old(self).bodies@[b as int]@);
        }
        match self.bodies[b].trajectory.front_mut() {
            Some(present) => {
                present.velocity = velocity;
            },
            None => {},
        }
        self.bodies[b].current.velocity = velocity;
        proof {
            let body = old(self)@.bodies[b as int].launched_at(velocity);
            assert(self@.bodies =~= old(self)@.edited(b as int, body).bodies);
        }
        self.invalidate();
        None
    }

    /// Renames the body with index `b`. Names have no part in gravity:
    /// nothing is invalidated. Where there is no such body, nothing
    /// changes.
    pub fn set_name(&mut self, b: usize, name: String) -> (r: Option<Warning>)
        requires
            old(self).wf(),
        ensures
            final(self).wf(),
            b < old(self)@.bodies.len() ==> r.is_none() && final(self)@ == old(self)@.edited(
                b as int,
                old(self)@.bodies[b as int].renamed(name@),
            ),
            b >= old(self)@.bodies.len() ==> r == Some(Warning::NoSuchBody) && final(self)@ == old(self)@,
    {
        if b >= self.bodies.len() {
            return Some(Warning::NoSuchBody);
        }
        self.bodies[b].name = Name(name);
        proof {
            let body = old(self)@.bodies[b as int].renamed(name@);
            lemma_edit_keeps_wf(old(self)@, b as int, body);
            assert(self@.bodies =~= old(self)@.edited(b as int, body).bodies);
        }
        None
    }

    /// Sets the radius of the body with index `b`. The radius has no part
    /// in gravity: nothing is invalidated. Where there is no such body,
    /// nothing changes.
    pub fn set_radius(&mut self, b: usize, radius: Radius) -> (r: Option<Warning>)
        requires
            old(self).wf(),
        ensures
            final(self).wf(),
            b < old(self)@.bodies.len() ==> r.is_none() && final(self)@ == old(self)@.edited(
                b as int,
                old(self)@.bodies[b as int].with_radius(radius),
            ),
            b >= old(self)@.bodies.len() ==> r == Some(Warning::NoSuchBody) && final(self)@ == old(self)@,
    {
        if b >= self.bodies.len() {
            return Some(Warning::NoSuchBody);
        }
        self.bodies[b].radius = radius;
        proof {
            let body = old(self)@.bodies[b as int].with_radius(radius);
            lemma_edit_keeps_wf(old(self)@, b as int, body);
            assert(self@.bodies =~= old(self)@.edited(b as int, body).bodies);
        }
        None
    }

    /// Shows or hides the trajectory of the body with index `b`. Nothing
    /// is invalidated. Where there is no such body, nothing changes.
    pub fn set_trajectory_visibility(&mut self, b: usize, visibility: TrajectoryVisibility) -> (r: Option<
        Warning,
    >)
        requires
            old(self).wf(),
        ensures
            final(self).wf(),
            b < old(self)@.bodies.len() ==> r.is_none() && final(self)@ == old(self)@.edited(
                b as int,
                old(self)@.bodies[b as int].shown(visibility.0),
            ),
            b >= old(self)@.bodies.len() ==> r == Some(Warning::NoSuchBody) && final(self)@ == old(self)@,
    {
        if b >= self.bodies.len() {
            return Some(Warning::NoSuchBody);
        }
        self.bodies[b].trajectory_visibility = visibility;
        proof {
            let body = old(self)@.bodies[b as int].shown(visibility.0);
            lemma_edit_keeps_wf(old(self)@, b as int, body);
            assert(self@.bodies =~= old(self)@.edited(b as int, body).bodies);
        }
        None
    }

    /// Drops every body and starts over with the gravitational constant
    /// `g`: the state in which a scenario is loaded.
    pub fn reset(&mut self, g: Scalar)
        ensures
            final(self).wf(),
            final(self)@ == SimModel::empty(g),
    {
        self.bodies.clear();
        self.data.gravitational_const = g;
        self.data.trajectory_pos = 1;
        proof {
            assert(self@.bodies =~= SimModel::empty(g).bodies);
        }
    }
}

} // verus!
