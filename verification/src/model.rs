//! The simulation as the contracts see it.

use vstd::prelude::*;
use crate::body::{Body, BodyModel, Mass};
use crate::integrator::stepped;
use crate::trajectory::{SimSnapshot, TRAJECTORY_LEN};
use crate::vector::{Scalar, Vec2};

verus! {

/// The state of a simulation: its parameters and its bodies.
pub struct SimModel {
    pub gravitational_const: Scalar,
    /// How many time indices, counted from the present, are computed for
    /// every body.
    pub trajectory_pos: int,
    pub bodies: Seq<BodyModel>,
}

impl SimModel {
    /// The cursor does not lie beyond the horizon, and every body holds
    /// exactly as many states as the cursor says. The cursor is zero, and
    /// every trajectory empty, once playback has consumed all that was
    /// computed.
    pub open spec fn wf(self) -> bool {
        &&& 0 <= self.trajectory_pos <= TRAJECTORY_LEN
        &&& forall|b: int|
            0 <= b < self.bodies.len() ==> (#[trigger] self.bodies[b]).trajectory.len()
                == self.trajectory_pos
    }

    /// The masses of the bodies, in body order.
    pub open spec fn masses(self) -> Seq<Mass> {
        Seq::new(self.bodies.len(), |b: int| self.bodies[b].mass)
    }

    /// The states of all bodies at time index `i`, in body order.
    pub open spec fn states_at(self, i: int) -> Seq<SimSnapshot> {
        Seq::new(self.bodies.len(), |b: int| self.bodies[b].trajectory[i])
    }

    /// The simulation with `body` in the place of the body with index `b`.
    pub open spec fn edited(self, b: int, body: BodyModel) -> SimModel {
        SimModel { bodies: self.bodies.update(b, body), ..self }
    }

    /// The simulation with `body` added behind the other bodies.
    pub open spec fn joined_by(self, body: BodyModel) -> SimModel {
        SimModel { bodies: self.bodies.push(body), ..self }
    }

    /// The simulation after the bodies that `bodies` describes have
    /// arrived, one after the other: each is added behind the bodies that
    /// are there, and each arrival invalidates.
    pub open spec fn joined_by_all(self, bodies: Seq<Body>) -> SimModel
        decreases bodies.len(),
    {
        if bodies.len() == 0 {
            self
        } else {
            self.joined_by_all(bodies.drop_last()).joined_by(BodyModel::spawned(bodies.last())).invalidated()
        }
    }

    /// The simulation without the body with index `b`; the bodies behind
    /// it move up by one.
    pub open spec fn left_by(self, b: int) -> SimModel {
        SimModel { bodies: self.bodies.remove(b), ..self }
    }

    /// Where the body that has the index `b` is found once the body with
    /// index `removed` has left: nowhere if it is that body, one place
    /// further up if it stood behind it, and where it was otherwise.
    pub open spec fn index_after_removal(b: int, removed: int) -> Option<int> {
        if b == removed {
            None
        } else if b > removed {
            Some(b - 1)
        } else {
            Some(b)
        }
    }

    /// The simulation with the gravitational constant `g`.
    pub open spec fn with_gravity(self, g: Scalar) -> SimModel {
        SimModel { gravitational_const: g, ..self }
    }

    /// A simulation of no bodies with the gravitational constant `g`.
    pub open spec fn empty(g: Scalar) -> SimModel {
        SimModel { gravitational_const: g, trajectory_pos: 1, bodies: Seq::empty() }
    }

    /// The simulation with its future thrown away: every body keeps its
    /// present state alone and the cursor is back at one.
    pub open spec fn invalidated(self) -> SimModel {
        SimModel {
            gravitational_const: self.gravitational_const,
            trajectory_pos: 1,
            bodies: Seq::new(self.bodies.len(), |b: int| self.bodies[b].invalidated()),
        }
    }

    /// Whether the simulation is drained: there are bodies, and playback
    /// has consumed every state that was computed for them.
    pub open spec fn drained(self) -> bool {
        self.bodies.len() > 0 && self.trajectory_pos == 0
    }

    /// Whether playback can consume a state: there is a body, and no
    /// trajectory is empty.
    pub open spec fn can_advance(self) -> bool {
        &&& self.bodies.len() > 0
        &&& forall|b: int| 0 <= b < self.bodies.len() ==> (#[trigger] self.bodies[b]).trajectory.len() > 0
    }

    /// The simulation after one step of playback: every body has handed
    /// out the first state of its trajectory, the last one too, and the
    /// cursor is one lower. Where playback cannot consume a state, nothing
    /// changes.
    pub open spec fn advanced(self) -> SimModel {
        if self.can_advance() {
            SimModel {
                gravitational_const: self.gravitational_const,
                trajectory_pos: self.trajectory_pos - 1,
                bodies: Seq::new(self.bodies.len(), |b: int| self.bodies[b].advanced()),
            }
        } else {
            self
        }
    }

    /// The simulation after `n` steps of playback in a row.
    pub open spec fn advanced_by(self, n: nat) -> SimModel
        decreases n,
    {
        if n == 0 {
            self
        } else {
            self.advanced_by((n - 1) as nat).advanced()
        }
    }

    /// Whether `later` is this simulation with its trajectories extended by
    /// the integrator: nothing else differs, and every state from the old
    /// cursor on is a step from the states that all bodies of `later` have
    /// one time index before.
    pub open spec fn extends_to<
        A: Fn(Vec2, Scalar, Mass, Vec2, Vec2) -> Vec2,
        D: Fn(Vec2, Vec2, Scalar) -> Vec2,
    >(self, later: SimModel, attract: A, drift: D) -> bool {
        &&& later.gravitational_const == self.gravitational_const
        &&& later.bodies.len() == self.bodies.len()
        &&& self.trajectory_pos <= later.trajectory_pos
        &&& forall|b: int|
            0 <= b < self.bodies.len() ==> {
                &&& (#[trigger] self.bodies[b]).same_up_to(later.bodies[b], self.trajectory_pos)
                &&& later.bodies[b].trajectory.len() == later.trajectory_pos
            }
        &&& forall|b: int, i: int|
            0 <= b < self.bodies.len() && self.trajectory_pos <= i < later.trajectory_pos
                ==> stepped(
                attract,
                drift,
                self.gravitational_const,
                self.masses(),
                later.states_at(i - 1),
                b,
                #[trigger] later.bodies[b].trajectory[i],
            )
    }

    /// Whether `later` is what precomputation makes of this simulation:
    /// with no body, or with no state left to start from, nothing changes,
    /// and otherwise the trajectories are extended up to the horizon.
    pub open spec fn precomputes_to<
        A: Fn(Vec2, Scalar, Mass, Vec2, Vec2) -> Vec2,
        D: Fn(Vec2, Vec2, Scalar) -> Vec2,
    >(self, later: SimModel, attract: A, drift: D) -> bool {
        if self.bodies.len() == 0 || self.trajectory_pos == 0 {
            later == self
        } else {
            self.extends_to(later, attract, drift) && later.trajectory_pos == TRAJECTORY_LEN
        }
    }

    /// What precomputation makes of this simulation. With kernels that
    /// give one result for one input there is one such simulation, and
    /// this is it.
    pub open spec fn precomputed<
        A: Fn(Vec2, Scalar, Mass, Vec2, Vec2) -> Vec2,
        D: Fn(Vec2, Vec2, Scalar) -> Vec2,
    >(self, attract: A, drift: D) -> SimModel {
        choose|later: SimModel| self.precomputes_to(later, attract, drift)
    }
}

/// A well-formed simulation extends to itself: no step is needed.
pub proof fn lemma_extends_refl<
    A: Fn(Vec2, Scalar, Mass, Vec2, Vec2) -> Vec2,
    D: Fn(Vec2, Vec2, Scalar) -> Vec2,
>(s: SimModel, attract: A, drift: D)
    requires
        s.wf(),
    ensures
        s.extends_to(s, attract, drift),
{
}

/// Extending twice is extending once: the steps of both stretches are steps
/// of the whole.
pub proof fn lemma_extends_trans<
    A: Fn(Vec2, Scalar, Mass, Vec2, Vec2) -> Vec2,
    D: Fn(Vec2, Vec2, Scalar) -> Vec2,
>(a: SimModel, b: SimModel, c: SimModel, attract: A, drift: D)
    requires
        1 <= a.trajectory_pos,
        a.extends_to(b, attract, drift),
        b.extends_to(c, attract, drift),
    ensures
        a.extends_to(c, attract, drift),
{
    assert(a.masses() =~= b.masses()) by {
        assert forall|k: int| 0 <= k < a.bodies.len() implies a.bodies[k].mass == b.bodies[k].mass by {
            assert(a.bodies[k].same_up_to(b.bodies[k], a.trajectory_pos));
        }
    }
    assert forall|k: int, i: int| 0 <= k < b.bodies.len() && 0 <= i < b.trajectory_pos implies c.bodies[k].trajectory[i]
        == b.bodies[k].trajectory[i] by {
        assert(b.bodies[k].same_up_to(c.bodies[k], b.trajectory_pos));
    }
    assert forall|k: int| 0 <= k < a.bodies.len() implies {
        &&& (#[trigger] a.bodies[k]).same_up_to(c.bodies[k], a.trajectory_pos)
        &&& c.bodies[k].trajectory.len() == c.trajectory_pos
    } by {
        assert(a.bodies[k].same_up_to(b.bodies[k], a.trajectory_pos));
        assert(b.bodies[k].same_up_to(c.bodies[k], b.trajectory_pos));
        assert forall|i: int| 0 <= i < a.trajectory_pos implies #[trigger] c.bodies[k].trajectory[i]
            == a.bodies[k].trajectory[i] by {
            assert(b.bodies[k].trajectory[i] == a.bodies[k].trajectory[i]);
        }
    }
    assert forall|k: int, i: int|
        0 <= k < a.bodies.len() && a.trajectory_pos <= i < c.trajectory_pos implies stepped(
        attract,
        drift,
        a.gravitational_const,
        a.masses(),
        c.states_at(i - 1),
        k,
        #[trigger] c.bodies[k].trajectory[i],
    ) by {
        if i < b.trajectory_pos {
            assert(c.states_at(i - 1) =~= b.states_at(i - 1));
            assert(stepped(
                attract,
                drift,
                a.gravitational_const,
                a.masses(),
                b.states_at(i - 1),
                k,
                b.bodies[k].trajectory[i],
            ));
        }
    }
}

/// An edit of one body that leaves the number of its states as it was
/// keeps the invariant, and with it a present state for every body.
pub proof fn lemma_edit_keeps_wf(s: SimModel, b: int, body: BodyModel)
    requires
        s.wf(),
        0 <= b < s.bodies.len(),
        body.trajectory.len() == s.bodies[b].trajectory.len(),
    ensures
        s.edited(b, body).wf(),
        s.edited(b, body).bodies.len() == s.bodies.len(),
{
    let edited = s.edited(b, body);
    assert forall|c: int| 0 <= c < edited.bodies.len() implies (#[trigger] edited.bodies[c]).trajectory.len()
        == edited.trajectory_pos by {
        assert(s.bodies[c].trajectory.len() == s.trajectory_pos);
    }
}

/// An extension that ends where it starts changes nothing.
pub proof fn lemma_full_extension_is_identity<
    A: Fn(Vec2, Scalar, Mass, Vec2, Vec2) -> Vec2,
    D: Fn(Vec2, Vec2, Scalar) -> Vec2,
>(s: SimModel, t: SimModel, attract: A, drift: D)
    requires
        s.wf(),
        s.extends_to(t, attract, drift),
        t.trajectory_pos == s.trajectory_pos,
    ensures
        t == s,
{
    assert forall|b: int| 0 <= b < s.bodies.len() implies t.bodies[b] == s.bodies[b] by {
        assert(s.bodies[b].same_up_to(t.bodies[b], s.trajectory_pos));
        assert(t.bodies[b].trajectory =~= s.bodies[b].trajectory);
    }
    assert(t.bodies =~= s.bodies);
}

} // verus!
