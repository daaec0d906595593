//! Snapshots and the per-body buffer of precomputed states.

use std::collections::VecDeque;
use vstd::prelude::*;
use crate::vector::Vec2;

verus! {

/// The horizon: how many states, the present one included, are kept
/// precomputed for every body.
pub const TRAJECTORY_LEN: usize = 12000;

/// Velocity and position of one body at one discrete time index.
#[derive(Clone, Copy, Debug, PartialEq, Eq, Structural)]
pub struct SimSnapshot {
    pub velocity: Vec2,
    pub position: Vec2,
}

/// The precomputed states of one body, in time order.
///
/// Index 0 is the present; later states are appended at the back and
/// playback consumes from the front.
#[derive(Debug)]
pub struct Trajectory(VecDeque<SimSnapshot>);

impl Clone for Trajectory {
    fn clone(&self) -> (r: Trajectory)
        ensures
            r@ == self@,
    {
        let states = self.0.clone();
        assert(states@ =~= self.0@);
        Trajectory(states)
    }
}

impl View for Trajectory {
    type V = Seq<SimSnapshot>;

    closed spec fn view(&self) -> Seq<SimSnapshot> {
        self.0@
    }
}

impl Trajectory {
    /// A trajectory that holds the initial state and nothing else.
    pub fn new(initial_pos: Vec2, initial_vel: Vec2) -> (r: Trajectory)
        ensures
            r@ == seq![(SimSnapshot { velocity: initial_vel, position: initial_pos })],
    {
        let mut states: VecDeque<SimSnapshot> = VecDeque::new();
        states.push_back(SimSnapshot { velocity: initial_vel, position: initial_pos });
        Trajectory(states)
    }

    /// The number of states held.
    pub fn len(&self) -> (r: usize)
        ensures
            r == self@.len(),
    {
        self.0.len()
    }

    /// Whether no state is held.
    pub fn is_empty(&self) -> (r: bool)
        ensures
            r == (self@.len() == 0),
    {
        self.0.len() == 0
    }

    /// The present state, if there is one.
    pub fn front(&self) -> (r: Option<SimSnapshot>)
        ensures
            r == (if self@.len() > 0 { Some(self@[0]) } else { None }),
    {
        if self.0.len() > 0 {
            Some(self.0[0])
        } else {
            None
        }
    }

    /// The state at time index `i`, if it has been computed.
    pub fn get(&self, i: usize) -> (r: Option<SimSnapshot>)
        ensures
            r == (if i < self@.len() { Some(self@[i as int]) } else { None }),
    {
        if i < self.0.len() {
            Some(self.0[i])
        } else {
            None
        }
    }

    /// The positions of all states held, in time order: the path to draw.
    pub fn positions(&self) -> (r: Vec<Vec2>)
        ensures
            r@.len() == self@.len(),
            forall|i: int| 0 <= i < self@.len() ==> r@[i] == self@[i].position,
    {
        let n = self.0.len();
        let mut path: Vec<Vec2> = Vec::with_capacity(n);
        let mut i: usize = 0;
        while i < n
            invariant
                i <= n,
                n == self.0@.len(),
                path@.len() == i,
                forall|k: int| 0 <= k < i ==> path@[k] == self.0@[k].position,
            decreases n - i,
        {
            path.push(self.0[i].position);
            i += 1;
        }
        path
    }

    /// Removes the present state and hands it out; the state that followed
    /// it becomes the present.
    pub fn pop_front(&mut self) -> (r: Option<SimSnapshot>)
        ensures
            old(self)@.len() == 0 ==> r.is_none() && final(self)@ == old(self)@,
            old(self)@.len() > 0 ==> r == Some(old(self)@[0]) && final(self)@ == old(self)@.skip(1),
    {
        self.0.pop_front()
    }

    /// Appends `item` as the state that follows the last one held.
    pub fn push_back(&mut self, item: SimSnapshot)
        ensures
            final(self)@ == old(self)@.push(item),
    {
        self.0.push_back(item)
    }

    /// Forgets every state but the present one.
    ///
    /// An empty trajectory stays empty.
    pub fn keep_front(&mut self)
        ensures
            old(self)@.len() == 0 ==> final(self)@ == old(self)@,
            old(self)@.len() > 0 ==> final(self)@ == seq![old(self)@[0]],
    {
        if self.0.len() > 0 {
            let current = self.0[0];
            self.0.clear();
            self.0.push_back(current);
        }
    }

    /// The present state, open to change, if there is one.
    pub fn front_mut(&mut self) -> (r: Option<&mut SimSnapshot>)
        ensures
            old(self)@.len() == 0 ==> r.is_none() && final(self)@ == old(self)@,
            old(self)@.len() > 0 ==> r.is_some() && *r.unwrap() == old(self)@[0]
                && final(self)@ == old(self)@.update(0, *final(r.unwrap())),
    {
        deque_front_mut(&mut self.0)
    }
}

/// `VecDeque::front_mut`: the first element, borrowed for change; `None` on
/// an empty queue. Whatever the borrower leaves in that element is the
/// queue's first element afterwards, and no other element changes.
#[verifier::external_body]
fn deque_front_mut(v: &mut VecDeque<SimSnapshot>) -> (r: Option<&mut SimSnapshot>)
    ensures
        old(v)@.len() == 0 ==> r.is_none() && final(v)@ == old(v)@,
        old(v)@.len() > 0 ==> r.is_some() && *r.unwrap() == old(v)@[0]
            && final(v)@ == old(v)@.update(0, *final(r.unwrap())),
{
    v.front_mut()
}

} // verus!
