//! A verified engine for the precomputed trajectories of point masses under
//! mutual Newtonian gravity.
//!
//! The engine keeps, for every body, a buffer of future states, fills that
//! buffer up to a fixed horizon, plays it back one step at a time and throws
//! the future away whenever a parameter of the scene is edited.
//!
//! Real numbers are carried as IEEE 754 single-precision bit patterns
//! ([`Scalar`]). Verified code moves them around and never computes on them:
//! the two arithmetic kernels that the integrator needs are handed in by the
//! caller, and every contract speaks of what those kernels return.

pub mod vector;
pub mod trajectory;
pub mod body;
pub mod integrator;
pub mod model;
pub mod sim;
pub mod laws;
pub mod playback;
pub mod scenario;

pub use body::{Body, CelestialBody, Mass, Name, Radius, TrajectoryVisibility};
pub use playback::{ClearTrajectories, SimState};
pub use sim::{SimData, Simulation, Warning};
pub use trajectory::{SimSnapshot, Trajectory, TRAJECTORY_LEN};
pub use vector::{Scalar, Vec2};
