use nbody_sim::body::{Body, Mass};
use nbody_sim::playback::{
    due, handle_input, step_taken, ClearTrajectories, InputResponse, SimState, Tick,
};
use nbody_sim::sim::{Simulation, Warning};
use nbody_sim::trajectory::{SimSnapshot, TRAJECTORY_LEN};
use nbody_sim::vector::{Scalar, Vec2};

fn num(s: Scalar) -> f32 {
    f32::from_bits(s.to_bits())
}

fn scalar(x: f32) -> Scalar {
    Scalar::from_bits(x.to_bits())
}

fn vec2(x: f32, y: f32) -> Vec2 {
    Vec2::new(scalar(x), scalar(y))
}

fn attract(acc: Vec2, g: Scalar, mass: Mass, from: Vec2, to: Vec2) -> Vec2 {
    let dx = num(to.x) - num(from.x);
    let dy = num(to.y) - num(from.y);
    let sqr_dist = dx * dx + dy * dy;
    let len = sqr_dist.sqrt();
    vec2(
        num(acc.x) + dx / len * num(g) * num(mass.0) / sqr_dist,
        num(acc.y) + dy / len * num(g) * num(mass.0) / sqr_dist,
    )
}

fn drift(base: Vec2, rate: Vec2, dt: Scalar) -> Vec2 {
    vec2(num(base.x) + num(rate.x) * num(dt), num(base.y) + num(rate.y) * num(dt))
}

fn pair() -> Simulation {
    let mut sim = Simulation::new();
    sim.spawn(&Body {
        initial_pos: vec2(0.0, 0.0),
        velocity: vec2(0.0, 1.0),
        mass: scalar(10.0),
        radius: scalar(1.0),
        name: "a".to_string(),
    });
    sim.spawn(&Body {
        initial_pos: vec2(10.0, 0.0),
        velocity: vec2(0.0, -1.0),
        mass: scalar(20.0),
        radius: scalar(1.0),
        name: "b".to_string(),
    });
    sim
}

fn state(sim: &Simulation, b: usize, i: usize) -> SimSnapshot {
    sim.body(b).unwrap().trajectory.get(i).unwrap()
}

#[test]
fn playback_starts_paused() {
    assert_eq!(SimState::initial(), SimState::Paused);
}

#[test]
fn the_toggle_key_pauses_and_resumes() {
    assert_eq!(SimState::Playing.toggled(), SimState::Paused);
    assert_eq!(SimState::Paused.toggled(), SimState::Playing);
    assert_eq!(SimState::Step.toggled(), SimState::Step);
}

#[test]
fn the_play_pause_button_pauses_and_resumes() {
    assert_eq!(SimState::Playing.play_pause(), SimState::Paused);
    assert_eq!(SimState::Paused.play_pause(), SimState::Playing);
    assert_eq!(SimState::Step.play_pause(), SimState::Step);
}

#[test]
fn the_step_button_asks_for_one_step() {
    assert_eq!(SimState::Playing.step(), SimState::Step);
    assert_eq!(SimState::Paused.step(), SimState::Step);
    assert_eq!(SimState::Step.step(), SimState::Step);
}

#[test]
fn playing_and_stepping_move_the_cursor() {
    assert!(SimState::Playing.advances());
    assert!(SimState::Step.advances());
    assert!(!SimState::Paused.advances());
}

#[test]
fn a_step_settles_into_a_pause() {
    assert_eq!(SimState::Step.settled(), SimState::Paused);
    assert_eq!(SimState::Playing.settled(), SimState::Playing);
    assert_eq!(SimState::Paused.settled(), SimState::Paused);
}

#[test]
fn handle_input_reads_both_keys() {
    assert_eq!(
        handle_input(SimState::Paused, false, false),
        InputResponse { advance_now: false, next_state: None }
    );
    assert_eq!(
        handle_input(SimState::Paused, true, false),
        InputResponse { advance_now: true, next_state: None }
    );
    assert_eq!(
        handle_input(SimState::Paused, false, true),
        InputResponse { advance_now: false, next_state: Some(SimState::Playing) }
    );
    assert_eq!(
        handle_input(SimState::Playing, true, true),
        InputResponse { advance_now: true, next_state: Some(SimState::Paused) }
    );
    assert_eq!(
        handle_input(SimState::Step, false, true),
        InputResponse { advance_now: false, next_state: None }
    );
    assert_eq!(
        handle_input(SimState::Step, true, true),
        InputResponse { advance_now: true, next_state: None }
    );
}

#[test]
fn a_step_that_was_taken_is_due_as_a_pause() {
    assert_eq!(due(SimState::Step, true), SimState::Paused);
    assert_eq!(due(SimState::Step, false), SimState::Step);
    assert_eq!(due(SimState::Playing, true), SimState::Playing);
    assert_eq!(due(SimState::Playing, false), SimState::Playing);
    assert_eq!(due(SimState::Paused, true), SimState::Paused);
    assert_eq!(due(SimState::Paused, false), SimState::Paused);
}

#[test]
fn clear_trajectories_on_change_invalidates_if_there_is_a_notice() {
    let mut sim = pair();
    sim.precompute(&attract, &drift);
    sim.clear_trajectories_on_change(&vec![]);
    assert_eq!(sim.data().trajectory_pos(), TRAJECTORY_LEN);
    sim.clear_trajectories_on_change(&vec![ClearTrajectories, ClearTrajectories]);
    assert_eq!(sim.data().trajectory_pos(), 1);
    assert_eq!(sim.body(0).unwrap().trajectory.len(), 1);
    assert_eq!(sim.body(1).unwrap().trajectory.len(), 1);
}

#[test]
fn a_paused_tick_fills_the_horizon_and_stays() {
    let mut sim = pair();
    let present = state(&sim, 0, 0);
    let tick = sim.tick(SimState::Paused, &vec![], &attract, &drift);
    assert_eq!(tick, Tick { state: SimState::Paused, simulate: None, update: None });
    assert_eq!(sim.data().trajectory_pos(), TRAJECTORY_LEN);
    assert_eq!(state(&sim, 0, 0), present);
}

#[test]
fn a_playing_tick_fills_the_horizon_and_moves_on() {
    let mut sim = pair();
    let mut reference = pair();
    reference.precompute(&attract, &drift);
    let tick = sim.tick(SimState::Playing, &vec![], &attract, &drift);
    assert_eq!(tick, Tick { state: SimState::Playing, simulate: None, update: None });
    assert_eq!(sim.data().trajectory_pos(), TRAJECTORY_LEN - 1);
    assert_eq!(sim.body(0).unwrap().current, state(&reference, 0, 0));
    assert_eq!(state(&sim, 0, 0), state(&reference, 0, 1));
    assert_eq!(state(&sim, 1, 0), state(&reference, 1, 1));
    let tick = sim.tick(SimState::Playing, &vec![], &attract, &drift);
    assert_eq!(tick.state, SimState::Playing);
    assert_eq!(sim.data().trajectory_pos(), TRAJECTORY_LEN - 1);
    assert_eq!(state(&sim, 0, 0), state(&reference, 0, 2));
}

#[test]
fn a_step_tick_moves_once_and_pauses() {
    let mut sim = pair();
    let mut reference = pair();
    reference.precompute(&attract, &drift);
    let tick = sim.tick(SimState::Step, &vec![], &attract, &drift);
    assert_eq!(tick, Tick { state: SimState::Paused, simulate: None, update: None });
    assert_eq!(state(&sim, 0, 0), state(&reference, 0, 1));
    let tick = sim.tick(tick.state, &vec![], &attract, &drift);
    assert_eq!(tick.state, SimState::Paused);
    assert_eq!(state(&sim, 0, 0), state(&reference, 0, 1));
    assert_eq!(sim.data().trajectory_pos(), TRAJECTORY_LEN);
}

#[test]
fn a_tick_invalidates_before_it_precomputes() {
    let mut sim = pair();
    sim.precompute(&attract, &drift);
    let stale = state(&sim, 0, 1);
    let calls = std::cell::Cell::new(0usize);
    let counting = |base: Vec2, rate: Vec2, dt: Scalar| -> Vec2 {
        calls.set(calls.get() + 1);
        drift(base, rate, dt)
    };
    let tick = sim.tick(SimState::Paused, &vec![ClearTrajectories], &attract, &counting);
    assert_eq!(tick.simulate, None);
    assert_eq!(calls.get(), 2 * 2 * (TRAJECTORY_LEN - 1));
    assert_eq!(sim.data().trajectory_pos(), TRAJECTORY_LEN);
    assert_eq!(state(&sim, 0, 1), stale);
}

#[test]
fn a_tick_on_no_bodies_warns_and_does_nothing() {
    let mut sim = Simulation::new();
    let tick = sim.tick(SimState::Playing, &vec![ClearTrajectories], &attract, &drift);
    assert_eq!(tick.state, SimState::Playing);
    assert_eq!(tick.simulate, Some(Warning::NothingToSimulate));
    assert_eq!(tick.update, Some(Warning::NothingToUpdate));
    assert_eq!(sim.len(), 0);
    assert_eq!(sim.data().trajectory_pos(), 1);
    let tick = sim.tick(SimState::Paused, &vec![], &attract, &drift);
    assert_eq!(tick.simulate, Some(Warning::NothingToSimulate));
    assert_eq!(tick.update, None);
}

#[test]
fn only_a_tick_entered_for_a_step_takes_it() {
    assert!(step_taken(SimState::Step));
    assert!(!step_taken(SimState::Playing));
    assert!(!step_taken(SimState::Paused));
}

#[test]
fn a_tick_on_empty_trajectories_waits_for_an_edit() {
    let mut sim = pair();
    sim.advance();
    assert_eq!(sim.data().trajectory_pos(), 0);
    let drawn = sim.body(0).unwrap().current;
    let tick = sim.tick(SimState::Playing, &vec![], &attract, &drift);
    assert_eq!(
        tick,
        Tick {
            state: SimState::Playing,
            simulate: Some(Warning::EmptyTrajectory),
            update: Some(Warning::EmptyTrajectory),
        }
    );
    assert_eq!(sim.data().trajectory_pos(), 0);
    let tick = sim.tick(SimState::Paused, &vec![], &attract, &drift);
    assert_eq!(tick.simulate, Some(Warning::EmptyTrajectory));
    assert_eq!(tick.update, None);
    let tick = sim.tick(SimState::Playing, &vec![ClearTrajectories], &attract, &drift);
    assert_eq!(tick, Tick { state: SimState::Playing, simulate: None, update: None });
    assert_eq!(sim.data().trajectory_pos(), TRAJECTORY_LEN - 1);
    assert_eq!(sim.body(0).unwrap().current, drawn);
}
