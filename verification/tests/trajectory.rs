use nbody_sim::trajectory::{SimSnapshot, Trajectory};
use nbody_sim::vector::{Scalar, Vec2};

fn vec2(x: f32, y: f32) -> Vec2 {
    Vec2::new(Scalar::from_bits(x.to_bits()), Scalar::from_bits(y.to_bits()))
}

fn snap(n: f32) -> SimSnapshot {
    SimSnapshot { velocity: vec2(n, -n), position: vec2(n * 10.0, n * 100.0) }
}

fn filled(n: usize) -> Trajectory {
    let first = snap(0.0);
    let mut t = Trajectory::new(first.position, first.velocity);
    for i in 1..n {
        t.push_back(snap(i as f32));
    }
    t
}

#[test]
fn new_holds_the_initial_state() {
    let t = Trajectory::new(vec2(1.0, 2.0), vec2(3.0, 4.0));
    assert_eq!(t.len(), 1);
    assert!(!t.is_empty());
    assert_eq!(t.front(), Some(SimSnapshot { velocity: vec2(3.0, 4.0), position: vec2(1.0, 2.0) }));
    assert_eq!(t.get(0), t.front());
    assert_eq!(t.get(1), None);
}

#[test]
fn push_back_appends_in_time_order() {
    let t = filled(4);
    assert_eq!(t.len(), 4);
    for i in 0..4 {
        assert_eq!(t.get(i), Some(snap(i as f32)));
    }
    assert_eq!(t.get(4), None);
    assert_eq!(t.positions(), vec![vec2(0.0, 0.0), vec2(10.0, 100.0), vec2(20.0, 200.0), vec2(30.0, 300.0)]);
}

#[test]
fn pop_front_consumes_the_present() {
    let mut t = filled(3);
    assert_eq!(t.pop_front(), Some(snap(0.0)));
    assert_eq!(t.len(), 2);
    assert_eq!(t.front(), Some(snap(1.0)));
    assert_eq!(t.pop_front(), Some(snap(1.0)));
    assert_eq!(t.pop_front(), Some(snap(2.0)));
    assert!(t.is_empty());
    assert_eq!(t.front(), None);
    assert_eq!(t.pop_front(), None);
    assert_eq!(t.len(), 0);
}

#[test]
fn front_mut_changes_the_present_only() {
    let mut t = filled(3);
    match t.front_mut() {
        Some(present) => {
            present.position = vec2(-1.0, -2.0);
        }
        None => panic!("a filled trajectory has a present state"),
    }
    assert_eq!(t.len(), 3);
    assert_eq!(t.get(0), Some(SimSnapshot { velocity: vec2(0.0, -0.0), position: vec2(-1.0, -2.0) }));
    assert_eq!(t.get(1), Some(snap(1.0)));
    assert_eq!(t.get(2), Some(snap(2.0)));
    t.pop_front();
    t.pop_front();
    t.pop_front();
    assert!(t.front_mut().is_none());
}

#[test]
fn keep_front_forgets_the_future() {
    let mut t = filled(5);
    t.pop_front();
    t.keep_front();
    assert_eq!(t.len(), 1);
    assert_eq!(t.front(), Some(snap(1.0)));
    t.keep_front();
    assert_eq!(t.len(), 1);
    assert_eq!(t.front(), Some(snap(1.0)));
    t.pop_front();
    t.keep_front();
    assert!(t.is_empty());
}

#[test]
fn clone_holds_the_same_states() {
    let t = filled(4);
    let mut copy = t.clone();
    assert_eq!(copy.len(), 4);
    for i in 0..4 {
        assert_eq!(copy.get(i), t.get(i));
    }
    copy.pop_front();
    assert_eq!(t.len(), 4);
    assert_eq!(copy.len(), 3);
}
