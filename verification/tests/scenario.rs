use nbody_sim::scenario::{
    check_system_load_state, load_next_sim, recieve_app_events, AppEvent, AppResponse, AppState,
};

const NOTHING: AppResponse = AppResponse { next_state: None, load: None };

#[test]
fn a_request_from_the_main_menu_loads_at_once() {
    let r = recieve_app_events(AppState::MainMenu, &vec![AppEvent::LoadSystem { id: 3 }]);
    assert_eq!(r, AppResponse { next_state: Some(AppState::Loading), load: Some(3) });
}

#[test]
fn a_request_while_simulating_switches_first() {
    let r = recieve_app_events(AppState::Simulating, &vec![AppEvent::LoadSystem { id: 4 }]);
    assert_eq!(
        r,
        AppResponse { next_state: Some(AppState::SwitchSim { next_sim_id: 4 }), load: None }
    );
}

#[test]
fn requests_are_dropped_while_loading_or_switching() {
    let events = vec![AppEvent::LoadSystem { id: 1 }];
    assert_eq!(recieve_app_events(AppState::Loading, &events), NOTHING);
    assert_eq!(recieve_app_events(AppState::SwitchSim { next_sim_id: 9 }, &events), NOTHING);
}

#[test]
fn of_several_requests_the_last_wins() {
    let events = vec![
        AppEvent::LoadSystem { id: 1 },
        AppEvent::ReloadSystem,
        AppEvent::LoadSystem { id: 2 },
        AppEvent::ReloadSystem,
    ];
    assert_eq!(
        recieve_app_events(AppState::MainMenu, &events),
        AppResponse { next_state: Some(AppState::Loading), load: Some(2) }
    );
    assert_eq!(
        recieve_app_events(AppState::Simulating, &events),
        AppResponse { next_state: Some(AppState::SwitchSim { next_sim_id: 2 }), load: None }
    );
}

#[test]
fn a_reload_request_alone_asks_for_nothing() {
    assert_eq!(recieve_app_events(AppState::MainMenu, &vec![AppEvent::ReloadSystem]), NOTHING);
    assert_eq!(recieve_app_events(AppState::Simulating, &vec![AppEvent::ReloadSystem]), NOTHING);
    assert_eq!(recieve_app_events(AppState::MainMenu, &vec![]), NOTHING);
}

#[test]
fn after_a_switch_the_next_scenario_is_loaded() {
    assert_eq!(
        load_next_sim(AppState::SwitchSim { next_sim_id: 7 }),
        AppResponse { next_state: Some(AppState::Loading), load: Some(7) }
    );
    assert_eq!(load_next_sim(AppState::MainMenu), NOTHING);
    assert_eq!(load_next_sim(AppState::Loading), NOTHING);
    assert_eq!(load_next_sim(AppState::Simulating), NOTHING);
}

#[test]
fn loading_ends_when_all_that_was_asked_for_is_there() {
    assert_eq!(check_system_load_state(true, true), Some(AppState::Simulating));
    assert_eq!(check_system_load_state(true, false), None);
    assert_eq!(check_system_load_state(false, true), None);
    assert_eq!(check_system_load_state(false, false), None);
}
