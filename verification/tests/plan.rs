use aircraft_sim::config::Config;
use aircraft_sim::plan::{FlightPlan, Leg, PointZ, Waypoint};
use aircraft_sim::state::State;

fn stop(n: i64, distance_nm: u64) -> Waypoint {
    Waypoint {
        point: PointZ { longitude_ndeg: n, latitude_ndeg: n, altitude_nm: n },
        leg: Leg { distance_nm, bearing_ndeg: 0 },
    }
}

fn plan(path: Vec<Waypoint>) -> FlightPlan {
    FlightPlan {
        flight_uuid: "f".to_string(),
        session_id: "s".to_string(),
        origin_timeslot_start: 10,
        origin_timeslot_end: 20,
        target_timeslot_start: 30,
        acquire: vec![],
        deliver: vec![],
        path,
    }
}

#[test]
fn the_route_length_adds_up_the_legs_between_the_waypoints() {
    assert_eq!(plan(vec![]).route_length_nm(), 0);
    assert_eq!(plan(vec![stop(1, 77)]).route_length_nm(), 0);
    assert_eq!(plan(vec![stop(1, 77), stop(2, 5)]).route_length_nm(), 5);
    assert_eq!(plan(vec![stop(1, 77), stop(2, 5), stop(3, 6), stop(4, 7)]).route_length_nm(), 18);
    assert_eq!(
        plan(vec![stop(1, 0), stop(2, u64::MAX), stop(3, u64::MAX)]).route_length_nm(),
        2 * (u64::MAX as u128)
    );
}

#[test]
fn waypoints_leave_the_route_at_the_front() {
    let mut flown = plan(vec![stop(1, 0), stop(2, 5), stop(3, 6)]);
    assert!(!flown.is_complete());
    assert_eq!(flown.next_waypoint(), Some(stop(1, 0)));
    assert_eq!(flown.arrive(), Some(stop(1, 0)));
    assert_eq!(flown.path, vec![stop(2, 5), stop(3, 6)]);
    assert_eq!(flown.arrive(), Some(stop(2, 5)));
    assert_eq!(flown.arrive(), Some(stop(3, 6)));
    assert!(flown.is_complete());
    assert_eq!(flown.next_waypoint(), None);
    assert_eq!(flown.arrive(), None);
    assert_eq!(flown, plan(vec![]));
}

#[test]
fn a_plan_is_due_once_its_departure_window_has_closed() {
    let waiting = plan(vec![]);
    assert!(!waiting.is_due(19));
    assert!(waiting.is_due(20));
    assert!(waiting.is_due(21));
}

#[test]
fn a_new_aircraft_rests_without_plan_or_token() {
    let state = State::new("craft".to_string(), "scanner".to_string(), 5, 6);
    assert_eq!(state.id, "craft");
    assert_eq!(state.scanner_id, "scanner");
    assert_eq!(state.position, PointZ { longitude_ndeg: 5, latitude_ndeg: 6, altitude_nm: 0 });
    assert_eq!(state.current_plan, None);
    assert_eq!(state.token, None);
    assert_eq!(state.ground_velocity_um_s, 0);
    assert_eq!(state.vertical_velocity_um_s, 0);
    assert_eq!(state.track_angle_ndeg, 0);
    assert!(!state.plan_is_complete());
    assert_eq!(State::default(), State::new(String::new(), String::new(), 0, 0));
    assert_eq!(State::default().last_tick_ms, 0);
}

#[test]
fn a_plan_is_complete_when_no_waypoint_is_left() {
    let mut state = State::default();
    state.current_plan = Some(plan(vec![stop(1, 0)]));
    assert!(!state.plan_is_complete());
    state.current_plan = Some(plan(vec![]));
    assert!(state.plan_is_complete());
}

#[test]
fn the_configuration_names_host_and_ports() {
    let config = Config {
        host: "http://localhost".to_string(),
        cargo_host_port_rest: 8002,
        atc_host_port_rest: 8001,
        telemetry_host_port_rest: 8000,
    };
    let copy = config.clone();
    assert_eq!(copy.host, "http://localhost");
    assert_eq!(copy.cargo_host_port_rest, 8002);
    assert_eq!(copy.atc_host_port_rest, 8001);
    assert_eq!(copy.telemetry_host_port_rest, 8000);
}
