use aircraft_sim::motion::{
    adjust_vertical_velocity, planned_travel, update_location, Sighting, Travel,
    ARRIVAL_RADIUS_NM,
};
use aircraft_sim::plan::{FlightPlan, Leg, PointZ, Waypoint};
use aircraft_sim::state::State;
use geo::{HaversineBearing, HaversineDestination, HaversineDistance, Point};

const METERS_PER_DEGREE_LATITUDE: f64 = 111_320.;

fn ndeg(degrees: f64) -> i64 {
    (degrees * 1e9).round() as i64
}

fn degrees(ndeg: i64) -> f64 {
    ndeg as f64 / 1e9
}

fn nm(meters: f64) -> i64 {
    (meters * 1e9).round() as i64
}

fn um_s(meters_per_second: f64) -> i64 {
    (meters_per_second * 1e6).round() as i64
}

fn measure(from_lon: i64, from_lat: i64, to: &PointZ) -> Leg {
    let p1 = Point::new(degrees(from_lon), degrees(from_lat));
    let p2 = Point::new(degrees(to.longitude_ndeg), degrees(to.latitude_ndeg));
    Leg {
        distance_nm: (p1.haversine_distance(&p2) * 1e9) as u64,
        bearing_ndeg: ndeg(p1.haversine_bearing(p2)),
    }
}

fn no_leg() -> Leg {
    Leg { distance_nm: 0, bearing_ndeg: 0 }
}

fn sight(state: &State, travel: &Travel) -> Sighting {
    let from = Point::new(degrees(travel.longitude_ndeg), degrees(travel.latitude_ndeg));
    let to = from.haversine_destination(
        degrees(travel.bearing_ndeg),
        travel.distance_nm as f64 / 1e9,
    );
    let longitude_ndeg = ndeg(to.x());
    let latitude_ndeg = ndeg(to.y());
    let path = &state.current_plan.as_ref().unwrap().path;
    Sighting {
        longitude_ndeg,
        latitude_ndeg,
        next: path.first().map_or(no_leg(), |w| measure(longitude_ndeg, latitude_ndeg, &w.point)),
        following: path.get(1).map_or(no_leg(), |w| measure(longitude_ndeg, latitude_ndeg, &w.point)),
    }
}

fn point(longitude_ndeg: i64, latitude_ndeg: i64, altitude_nm: i64) -> PointZ {
    PointZ { longitude_ndeg, latitude_ndeg, altitude_nm }
}

fn plan_over(path: Vec<Waypoint>) -> FlightPlan {
    FlightPlan {
        flight_uuid: "flight".to_string(),
        session_id: "AETH1234".to_string(),
        origin_timeslot_start: 0,
        origin_timeslot_end: 0,
        target_timeslot_start: 0,
        acquire: vec![],
        deliver: vec![],
        path,
    }
}

fn flying(path: Vec<Waypoint>) -> State {
    let mut state = State::new("craft".to_string(), "scanner".to_string(), 1000, 2000);
    state.position.altitude_nm = 500;
    state.ground_velocity_um_s = 40;
    state.vertical_velocity_um_s = -3;
    state.track_angle_ndeg = 90_000_000_000;
    state.current_plan = Some(plan_over(path));
    state
}

fn waypoint(longitude_ndeg: i64, latitude_ndeg: i64, altitude_nm: i64) -> Waypoint {
    Waypoint { point: point(longitude_ndeg, latitude_ndeg, altitude_nm), leg: no_leg() }
}

#[test]
fn test_update_location() {
    let mut state = State {
        current_plan: None,
        id: "aircraft".to_string(),
        scanner_id: "scanner".to_string(),
        token: None,
        position: point(ndeg(5.167), ndeg(52.64), nm(10.0)),
        ground_velocity_um_s: um_s(5.0) as u64,
        vertical_velocity_um_s: um_s(5.0),
        track_angle_ndeg: 0,
        last_update_ms: 0,
        last_id_update_ms: 0,
        last_order_check: 0,
        last_tick_ms: 0,
    };

    state.current_plan = Some(plan_over(vec![Waypoint {
        point: point(
            state.position.longitude_ndeg,
            state.position.latitude_ndeg + ndeg(0.01),
            nm(20.0),
        ),
        leg: no_leg(),
    }]));

    let current_ms: u64 = 1_700_000_000_000;
    let original = state.clone();
    let travel = planned_travel(current_ms, current_ms, &state).unwrap();
    let sighting = sight(&state, &travel);
    update_location(current_ms, current_ms, &mut state, &sighting);
    assert!(degrees(state.position.latitude_ndeg) - degrees(original.position.latitude_ndeg) < 0.00000001);
    assert!(degrees(state.position.longitude_ndeg) - degrees(original.position.longitude_ndeg) < 0.00000001);
    assert_eq!(state.position, original.position);

    let duration_s: f64 = 10.;
    let speed = state.ground_velocity_um_s as f64 / 1e6;
    let estimated_latitude_delta = (duration_s * speed) / METERS_PER_DEGREE_LATITUDE;
    let estimated_latitude_delta_ceil = ((duration_s + 0.1) * speed) / METERS_PER_DEGREE_LATITUDE;

    let new_ms = current_ms + (duration_s * 1000.0) as u64;
    let travel = planned_travel(new_ms, current_ms, &state).unwrap();
    assert_eq!(travel.distance_nm, 50_000_000_000);
    let sighting = sight(&state, &travel);
    let arrived = update_location(new_ms, current_ms, &mut state, &sighting);

    // no longitude change
    assert!(degrees(state.position.longitude_ndeg) - degrees(original.position.longitude_ndeg) < 0.00000001);
    assert!(degrees(state.position.latitude_ndeg) - degrees(original.position.latitude_ndeg) > estimated_latitude_delta);
    assert!(degrees(state.position.latitude_ndeg) - degrees(original.position.latitude_ndeg) < estimated_latitude_delta_ceil);
    assert_eq!(state.track_angle_ndeg, 0);
    assert_eq!(state.position.altitude_nm, nm(60.0));
    assert!(!arrived);
    assert_eq!(state.current_plan.as_ref().unwrap().path.len(), 1);
}

#[test]
fn the_flight_of_a_tick_covers_speed_times_time_along_the_track() {
    let state = flying(vec![waypoint(0, 0, 0)]);
    let travel = planned_travel(1250, 1000, &state).unwrap();
    assert_eq!(
        travel,
        Travel {
            longitude_ndeg: 1000,
            latitude_ndeg: 2000,
            bearing_ndeg: 90_000_000_000,
            distance_nm: 40 * 250,
        }
    );
    let from: Point<f64> = Point::new(5.0, 52.0);
    let to: Point<f64> = from.haversine_destination(37.0, 1234.5);
    let distance: f64 = from.haversine_distance(&to);
    let bearing: f64 = from.haversine_bearing(to);
    assert!((distance - 1234.5).abs() < 1e-6);
    assert!((bearing - 37.0).abs() < 1e-6);
}

#[test]
fn a_clock_that_went_back_moves_nothing() {
    let mut state = flying(vec![waypoint(0, 0, 0)]);
    assert_eq!(planned_travel(1000, 1250, &state).unwrap().distance_nm, 0);
    let sighting = Sighting {
        longitude_ndeg: 1000,
        latitude_ndeg: 2000,
        next: Leg { distance_nm: u64::MAX, bearing_ndeg: 0 },
        following: no_leg(),
    };
    update_location(1000, 1250, &mut state, &sighting);
    assert_eq!(state.position, point(1000, 2000, 500));
}

#[test]
fn without_a_plan_the_aircraft_holds_its_position() {
    let mut state = State::new("craft".to_string(), "scanner".to_string(), 1000, 2000);
    state.ground_velocity_um_s = 40;
    state.vertical_velocity_um_s = 7;
    let before = state.clone();
    assert_eq!(planned_travel(2000, 1000, &state), None);
    let sighting = Sighting {
        longitude_ndeg: 5,
        latitude_ndeg: 6,
        next: Leg { distance_nm: 1, bearing_ndeg: 45 },
        following: Leg { distance_nm: 1, bearing_ndeg: 45 },
    };
    assert!(!update_location(2000, 1000, &mut state, &sighting));
    assert_eq!(state, before);
}

#[test]
fn inside_the_radius_the_waypoint_is_reached() {
    let mut state = flying(vec![waypoint(1, 1, 900), waypoint(2, 2, 1500)]);
    let sighting = Sighting {
        longitude_ndeg: 1100,
        latitude_ndeg: 2100,
        next: Leg { distance_nm: ARRIVAL_RADIUS_NM - 1, bearing_ndeg: 0 },
        following: Leg { distance_nm: 4000, bearing_ndeg: -90_000_000_000 },
    };
    assert!(update_location(2000, 1000, &mut state, &sighting));
    let plan = state.current_plan.as_ref().unwrap();
    assert_eq!(plan.path, vec![waypoint(2, 2, 1500)]);
    // 500 nm - 3 um/s * 1000 ms
    assert_eq!(state.position, point(1100, 2100, -2500));
    // (1500 - -2500) nm * 40 um/s / 4000 nm
    assert_eq!(state.vertical_velocity_um_s, 40);
    assert_eq!(state.track_angle_ndeg, 270_000_000_000);
    assert_eq!(state.ground_velocity_um_s, 40);
}

#[test]
fn on_the_radius_the_aircraft_is_still_under_way() {
    let mut state = flying(vec![waypoint(1, 1, 900), waypoint(2, 2, 1500)]);
    let sighting = Sighting {
        longitude_ndeg: 1100,
        latitude_ndeg: 2100,
        next: Leg { distance_nm: ARRIVAL_RADIUS_NM, bearing_ndeg: 0 },
        following: Leg { distance_nm: 4000, bearing_ndeg: -90_000_000_000 },
    };
    assert!(!update_location(2000, 1000, &mut state, &sighting));
    let plan = state.current_plan.as_ref().unwrap();
    assert_eq!(plan.path.len(), 2);
    assert_eq!(state.vertical_velocity_um_s, -3);
    assert_eq!(state.track_angle_ndeg, 90_000_000_000);
    assert_eq!(state.position, point(1100, 2100, -2500));
}

#[test]
fn outside_the_radius_the_route_is_untouched() {
    let mut state = flying(vec![waypoint(1, 1, 900)]);
    let before = state.current_plan.clone();
    let sighting = Sighting {
        longitude_ndeg: 1100,
        latitude_ndeg: 2100,
        next: Leg { distance_nm: ARRIVAL_RADIUS_NM + 1, bearing_ndeg: 0 },
        following: no_leg(),
    };
    assert!(!update_location(2000, 1000, &mut state, &sighting));
    assert_eq!(state.current_plan, before);
}

#[test]
fn the_last_waypoint_leaves_velocity_and_track_alone() {
    let mut state = flying(vec![waypoint(1, 1, 900)]);
    let sighting = Sighting {
        longitude_ndeg: 1100,
        latitude_ndeg: 2100,
        next: Leg { distance_nm: 0, bearing_ndeg: 0 },
        following: Leg { distance_nm: 77, bearing_ndeg: 12 },
    };
    assert!(update_location(2000, 1000, &mut state, &sighting));
    assert!(state.current_plan.as_ref().unwrap().path.is_empty());
    assert!(state.plan_is_complete());
    assert_eq!(state.vertical_velocity_um_s, -3);
    assert_eq!(state.track_angle_ndeg, 90_000_000_000);
}

#[test]
fn a_plan_without_waypoints_still_moves() {
    let mut state = flying(vec![]);
    let sighting = Sighting {
        longitude_ndeg: 1100,
        latitude_ndeg: 2100,
        next: Leg { distance_nm: 0, bearing_ndeg: 0 },
        following: no_leg(),
    };
    assert!(!update_location(2000, 1000, &mut state, &sighting));
    assert_eq!(state.position, point(1100, 2100, -2500));
}

#[test]
fn a_bearing_west_of_north_becomes_a_track_below_a_full_turn() {
    let mut state = flying(vec![waypoint(1, 1, 900)]);
    adjust_vertical_velocity(&mut state, &Leg { distance_nm: 800, bearing_ndeg: -1 });
    assert_eq!(state.track_angle_ndeg, 359_999_999_999);
    // (900 - 500) nm * 40 um/s / 800 nm
    assert_eq!(state.vertical_velocity_um_s, 20);
    adjust_vertical_velocity(&mut state, &Leg { distance_nm: 800, bearing_ndeg: -179_999_999_999 });
    assert_eq!(state.track_angle_ndeg, 180_000_000_001);
    adjust_vertical_velocity(&mut state, &Leg { distance_nm: 800, bearing_ndeg: 180_000_000_000 });
    assert_eq!(state.track_angle_ndeg, 180_000_000_000);
    adjust_vertical_velocity(&mut state, &Leg { distance_nm: 800, bearing_ndeg: i64::MIN });
    assert!(state.track_angle_ndeg >= 0 && state.track_angle_ndeg < 360_000_000_000);
    assert_eq!(state.track_angle_ndeg as i128, (i64::MIN as i128).rem_euclid(360_000_000_000));
}

#[test]
fn the_climb_rate_is_zero_at_rest_and_on_a_leg_of_no_length() {
    let mut state = flying(vec![waypoint(1, 1, 900)]);
    state.ground_velocity_um_s = 0;
    adjust_vertical_velocity(&mut state, &Leg { distance_nm: 800, bearing_ndeg: 0 });
    assert_eq!(state.vertical_velocity_um_s, 0);
    state.ground_velocity_um_s = 40;
    state.vertical_velocity_um_s = 9;
    adjust_vertical_velocity(&mut state, &Leg { distance_nm: 0, bearing_ndeg: 0 });
    assert_eq!(state.vertical_velocity_um_s, 0);
}

#[test]
fn a_descent_rounds_toward_zero() {
    let mut state = flying(vec![waypoint(1, 1, 490)]);
    state.ground_velocity_um_s = 3;
    // (490 - 500) nm * 3 um/s / 4 nm = -7.5 um/s
    adjust_vertical_velocity(&mut state, &Leg { distance_nm: 4, bearing_ndeg: 0 });
    assert_eq!(state.vertical_velocity_um_s, -7);
}

#[test]
fn without_a_waypoint_ahead_nothing_is_adjusted() {
    let mut state = flying(vec![]);
    let before = state.clone();
    adjust_vertical_velocity(&mut state, &Leg { distance_nm: 4, bearing_ndeg: 7 });
    assert_eq!(state, before);
    let mut idle = State::default();
    adjust_vertical_velocity(&mut idle, &Leg { distance_nm: 4, bearing_ndeg: 7 });
    assert_eq!(idle, State::default());
}
