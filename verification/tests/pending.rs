use aircraft_sim::pending::{PendingOrders, HISTORY_CAPACITY};
use aircraft_sim::plan::FlightPlan;
use aircraft_sim::state::State;

fn order(session: &str, flight: &str, start: u64) -> FlightPlan {
    FlightPlan {
        flight_uuid: flight.to_string(),
        session_id: session.to_string(),
        origin_timeslot_start: start,
        origin_timeslot_end: start + 10,
        target_timeslot_start: start + 20,
        acquire: vec![],
        deliver: vec![],
        path: vec![],
    }
}

fn drain(pending: &mut PendingOrders) -> Vec<String> {
    let mut flights = vec![];
    while let Some(plan) = pending.pop() {
        flights.push(plan.flight_uuid);
    }
    flights
}

fn idle() -> State {
    State::new("craft".to_string(), "scanner".to_string(), 0, 0)
}

#[test]
fn plans_leave_in_the_order_of_their_departure() {
    let mut pending = PendingOrders::new();
    for (session, start) in [("c", 30u64), ("a", 10), ("d", 40), ("b", 20)] {
        pending.insert(order(session, session, start));
    }
    assert_eq!(pending.len(), 4);
    assert_eq!(drain(&mut pending), vec!["a", "b", "c", "d"]);
    assert_eq!(pending.len(), 0);
    assert!(pending.pop().is_none());
    assert!(pending.peek().is_none());
}

#[test]
fn plans_that_depart_together_leave_in_the_order_they_came() {
    let mut pending = PendingOrders::new();
    for session in ["x", "y", "z"] {
        pending.insert(order(session, session, 10));
    }
    pending.insert(order("first", "first", 5));
    assert_eq!(drain(&mut pending), vec!["first", "x", "y", "z"]);
}

#[test]
fn a_new_order_waits_and_is_acknowledged() {
    let mut pending = PendingOrders::new();
    let state = idle();
    assert_eq!(pending.ingest(&state, order("s1", "f1", 10)), Some("f1".to_string()));
    assert!(pending.is_pending(&"s1".to_string()));
    assert!(!pending.is_pending(&"s2".to_string()));
    assert_eq!(pending.find_session(&"s1".to_string()), Some(0));
    assert_eq!(pending.find_session(&"s2".to_string()), None);
    assert_eq!(pending.len(), 1);
}

#[test]
fn an_order_of_the_session_being_flown_is_passed_over() {
    let mut pending = PendingOrders::new();
    let mut state = idle();
    state.current_plan = Some(order("s1", "f1", 10));
    assert_eq!(pending.ingest(&state, order("s1", "f1-again", 10)), None);
    assert_eq!(pending.len(), 0);
    assert_eq!(pending.ingest(&state, order("s2", "f2", 10)), Some("f2".to_string()));
    assert_eq!(pending.len(), 1);
}

#[test]
fn an_order_of_a_session_flown_lately_is_passed_over() {
    let mut pending = PendingOrders::new();
    let state = idle();
    pending.remember("s1".to_string());
    assert_eq!(pending.ingest(&state, order("s1", "f1", 10)), None);
    assert_eq!(pending.len(), 0);
}

#[test]
fn an_order_announced_again_takes_the_place_of_the_one_waiting() {
    let mut pending = PendingOrders::new();
    let state = idle();
    pending.ingest(&state, order("s1", "f1", 10));
    pending.ingest(&state, order("s2", "f2", 20));
    assert_eq!(pending.ingest(&state, order("s1", "f1-new", 30)), Some("f1-new".to_string()));
    assert_eq!(pending.len(), 2);
    assert_eq!(pending.peek().unwrap().flight_uuid, "f2");
    assert_eq!(drain(&mut pending), vec!["f2", "f1-new"]);
}

#[test]
fn orders_are_merged_one_after_the_other() {
    let mut pending = PendingOrders::new();
    let mut state = idle();
    state.current_plan = Some(order("flown", "f0", 0));
    pending.remember("old".to_string());
    let acks = pending.merge(
        &state,
        vec![
            order("s2", "f2", 20),
            order("flown", "f0", 0),
            order("s1", "f1", 10),
            order("old", "f-old", 5),
            order("s2", "f2-new", 1),
        ],
    );
    assert_eq!(acks, vec!["f2", "f1", "f2-new"]);
    assert_eq!(drain(&mut pending), vec!["f2-new", "f1"]);
    assert_eq!(pending.merge(&state, vec![]), Vec::<String>::new());
}

#[test]
fn the_history_never_holds_more_than_its_capacity() {
    assert_eq!(HISTORY_CAPACITY, 10);
    let mut pending = PendingOrders::new();
    for i in 0..25 {
        pending.remember(format!("s{i}"));
        assert!(pending.history_len() <= HISTORY_CAPACITY);
        assert_eq!(pending.history_len(), (i + 1).min(HISTORY_CAPACITY));
    }
}

#[test]
fn the_oldest_session_is_forgotten_first() {
    let mut pending = PendingOrders::new();
    for i in 0..10 {
        pending.remember(format!("s{i}"));
    }
    for i in 0..10 {
        assert!(pending.is_recent(&format!("s{i}")));
    }
    pending.remember("s10".to_string());
    assert!(!pending.is_recent(&"s0".to_string()));
    for i in 1..=10 {
        assert!(pending.is_recent(&format!("s{i}")));
    }
    pending.remember("s11".to_string());
    assert!(!pending.is_recent(&"s1".to_string()));
    assert!(pending.is_recent(&"s2".to_string()));
    assert!(pending.is_recent(&"s11".to_string()));
}
