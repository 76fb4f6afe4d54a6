use aircraft_sim::plan::FlightPlan;
use aircraft_sim::state::State;
use aircraft_sim::telemetry::{
    identity, operational_status, report_reply, strip_quotes, token_from_reply,
    track_direction_deg, uas_id_bytes, IdKind, Identity, NetworkError, OperationalStatus,
};

#[test]
fn the_token_is_the_body_without_its_quotes() {
    assert_eq!(token_from_reply(200, b"\"abc.def\"".to_vec()), Ok("abc.def".to_string()));
    assert_eq!(token_from_reply(200, b"abc".to_vec()), Ok("abc".to_string()));
    assert_eq!(token_from_reply(200, b"\"a\"b\"\"c\"".to_vec()), Ok("abc".to_string()));
    assert_eq!(token_from_reply(200, b"\"\"".to_vec()), Ok(String::new()));
    assert_eq!(token_from_reply(200, vec![]), Ok(String::new()));
    assert_eq!(
        token_from_reply(200, "\"t\u{f6}k\u{20ac}n\u{1f600}\"".as_bytes().to_vec()),
        Ok("t\u{f6}k\u{20ac}n\u{1f600}".to_string())
    );
}

#[test]
fn a_body_that_is_not_text_gives_no_token() {
    assert_eq!(token_from_reply(200, vec![0xff, 0xfe]), Err(NetworkError::Other));
    assert_eq!(token_from_reply(200, vec![b'a', 0xc3]), Err(NetworkError::Other));
    // a quote between the two bytes of a character: not text, though it
    // would be once the quote were gone
    assert_eq!(token_from_reply(200, vec![0xc3, b'"', 0xa9]), Err(NetworkError::Other));
}

#[test]
fn a_refused_login_gives_no_token() {
    assert_eq!(token_from_reply(401, b"\"abc\"".to_vec()), Err(NetworkError::Unauthorized));
    assert_eq!(token_from_reply(500, vec![0xff]), Err(NetworkError::Unauthorized));
    assert_eq!(token_from_reply(201, b"abc".to_vec()), Err(NetworkError::Unauthorized));
}

#[test]
fn quotes_are_taken_out_wherever_they_stand() {
    assert_eq!(strip_quotes(""), "");
    assert_eq!(strip_quotes("\""), "");
    assert_eq!(strip_quotes("plain"), "plain");
    assert_eq!(strip_quotes("'single'"), "'single'");
    assert_eq!(strip_quotes("a\"b"), "ab");
    assert_eq!(strip_quotes("\u{e9}\"\u{e9}"), "\u{e9}\u{e9}");
}

#[test]
fn only_status_200_is_a_good_reply_to_a_report() {
    assert_eq!(report_reply(200), Ok(()));
    assert_eq!(report_reply(401), Err(NetworkError::Unauthorized));
    assert_eq!(report_reply(500), Err(NetworkError::Unauthorized));
    assert_eq!(report_reply(0), Err(NetworkError::Unauthorized));
}

#[test]
fn network_errors_have_their_words() {
    assert_eq!(NetworkError::Unauthorized.describe(), "Unauthorized");
    assert_eq!(NetworkError::Other.describe(), "Other");
}

#[test]
fn an_identifier_is_set_to_the_right_of_its_field() {
    assert_eq!(uas_id_bytes("AETH1234"), Some(*b"            AETH1234"));
    assert_eq!(uas_id_bytes(""), Some([b' '; 20]));
    assert_eq!(uas_id_bytes("12345678901234567890"), Some(*b"12345678901234567890"));
    assert_eq!(uas_id_bytes("a b"), Some(*b"                 a b"));
}

#[test]
fn an_identifier_that_does_not_fit_its_field_is_not_laid_out() {
    assert_eq!(uas_id_bytes("123456789012345678901"), None);
    assert_eq!(uas_id_bytes("f39b9ef4-1a5c-4a0b-9a3e-0c3e5f0a7d11"), None);
    assert_eq!(uas_id_bytes("caf\u{e9}"), None);
    assert_eq!(uas_id_bytes("\u{1f600}"), None);
}

#[test]
fn the_identity_is_that_of_the_session_while_a_plan_is_flown() {
    let mut state = State::new("craft".to_string(), "scanner".to_string(), 0, 0);
    assert_eq!(identity(&state), Identity { kind: IdKind::CaaAssigned, id: "craft".to_string() });
    state.current_plan = Some(FlightPlan {
        flight_uuid: "f".to_string(),
        session_id: "AETH1234".to_string(),
        origin_timeslot_start: 0,
        origin_timeslot_end: 0,
        target_timeslot_start: 0,
        acquire: vec![],
        deliver: vec![],
        path: vec![],
    });
    assert_eq!(
        identity(&state),
        Identity { kind: IdKind::SpecificSession, id: "AETH1234".to_string() }
    );
}

#[test]
fn the_aircraft_is_airborne_while_it_has_ground_speed() {
    let mut state = State::default();
    assert_eq!(operational_status(&state), OperationalStatus::Ground);
    state.ground_velocity_um_s = 1;
    assert_eq!(operational_status(&state), OperationalStatus::Airborne);
    state.ground_velocity_um_s = u64::MAX;
    assert_eq!(operational_status(&state), OperationalStatus::Airborne);
}

#[test]
fn the_direction_is_the_track_in_whole_degrees() {
    let mut state = State::default();
    assert_eq!(track_direction_deg(&state), 0);
    state.track_angle_ndeg = 359_999_999_999;
    assert_eq!(track_direction_deg(&state), 359);
    state.track_angle_ndeg = 90_500_000_000;
    assert_eq!(track_direction_deg(&state), 90);
    state.track_angle_ndeg = 360_000_000_000;
    assert_eq!(track_direction_deg(&state), 0);
    state.track_angle_ndeg = -1;
    assert_eq!(track_direction_deg(&state), 359);
}
