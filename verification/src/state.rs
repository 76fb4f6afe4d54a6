//! The aircraft: who it is, where it is, how it moves, what it flies, and
//! when it last reported.

use crate::plan::{FlightPlan, PointZ};
use crate::units::FULL_TURN_NDEG;
use vstd::prelude::*;

verus! {

/// The whole state of the simulated aircraft. One owner holds it and hands it
/// to each operation in turn.
#[derive(Debug, Clone, PartialEq, Eq)]
pub struct State {
    /// The plan being flown. There is never more than one.
    pub current_plan: Option<FlightPlan>,
    pub id: String,
    pub scanner_id: String,
    /// The token that authorizes reports, while one is held.
    pub token: Option<String>,
    pub position: PointZ,
    /// Speed over the ground, in micrometres per second.
    pub ground_velocity_um_s: u64,
    /// Climb rate, in micrometres per second; negative when descending.
    pub vertical_velocity_um_s: i64,
    /// Direction of flight in nanodegrees, clockwise from north.
    pub track_angle_ndeg: i64,
    /// When the position was last reported, in milliseconds since the epoch.
    pub last_update_ms: u64,
    /// When the identity was last reported.
    pub last_id_update_ms: u64,
    /// When orders were last asked for.
    pub last_order_check: u64,
    /// When the aircraft last moved.
    pub last_tick_ms: u64,
}

impl State {
    /// The track angle lies in `[0, 360)` degrees.
    pub open spec fn wf(self) -> bool {
        0 <= self.track_angle_ndeg < FULL_TURN_NDEG
    }

    /// Whether `other` differs from `self` at most in how and where the
    /// aircraft flies: in its plan, its position, its velocities and its
    /// track.
    pub open spec fn same_session(self, other: State) -> bool {
        &&& other.id == self.id
        &&& other.scanner_id == self.scanner_id
        &&& other.token == self.token
        &&& other.last_update_ms == self.last_update_ms
        &&& other.last_id_update_ms == self.last_id_update_ms
        &&& other.last_order_check == self.last_order_check
        &&& other.last_tick_ms == self.last_tick_ms
    }

    /// Whether a plan is being flown whose every waypoint has been reached.
    pub open spec fn plan_done(self) -> bool {
        self.current_plan matches Some(plan) && plan.path@.len() == 0
    }

    /// An aircraft named `id`, on the ground at the given longitude and
    /// latitude, with no plan and no token.
    pub fn new(id: String, scanner_id: String, longitude_ndeg: i64, latitude_ndeg: i64) -> (state:
        State)
        ensures
            state.wf(),
            state.id == id,
            state.scanner_id == scanner_id,
            state.current_plan is None,
            state.token is None,
            state.position == (PointZ { longitude_ndeg, latitude_ndeg, altitude_nm: 0 }),
            state.ground_velocity_um_s == 0,
            state.vertical_velocity_um_s == 0,
            state.track_angle_ndeg == 0,
            state.last_update_ms == 0,
            state.last_id_update_ms == 0,
            state.last_order_check == 0,
            state.last_tick_ms == 0,
    {
        State {
            current_plan: None,
            id,
            scanner_id,
            token: None,
            position: PointZ { longitude_ndeg, latitude_ndeg, altitude_nm: 0 },
            ground_velocity_um_s: 0,
            vertical_velocity_um_s: 0,
            track_angle_ndeg: 0,
            last_update_ms: 0,
            last_id_update_ms: 0,
            last_order_check: 0,
            last_tick_ms: 0,
        }
    }

    /// Whether the plan being flown has run out of waypoints, and is to be
    /// ended.
    pub fn plan_is_complete(&self) -> (done: bool)
        ensures
            done == self.plan_done(),
    {
        match &self.current_plan {
            Some(plan) => plan.is_complete(),
            None => false,
        }
    }
}

impl Default for State {
    /// A nameless aircraft at rest at the origin.
    fn default() -> (state: State)
        ensures
            state.wf(),
            state.current_plan is None,
            state.id@ == Seq::<char>::empty(),
            state.scanner_id@ == Seq::<char>::empty(),
            state.token is None,
            state.position == (PointZ { longitude_ndeg: 0, latitude_ndeg: 0, altitude_nm: 0 }),
            state.ground_velocity_um_s == 0,
            state.vertical_velocity_um_s == 0,
            state.track_angle_ndeg == 0,
            state.last_update_ms == 0,
            state.last_id_update_ms == 0,
            state.last_order_check == 0,
            state.last_tick_ms == 0,
    {
        State::new(String::new(), String::new(), 0, 0)
    }
}

} // verus!
