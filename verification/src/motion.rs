//! The motion of the aircraft along the legs of its plan.
//!
//! Between two waypoints the aircraft flies a great circle at constant speed
//! and constant climb rate. Great-circle geometry is not computed here: each
//! tick the caller asks `planned_travel` where the aircraft flies to, has the
//! geodesy find that point and measure from it to the waypoints ahead, and
//! hands the answer to `update_location` as a `Sighting`.

use crate::plan::{rest_of, Leg, PointZ, Waypoint};
use crate::state::State;
use crate::units::{
    altitude_after, climb_rate, climb_rate_um_s, climbed_nm, covered_nm, distance_covered,
    elapsed, elapsed_ms, normalize_bearing, normalized,
};
use vstd::prelude::*;

verus! {

/// A waypoint counts as reached when the aircraft is closer to it than this:
/// ten metres.
pub const ARRIVAL_RADIUS_NM: u64 = 10_000_000_000;

/// The flight of one tick: from a point, along a bearing, over a distance.
#[derive(Debug, Clone, Copy, PartialEq, Eq)]
pub struct Travel {
    pub longitude_ndeg: i64,
    pub latitude_ndeg: i64,
    pub bearing_ndeg: i64,
    pub distance_nm: u64,
}

/// What the geodesy found for one tick: the point that the flight of the tick
/// ends at, and the legs from that point to the waypoints ahead.
#[derive(Debug, Clone, Copy, PartialEq, Eq)]
pub struct Sighting {
    pub longitude_ndeg: i64,
    pub latitude_ndeg: i64,
    /// To the front waypoint of the plan. Not read where the plan has none.
    pub next: Leg,
    /// To the waypoint behind the front one. Not read where the plan has none.
    pub following: Leg,
}

/// Whether a plan with waypoints ahead is being flown.
pub open spec fn leg_ahead(state: State) -> bool {
    state.current_plan matches Some(plan) && plan.path@.len() > 0
}

/// The waypoint that the aircraft makes for.
pub open spec fn target(state: State) -> Waypoint
    recommends
        leg_ahead(state),
{
    state.current_plan->0.path@[0]
}

/// The state once climb rate and track are set for the leg to the front
/// waypoint, which the geodesy measured as `leg` from the aircraft's
/// position. The climb rate is the one that gains the waypoint's altitude
/// over the leg at the ground speed the aircraft has; the track is the leg's
/// bearing, brought into `[0, 360)` degrees.
pub open spec fn headed(state: State, leg: Leg) -> State {
    if leg_ahead(state) {
        State {
            vertical_velocity_um_s: climb_rate(
                target(state).point.altitude_nm - state.position.altitude_nm,
                state.ground_velocity_um_s,
                leg.distance_nm,
            ),
            track_angle_ndeg: normalized(leg.bearing_ndeg as int) as i64,
            ..state
        }
    } else {
        state
    }
}

/// Whether a sighting has the aircraft inside the arrival radius of the front
/// waypoint. On the radius itself the aircraft is still under way.
pub open spec fn arrives(state: State, sighting: Sighting) -> bool {
    leg_ahead(state) && sighting.next.distance_nm < ARRIVAL_RADIUS_NM
}

/// The position after a tick of `millis`: the sighted point, at the altitude
/// that the climb rate leads to.
pub open spec fn position_after(state: State, millis: u64, sighting: Sighting) -> PointZ {
    PointZ {
        longitude_ndeg: sighting.longitude_ndeg,
        latitude_ndeg: sighting.latitude_ndeg,
        altitude_nm: altitude_after(
            state.position.altitude_nm,
            state.vertical_velocity_um_s,
            millis,
        ),
    }
}

/// Where the aircraft flies to between `last_ms` and `current_ms`: from its
/// position along its track, over its ground speed times the time. Without a
/// plan it stays where it is, and there is nothing to ask.
pub fn planned_travel(current_ms: u64, last_ms: u64, state: &State) -> (travel: Option<Travel>)
    ensures
        state.current_plan is None <==> travel is None,
        travel matches Some(t) ==> {
            &&& t.longitude_ndeg == state.position.longitude_ndeg
            &&& t.latitude_ndeg == state.position.latitude_ndeg
            &&& t.bearing_ndeg == state.track_angle_ndeg
            &&& t.distance_nm == distance_covered(
                state.ground_velocity_um_s,
                elapsed(current_ms, last_ms),
            )
        },
{
    if state.current_plan.is_none() {
        return None;
    }
    let millis: u64 = elapsed_ms(current_ms, last_ms);
    Some(
        Travel {
            longitude_ndeg: state.position.longitude_ndeg,
            latitude_ndeg: state.position.latitude_ndeg,
            bearing_ndeg: state.track_angle_ndeg,
            distance_nm: covered_nm(state.ground_velocity_um_s, millis),
        },
    )
}

/// Sets climb rate and track for the leg to the front waypoint, measured as
/// `leg` from where the aircraft is. The ground speed stays what it was. With
/// no plan, or no waypoint left, nothing changes.
pub fn adjust_vertical_velocity(state: &mut State, leg: &Leg)
    ensures
        *final(state) == headed(*old(state), *leg),
        leg_ahead(*old(state)) ==> final(state).wf(),
        old(state).wf() ==> final(state).wf(),
{
    let next: Option<Waypoint> = match &state.current_plan {
        Some(plan) => plan.next_waypoint(),
        None => None,
    };
    match next {
        Some(waypoint) => {
            state.vertical_velocity_um_s =
            climb_rate_um_s(
                state.position.altitude_nm,
                waypoint.point.altitude_nm,
                state.ground_velocity_um_s,
                leg.distance_nm,
            );
            state.track_angle_ndeg = normalize_bearing(leg.bearing_ndeg);
        },
        None => {},
    }
}

/// Moves the aircraft through the time from `last_ms` to `current_ms`, and
/// says whether it reached a waypoint.
///
/// Without a plan the aircraft holds its position. With one, it climbs at its
/// climb rate and comes to the sighted point. If that point lies inside the
/// arrival radius of the front waypoint, the waypoint leaves the route and
/// the aircraft heads for the one behind it, if there is one.
pub fn update_location(current_ms: u64, last_ms: u64, state: &mut State, sighting: &Sighting) -> (arrived:
    bool)
    ensures
        old(state).current_plan is None ==> *final(state) == *old(state),
        arrived == (old(state).current_plan is Some && arrives(*old(state), *sighting)),
        old(state).current_plan matches Some(plan) ==> {
            &&& final(state).position == position_after(
                *old(state),
                elapsed(current_ms, last_ms),
                *sighting,
            )
            &&& final(state).ground_velocity_um_s == old(state).ground_velocity_um_s
            &&& old(state).same_session(*final(state))
            &&& final(state).current_plan matches Some(flown) && plan.same_flight(flown) && {
                if arrived {
                    &&& flown.path@ == rest_of(plan.path@)
                    &&& *final(state) == headed(
                        State {
                            position: final(state).position,
                            current_plan: final(state).current_plan,
                            ..*old(state)
                        },
                        sighting.following,
                    )
                } else {
                    &&& flown == plan
                    &&& final(state).vertical_velocity_um_s == old(state).vertical_velocity_um_s
                    &&& final(state).track_angle_ndeg == old(state).track_angle_ndeg
                }
            }
        },
        old(state).wf() ==> final(state).wf(),
{
    if state.current_plan.is_none() {
        return false;
    }
    let millis: u64 = elapsed_ms(current_ms, last_ms);
    state.position.altitude_nm =
    climbed_nm(state.position.altitude_nm, state.vertical_velocity_um_s, millis);
    state.position.longitude_ndeg = sighting.longitude_ndeg;
    state.position.latitude_ndeg = sighting.latitude_ndeg;
    let arrived: bool = match &mut state.current_plan {
        Some(plan) => {
            if plan.path.len() == 0 || sighting.next.distance_nm >= ARRIVAL_RADIUS_NM {
                false
            } else {
                plan.arrive();
                true
            }
        },
        None => false,
    };
    if arrived {
        adjust_vertical_velocity(state, &sighting.following);
    }
    arrived
}

} // verus!
