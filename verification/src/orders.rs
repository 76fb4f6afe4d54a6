//! Taking up a waiting plan when its time has come, and ending the plan that
//! has been flown.
//!
//! Parcels are scanned as a plan begins and as it ends. The scans are not
//! made here: each operation hands back the scans to report, and the caller
//! reports them to the cargo service as well as it can.

use crate::motion::{adjust_vertical_velocity, headed};
use crate::pending::{remembered, PendingOrders};
use crate::plan::{rest_of, route_length, Cargo, FlightPlan, Leg, PointZ, Waypoint};
use crate::state::State;
use crate::units::{elapsed, elapsed_ms, speed_over, speed_um_s};
use vstd::prelude::*;

verus! {

/// The status with which a service says that all went well.
pub const STATUS_OK: u16 = 200;

/// What can go wrong between the aircraft and the order service.
#[derive(Debug, Clone, Copy, PartialEq, Eq)]
pub enum OrdersError {
    Other,
}

impl OrdersError {
    /// The error in a word.
    pub fn describe(&self) -> (word: String)
        ensures
            word@ == "Other"@,
    {
        match self {
            OrdersError::Other => "Other".to_owned(),
        }
    }
}

/// Judges the reply of the order service by its status: anything but
/// `STATUS_OK` is an error.
pub fn orders_reply(status: u16) -> (reply: Result<(), OrdersError>)
    ensures
        reply is Ok <==> status == STATUS_OK,
        reply is Err ==> reply == Err::<(), OrdersError>(OrdersError::Other),
{
    if status == STATUS_OK {
        Ok(())
    } else {
        Err(OrdersError::Other)
    }
}

/// A parcel to report to the cargo service as scanned at a place.
#[derive(Debug, Clone, PartialEq, Eq)]
pub struct ParcelScan {
    pub cargo_id: String,
    pub latitude_ndeg: i64,
    pub longitude_ndeg: i64,
}

/// Whether `scans` reports each parcel of `cargo`, in order, as scanned at
/// the point `at`.
pub open spec fn scans_of(cargo: Seq<Cargo>, at: PointZ, scans: Seq<ParcelScan>) -> bool {
    &&& scans.len() == cargo.len()
    &&& forall|i: int|
        0 <= i < cargo.len() ==> {
            &&& (#[trigger] scans[i]).cargo_id@ == cargo[i].id@
            &&& scans[i].latitude_ndeg == at.latitude_ndeg
            &&& scans[i].longitude_ndeg == at.longitude_ndeg
        }
}

/// The ground speed for a plan taken up at `now_ms`: the speed that covers
/// the whole route by the time the arrival window opens. Where that time has
/// come already, the speed is zero.
pub open spec fn departure_speed(plan: FlightPlan, now_ms: u64) -> u64 {
    speed_over(route_length(plan.path@), elapsed(plan.target_timeslot_start, now_ms))
}

/// The leg from the first waypoint of a route to the second.
pub open spec fn first_leg(path: Seq<Waypoint>) -> Leg {
    if path.len() >= 2 {
        path[1].leg
    } else {
        Leg { distance_nm: 0, bearing_ndeg: 0 }
    }
}

/// Whether `after` is what taking up `plan` at `now_ms` makes of `before`.
///
/// A plan without waypoints is dropped and nothing changes. Otherwise the
/// aircraft stands at the first waypoint, which has left the route; it has
/// the departure speed; it heads for the waypoint now in front, if there is
/// one; and it flies the plan.
pub open spec fn departed(before: State, now_ms: u64, plan: FlightPlan, after: State) -> bool {
    if plan.path@.len() == 0 {
        after == before
    } else {
        &&& after.current_plan matches Some(flown)
        &&& plan.same_flight(flown)
        &&& flown.path@ == rest_of(plan.path@)
        &&& after == headed(
            State {
                current_plan: after.current_plan,
                position: plan.path@[0].point,
                ground_velocity_um_s: departure_speed(plan, now_ms),
                ..before
            },
            first_leg(plan.path@),
        )
    }
}

/// Whether the plan in front of `plans` is to be taken up at `now_ms`: no
/// plan is being flown, and the departure window of that plan has closed.
pub open spec fn next_is_due(state: State, plans: Seq<FlightPlan>, now_ms: u64) -> bool {
    &&& state.current_plan is None
    &&& plans.len() > 0
    &&& plans[0].origin_timeslot_end <= now_ms
}

/// The scans that report each parcel of `cargo` at the point `at`.
pub fn scans_for(cargo: &Vec<Cargo>, at: &PointZ) -> (scans: Vec<ParcelScan>)
    ensures
        scans_of(cargo@, *at, scans@),
{
    let n: usize = cargo.len();
    let mut scans: Vec<ParcelScan> = Vec::new();
    let mut i: usize = 0;
    while i < n
        invariant
            n == cargo@.len(),
            i <= n,
            scans@.len() == i,
            forall|k: int|
                0 <= k < i ==> {
                    &&& (#[trigger] scans@[k]).cargo_id@ == cargo@[k].id@
                    &&& scans@[k].latitude_ndeg == at.latitude_ndeg
                    &&& scans@[k].longitude_ndeg == at.longitude_ndeg
                },
        decreases n - i,
    {
        scans.push(
            ParcelScan {
                cargo_id: cargo[i].id.clone(),
                latitude_ndeg: at.latitude_ndeg,
                longitude_ndeg: at.longitude_ndeg,
            },
        );
        i = i + 1;
    }
    scans
}

/// Takes up `plan` at `current_tick`, and hands back the scans of the parcels
/// that it picks up, made where the aircraft was.
///
/// A plan without waypoints is dropped: the aircraft stays as it is and flies
/// no plan. Otherwise the aircraft is put at the first waypoint at once and
/// flies the rest of the route, at the speed that covers the route by the
/// time the arrival window opens.
pub fn init_plan(state: &mut State, current_tick: u64, plan: FlightPlan) -> (scans: Vec<
    ParcelScan,
>)
    ensures
        scans_of(plan.acquire@, old(state).position, scans@),
        departed(*old(state), current_tick, plan, *final(state)),
        plan.path@.len() == 0 ==> *final(state) == *old(state),
        plan.path@.len() >= 2 ==> final(state).wf(),
        old(state).wf() ==> final(state).wf(),
{
    let scans: Vec<ParcelScan> = scans_for(&plan.acquire, &state.position);
    let mut flown: FlightPlan = plan;
    let total: u128 = flown.route_length_nm();
    let first: Waypoint = match flown.arrive() {
        Some(waypoint) => waypoint,
        None => {
            return scans;
        },
    };
    state.position = first.point;
    let duration: u64 = elapsed_ms(flown.target_timeslot_start, current_tick);
    state.ground_velocity_um_s = speed_um_s(total, duration);
    let leg: Leg = match flown.next_waypoint() {
        Some(waypoint) => waypoint.leg,
        None => Leg { distance_nm: 0, bearing_ndeg: 0 },
    };
    state.current_plan = Some(flown);
    adjust_vertical_velocity(state, &leg);
    scans
}

/// Takes up the plan that departs first, if its time has come.
///
/// While a plan is being flown nothing happens, and that is no error. With
/// no plan being flown, the plan in front of the waiting plans is looked at:
/// if its departure window has closed, it leaves the waiting plans and is
/// taken up as `init_plan` does; the scans to report come back. If no plan
/// waits, or the one in front is not due, that is the error, and nothing
/// changes.
pub fn flight_plan_update(tick: u64, state: &mut State, plans: &mut PendingOrders) -> (res:
    Result<Vec<ParcelScan>, ()>)
    requires
        old(plans).wf(),
    ensures
        final(plans).wf(),
        final(plans).history() == old(plans).history(),
        res is Err <==> old(state).current_plan is None && !next_is_due(
            *old(state),
            old(plans).plans(),
            tick,
        ),
        !next_is_due(*old(state), old(plans).plans(), tick) ==> {
            &&& *final(state) == *old(state)
            &&& final(plans).plans() == old(plans).plans()
            &&& res matches Ok(scans) ==> scans@.len() == 0
        },
        next_is_due(*old(state), old(plans).plans(), tick) ==> {
            &&& final(plans).plans() == old(plans).plans().drop_first()
            &&& departed(*old(state), tick, old(plans).plans()[0], *final(state))
            &&& res matches Ok(scans) && scans_of(
                old(plans).plans()[0].acquire@,
                old(state).position,
                scans@,
            )
        },
        old(state).wf() ==> final(state).wf(),
{
    if state.current_plan.is_some() {
        return Ok(Vec::new());
    }
    let due: bool = match plans.peek() {
        Some(plan) => plan.is_due(tick),
        None => false,
    };
    if !due {
        return Err(());
    }
    match plans.pop() {
        Some(plan) => Ok(init_plan(state, tick, plan)),
        None => Err(()),
    }
}

/// Ends the plan that is being flown, and hands back the scans of the
/// parcels that it delivers, made where the aircraft is.
///
/// The aircraft then flies no plan and stands still, and the session of the
/// plan is remembered as flown. With no plan being flown nothing happens.
pub fn end_plan(state: &mut State, plans: &mut PendingOrders) -> (scans: Vec<ParcelScan>)
    ensures
        final(plans).plans() == old(plans).plans(),
        old(plans).wf() ==> final(plans).wf(),
        final(plans).history().len() <= old(plans).history().len() + 1,
        old(state).current_plan is None ==> {
            &&& *final(state) == *old(state)
            &&& final(plans).history() == old(plans).history()
            &&& scans@.len() == 0
        },
        old(state).current_plan matches Some(plan) ==> {
            &&& scans_of(plan.deliver@, old(state).position, scans@)
            &&& final(plans).history() == remembered(old(plans).history(), plan.session_id@)
            &&& *final(state) == (State {
                current_plan: None,
                ground_velocity_um_s: 0,
                vertical_velocity_um_s: 0,
                ..*old(state)
            })
        },
{
    match state.current_plan.take() {
        Some(plan) => {
            let scans: Vec<ParcelScan> = scans_for(&plan.deliver, &state.position);
            plans.remember(plan.session_id);
            state.ground_velocity_um_s = 0;
            state.vertical_velocity_um_s = 0;
            scans
        },
        None => Vec::new(),
    }
}

/// Ends the plan that is being flown if every waypoint of it has been
/// reached, as `end_plan` does, and says with `Some` that it did.
pub fn complete_plan(state: &mut State, plans: &mut PendingOrders) -> (scans: Option<
    Vec<ParcelScan>,
>)
    ensures
        final(plans).plans() == old(plans).plans(),
        old(plans).wf() ==> final(plans).wf(),
        scans is Some <==> old(state).plan_done(),
        !old(state).plan_done() ==> {
            &&& *final(state) == *old(state)
            &&& final(plans).history() == old(plans).history()
        },
        old(state).plan_done() ==> {
            &&& scans matches Some(list) && scans_of(
                old(state).current_plan->0.deliver@,
                old(state).position,
                list@,
            )
            &&& final(plans).history() == remembered(
                old(plans).history(),
                old(state).current_plan->0.session_id@,
            )
            &&& *final(state) == (State {
                current_plan: None,
                ground_velocity_um_s: 0,
                vertical_velocity_um_s: 0,
                ..*old(state)
            })
        },
{
    if state.plan_is_complete() {
        Some(end_plan(state, plans))
    } else {
        None
    }
}

} // verus!
