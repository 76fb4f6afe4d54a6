//! Flight plans: a route of waypoints, the cargo to pick up and to deliver,
//! and the time windows of departure and arrival.

use vstd::prelude::*;

verus! {

/// A parcel, known by its identifier.
#[derive(Debug, Clone, PartialEq, Eq)]
pub struct Cargo {
    pub id: String,
}

/// A point above the ground: longitude and latitude in nanodegrees, altitude
/// in nanometres.
#[derive(Debug, Clone, Copy, PartialEq, Eq)]
pub struct PointZ {
    pub longitude_ndeg: i64,
    pub latitude_ndeg: i64,
    pub altitude_nm: i64,
}

/// What the geodesy measured from one point to another: the great-circle
/// distance, and the initial bearing in `(-180, 180]` degrees, where north is
/// zero and east is a quarter turn.
#[derive(Debug, Clone, Copy, PartialEq, Eq)]
pub struct Leg {
    pub distance_nm: u64,
    pub bearing_ndeg: i64,
}

/// A point of a route, with the leg that leads to it from the point before
/// it on the route. The leg of a route's first point is not read.
#[derive(Debug, Clone, Copy, PartialEq, Eq)]
pub struct Waypoint {
    pub point: PointZ,
    pub leg: Leg,
}

/// An ordered flight. The front of `path` is the waypoint that the aircraft
/// makes for next; waypoints leave the path at the front, one by one, as they
/// are reached, and the plan is complete when none is left.
#[derive(Debug, Clone, PartialEq, Eq)]
pub struct FlightPlan {
    pub flight_uuid: String,
    pub session_id: String,
    /// Start of the departure window, in milliseconds since the epoch.
    pub origin_timeslot_start: u64,
    /// End of the departure window.
    pub origin_timeslot_end: u64,
    /// Start of the arrival window.
    pub target_timeslot_start: u64,
    /// The cargo to pick up where the flight begins.
    pub acquire: Vec<Cargo>,
    /// The cargo to hand over where it ends.
    pub deliver: Vec<Cargo>,
    pub path: Vec<Waypoint>,
}

/// The lengths of the legs that lead to the points of `path`, added up.
pub open spec fn legs_length(path: Seq<Waypoint>) -> int
    decreases path.len(),
{
    if path.len() == 0 {
        0
    } else {
        legs_length(path.drop_last()) + path.last().leg.distance_nm
    }
}

/// The length of a route: the legs between its consecutive points, added up.
/// The leg that leads to its first point is no part of it.
pub open spec fn route_length(path: Seq<Waypoint>) -> int {
    if path.len() == 0 {
        0
    } else {
        legs_length(path.drop_first())
    }
}

/// The route with its front waypoint gone.
pub open spec fn rest_of(path: Seq<Waypoint>) -> Seq<Waypoint> {
    path.drop_first()
}

/// No leg is longer than `u64::MAX`, so a route is no longer than that times
/// the number of its legs.
pub proof fn lemma_legs_length_bounds(path: Seq<Waypoint>)
    ensures
        0 <= legs_length(path) <= path.len() * u64::MAX,
    decreases path.len(),
{
    if path.len() > 0 {
        lemma_legs_length_bounds(path.drop_last());
        assert((path.len() - 1) * u64::MAX + u64::MAX == path.len() * u64::MAX)
            by (nonlinear_arith);
    }
}

impl FlightPlan {
    /// Whether `other` is this flight, whatever is left of its route.
    pub open spec fn same_flight(self, other: FlightPlan) -> bool {
        &&& other.flight_uuid == self.flight_uuid
        &&& other.session_id == self.session_id
        &&& other.origin_timeslot_start == self.origin_timeslot_start
        &&& other.origin_timeslot_end == self.origin_timeslot_end
        &&& other.target_timeslot_start == self.target_timeslot_start
        &&& other.acquire == self.acquire
        &&& other.deliver == self.deliver
    }

    /// Whether every waypoint has been reached.
    pub fn is_complete(&self) -> (done: bool)
        ensures
            done == (self.path@.len() == 0),
    {
        self.path.len() == 0
    }

    /// Whether the departure window has closed by `now_ms`, so that the flight
    /// may begin.
    pub fn is_due(&self, now_ms: u64) -> (due: bool)
        ensures
            due == (self.origin_timeslot_end <= now_ms),
    {
        self.origin_timeslot_end <= now_ms
    }

    /// The waypoint that the aircraft makes for, if one is left.
    pub fn next_waypoint(&self) -> (next: Option<Waypoint>)
        ensures
            self.path@.len() == 0 ==> next is None,
            self.path@.len() > 0 ==> next == Some(self.path@[0]),
    {
        if self.path.len() == 0 {
            None
        } else {
            Some(self.path[0])
        }
    }

    /// Takes the front waypoint off the route as reached. Nothing else ever
    /// changes a route, so it only gets shorter, from the front.
    pub fn arrive(&mut self) -> (reached: Option<Waypoint>)
        ensures
            old(self).path@.len() == 0 ==> reached is None && *final(self) == *old(self),
            old(self).path@.len() > 0 ==> reached == Some(old(self).path@[0]),
            old(self).same_flight(*final(self)),
            old(self).path@.len() > 0 ==> final(self).path@ == rest_of(old(self).path@),
    {
        if self.path.len() == 0 {
            None
        } else {
            Some(self.path.remove(0))
        }
    }

    /// The length of the whole route, in nanometres.
    pub fn route_length_nm(&self) -> (total: u128)
        ensures
            total == route_length(self.path@),
    {
        let n: usize = self.path.len();
        if n == 0 {
            return 0;
        }
        let ghost legs = self.path@.drop_first();
        let mut total: u128 = 0;
        let mut i: usize = 1;
        while i < n
            invariant
                n == self.path@.len(),
                legs == self.path@.drop_first(),
                1 <= i <= n,
                total == legs_length(legs.take(i - 1)),
            decreases n - i,
        {
            proof {
                lemma_legs_length_bounds(legs.take(i - 1));
                assert((i - 1) * u64::MAX + u64::MAX <= usize::MAX * u64::MAX + u64::MAX)
                    by (nonlinear_arith)
                    requires
                        i <= usize::MAX,
                ;
                assert(legs.take(i as int).drop_last() == legs.take(i - 1));
                assert(legs.take(i as int).last() == self.path@[i as int]);
            }
            total = total + (self.path[i].leg.distance_nm as u128);
            i = i + 1;
        }
        assert(legs.take(n - 1) == legs);
        total
    }
}

} // verus!
