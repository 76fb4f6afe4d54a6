//! The rhythm of a tick: in which order its stages run, which reports are
//! due, and what their outcome does to the aircraft.
//!
//! Reports are due by the clock, not by the count of ticks. A report that
//! went well is noted with its time; one that failed is not, so that the
//! next tick tries again.

use crate::orders::OrdersError;
use crate::pending::{acknowledged, merged, views, PendingOrders};
use crate::plan::FlightPlan;
use crate::state::State;
use crate::telemetry::NetworkError;
use crate::units::{elapsed, elapsed_ms};
use vstd::prelude::*;

verus! {

/// The time between two ticks.
pub const SLEEP_TIME_MS: u64 = 50;

/// The identity is reported again once more than this has passed.
pub const ID_UPDATE_PERIOD_MS: u64 = 2000;

/// The position is reported again once more than this has passed.
pub const POSITION_UPDATE_PERIOD_MS: u64 = 500;

/// Orders are asked for again once more than this has passed.
pub const ORDER_CHECK_PERIOD_MS: u64 = 15000;

/// The stages of a tick, in the order in which they run.
#[derive(Debug, Clone, Copy, PartialEq, Eq)]
pub enum Stage {
    /// The aircraft moves.
    Motion,
    /// A waiting plan is taken up if its time has come.
    Activation,
    /// The plan is ended if it has been flown.
    Completion,
    /// A token is got if none is held.
    Token,
    /// The identity is reported if due.
    Identity,
    /// The position is reported if due.
    Position,
    /// Orders are asked for if due.
    Orders,
}

impl Stage {
    /// The place of the stage in a tick.
    pub open spec fn rank(self) -> nat {
        match self {
            Stage::Motion => 0,
            Stage::Activation => 1,
            Stage::Completion => 2,
            Stage::Token => 3,
            Stage::Identity => 4,
            Stage::Position => 5,
            Stage::Orders => 6,
        }
    }

    /// The stage that a tick begins with.
    pub fn first() -> (stage: Stage)
        ensures
            stage.rank() == 0,
    {
        Stage::Motion
    }

    /// The stage that follows, if the tick goes on. A stage that was held up
    /// ends the tick, and so does the last stage.
    pub fn next(self, held_up: bool) -> (following: Option<Stage>)
        ensures
            following is None <==> held_up || self == Stage::Orders,
            following matches Some(stage) ==> stage.rank() == self.rank() + 1,
    {
        if held_up {
            return None;
        }
        match self {
            Stage::Motion => Some(Stage::Activation),
            Stage::Activation => Some(Stage::Completion),
            Stage::Completion => Some(Stage::Token),
            Stage::Token => Some(Stage::Identity),
            Stage::Identity => Some(Stage::Position),
            Stage::Position => Some(Stage::Orders),
            Stage::Orders => None,
        }
    }
}

/// Whether something last done at `last_ms` is due again at `now_ms`: more
/// than `period_ms` has passed.
pub open spec fn due(now_ms: u64, last_ms: u64, period_ms: u64) -> bool {
    elapsed(now_ms, last_ms) > period_ms
}

/// The later of two times.
pub open spec fn later(a_ms: u64, b_ms: u64) -> u64 {
    if a_ms >= b_ms {
        a_ms
    } else {
        b_ms
    }
}

/// Whether the token stage holds the tick up: without a token a login is
/// made, and nothing is reported in this tick, however the login ends.
pub fn login_needed(state: &State) -> (needed: bool)
    ensures
        needed == (state.token is None),
{
    state.token.is_none()
}

/// Whether the identity is due to be reported.
pub fn id_update_due(now_ms: u64, state: &State) -> (is_due: bool)
    ensures
        is_due == due(now_ms, state.last_id_update_ms, ID_UPDATE_PERIOD_MS),
{
    elapsed_ms(now_ms, state.last_id_update_ms) > ID_UPDATE_PERIOD_MS
}

/// Whether the position is due to be reported.
pub fn position_update_due(now_ms: u64, state: &State) -> (is_due: bool)
    ensures
        is_due == due(now_ms, state.last_update_ms, POSITION_UPDATE_PERIOD_MS),
{
    elapsed_ms(now_ms, state.last_update_ms) > POSITION_UPDATE_PERIOD_MS
}

/// Whether orders are due to be asked for.
pub fn order_check_due(now_ms: u64, state: &State) -> (is_due: bool)
    ensures
        is_due == due(now_ms, state.last_order_check, ORDER_CHECK_PERIOD_MS),
{
    elapsed_ms(now_ms, state.last_order_check) > ORDER_CHECK_PERIOD_MS
}

/// Notes that the aircraft has moved up to `now_ms`. The time noted never
/// goes back.
pub fn tick_done(now_ms: u64, state: &mut State)
    ensures
        *final(state) == (State {
            last_tick_ms: later(now_ms, old(state).last_tick_ms),
            ..*old(state)
        }),
        final(state).last_tick_ms >= old(state).last_tick_ms,
{
    if now_ms > state.last_tick_ms {
        state.last_tick_ms = now_ms;
    }
}

/// Takes the outcome of an identity report made at `now_ms`, and says
/// whether the tick is held up.
///
/// A report that went well is noted with its time. Any failure costs the
/// token and holds the tick up; the time of the last report stays, so that
/// the report is due still.
pub fn id_update_done(now_ms: u64, state: &mut State, outcome: Result<(), NetworkError>) -> (held_up:
    bool)
    ensures
        held_up == outcome is Err,
        outcome is Ok ==> *final(state) == (State {
            last_id_update_ms: later(now_ms, old(state).last_id_update_ms),
            ..*old(state)
        }),
        outcome is Err ==> *final(state) == (State { token: None, ..*old(state) }),
        final(state).last_id_update_ms >= old(state).last_id_update_ms,
{
    match outcome {
        Ok(_) => {
            if now_ms > state.last_id_update_ms {
                state.last_id_update_ms = now_ms;
            }
            false
        },
        Err(_) => {
            state.token = None;
            true
        },
    }
}

/// Takes the outcome of a position report made at `now_ms`, and says whether
/// the tick is held up, as `id_update_done` does for the identity.
pub fn position_update_done(now_ms: u64, state: &mut State, outcome: Result<(), NetworkError>) -> (held_up:
    bool)
    ensures
        held_up == outcome is Err,
        outcome is Ok ==> *final(state) == (State {
            last_update_ms: later(now_ms, old(state).last_update_ms),
            ..*old(state)
        }),
        outcome is Err ==> *final(state) == (State { token: None, ..*old(state) }),
        final(state).last_update_ms >= old(state).last_update_ms,
{
    match outcome {
        Ok(_) => {
            if now_ms > state.last_update_ms {
                state.last_update_ms = now_ms;
            }
            false
        },
        Err(_) => {
            state.token = None;
            true
        },
    }
}

/// Takes the answer of the order service to a question asked at `now_ms`,
/// and lists the flights to acknowledge.
///
/// The orders that came are merged into the waiting plans and the time is
/// noted. A failure changes nothing and costs nothing: the question is due
/// still, and the token stays.
pub fn order_check_done(
    now_ms: u64,
    state: &mut State,
    plans: &mut PendingOrders,
    answer: Result<Vec<FlightPlan>, OrdersError>,
) -> (acks: Vec<String>)
    requires
        old(plans).wf(),
    ensures
        final(plans).wf(),
        final(plans).history() == old(plans).history(),
        final(state).last_order_check >= old(state).last_order_check,
        answer matches Ok(orders) ==> {
            &&& *final(state) == (State {
                last_order_check: later(now_ms, old(state).last_order_check),
                ..*old(state)
            })
            &&& final(plans).plans() == merged(
                old(plans).plans(),
                old(state).current_plan,
                old(plans).history(),
                orders@,
            )
            &&& views(acks@) == acknowledged(
                old(state).current_plan,
                old(plans).history(),
                orders@,
            )
        },
        answer is Err ==> {
            &&& *final(state) == *old(state)
            &&& final(plans).plans() == old(plans).plans()
            &&& acks@.len() == 0
        },
{
    match answer {
        Ok(orders) => {
            if now_ms > state.last_order_check {
                state.last_order_check = now_ms;
            }
            plans.merge(state, orders)
        },
        Err(_) => Vec::new(),
    }
}

} // verus!
