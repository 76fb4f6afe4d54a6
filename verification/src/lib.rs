//! A simulated aircraft: flight plans, their scheduling, and the motion of the
//! aircraft along them, in fixed-point arithmetic.
//!
//! The library decides and computes; it neither waits, nor talks to a
//! service, nor does great-circle geometry. Its caller runs the ticks, asks
//! the library what is due, does it, and hands the outcome back:
//!
//! * `units` holds the units and the arithmetic between them;
//! * `plan` and `state` hold the data: flight plans and the aircraft;
//! * `motion` moves the aircraft along the legs of its plan;
//! * `pending` keeps the plans that wait and remembers the sessions flown;
//! * `orders` takes a plan up when its time has come, and ends it;
//! * `telemetry` says what is reported, and reads what the network answers;
//! * `session` keeps count of failed logins;
//! * `cadence` orders the stages of a tick and says which reports are due;
//! * `config` names the services.

pub mod config;
pub mod units;
pub mod plan;
pub mod state;
pub mod motion;
pub mod pending;
pub mod orders;
pub mod telemetry;
pub mod session;
pub mod cadence;
