//! Where the services that the aircraft talks to are found.

use vstd::prelude::*;

verus! {

/// The host and the ports of the three services.
#[derive(Debug, Clone)]
pub struct Config {
    pub host: String,
    pub cargo_host_port_rest: u16,
    pub atc_host_port_rest: u16,
    pub telemetry_host_port_rest: u16,
}

} // verus!
