//! Network status data as reported by the desktop portal's network
//! monitor: availability, metering, and a connectivity level that the
//! wire protocol carries as a `u32`.

use vstd::prelude::*;

verus! {

/// The network status, composed of the availability, metered & connectivity.
pub struct NetworkStatus {
    /// Whether the network is considered available.
    pub available: bool,
    /// Whether the network is considered metered.
    pub metered: bool,
    /// More detailed information about the host's network connectivity.
    pub connectivity: u32,
}

/// Host's network connectivity level.
#[derive(Debug, Copy, Clone, PartialEq, Eq, Structural)]
pub enum Connectivity {
    /// The host is not configured with a route to the internet.
    Local,
    /// The host is connected to a network, but can't reach the full internet.
    Limited,
    /// The host is behind a captive portal and cannot reach the full internet.
    CaptivePortal,
    /// The host connected to a network, and can reach the full internet.
    FullNetwork,
    /// Invalid value.
    Unknown,
}

/// The connectivity level that a raw wire value denotes; every value
/// outside the four documented codes maps to `Unknown`.
pub open spec fn connectivity_of(value: u32) -> Connectivity {
    if value == 1 {
        Connectivity::Local
    } else if value == 2 {
        Connectivity::Limited
    } else if value == 3 {
        Connectivity::CaptivePortal
    } else if value == 4 {
        Connectivity::FullNetwork
    } else {
        Connectivity::Unknown
    }
}

impl Connectivity {
    /// Decode the wire representation of a connectivity level.
    pub fn from_u32(value: u32) -> (r: Connectivity)
        ensures
            r == connectivity_of(value),
    {
        match value {
            1 => Connectivity::Local,
            2 => Connectivity::Limited,
            3 => Connectivity::CaptivePortal,
            4 => Connectivity::FullNetwork,
            _ => Connectivity::Unknown,
        }
    }
}

impl NetworkStatus {
    /// The connectivity level this status carries.
    pub fn connectivity_level(&self) -> (r: Connectivity)
        ensures
            r == connectivity_of(self.connectivity),
    {
        Connectivity::from_u32(self.connectivity)
    }
}

} // verus!
