//! What the bridge needs to know of a radio frame in order to move it.

use crate::router::routing::RoutingInformation;
use vstd::prelude::*;

verus! {

/// One radio frame on its way through the bridge, reduced to what decides
/// where it goes. The frame itself stays with the caller.
#[derive(Clone, Copy, Debug, PartialEq, Eq, Structural)]
pub struct LinkPacket {
    /// The concentrator that heard the frame, or that is to send it: the
    /// eight bytes of its MAC, most significant first.
    pub gateway_mac: u64,
    /// Whether the payload is a LongFi frame rather than a LoRaWAN one.
    pub longfi: bool,
    /// Where an uplink wants to go, if the frame said so.
    pub routing: Option<RoutingInformation>,
    /// Whether a downlink can also be sent in the second receive window.
    pub rx2_window: bool,
}

impl LinkPacket {
    /// Whether the frame is a LongFi frame.
    pub fn is_longfi(&self) -> (b: bool)
        ensures
            b == self.longfi,
    {
        self.longfi
    }
}

} // verus!
