//! The decision core of a LoRaWAN packet-forwarder bridge.
//!
//! Uplink frames heard by concentrators are routed to the routers that
//! subscribed to their join EUIs or device addresses; downlink frames are
//! scheduled onto the first receive window, with the second as a fallback.
//! Sockets, queues and remote calls are the caller's business: every
//! component here is a state machine that is told what happened and answers
//! with what to do next.

pub mod error;
pub mod gateway;
pub mod link_packet;
pub mod notice;
pub mod router;
