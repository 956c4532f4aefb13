//! Clock synchronisation over a fixed-layout datagram: the wire format of a
//! message, the stamping of its timestamps, and the offset computation that
//! a client derives from a completed round trip.

pub mod client;
pub mod helper;
pub mod playback;
pub mod protocol;
