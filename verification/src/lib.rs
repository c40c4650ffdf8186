//! Verified core of a LINAK standing-desk controller: the wire protocol, the
//! decisions of the connect, hold and preset moves, and the state that the
//! height notifications feed. The Bluetooth transport and the clock stay with
//! the caller, which performs the actions these functions decide on.

pub mod protocol;
pub mod readings;
pub mod reporter;
pub mod address;
pub mod motion;
pub mod preset;
pub mod connection;
pub mod progress;
