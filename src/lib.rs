//! A socket-multiplexing driver core for an AT-command Wi-Fi co-processor.
//!
//! The library holds the decisions of the driver: the five-slot socket table,
//! how unsolicited notifications fold into it, how command replies are judged,
//! how the boot banner and acknowledgements are recognised, and how commands
//! are framed on the wire. Moving bytes to and from the hardware is left to
//! the caller, which hands the library plain values and performs the actions
//! it asks for.

pub mod socket;
pub mod protocol;
pub mod adapter;
pub mod boot;
