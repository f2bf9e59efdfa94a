//! The ways in which a call on the adapter fails.

use vstd::prelude::*;

verus! {

/// Why a call on the adapter failed.
#[derive(Debug, Clone, PartialEq, Eq)]
pub enum MeterError {
    /// Host and port do not name a network endpoint.
    Address,
    /// The transport could not establish a session with the device.
    Connection,
    /// A read or write cycle was asked for while no connection is present.
    NotConnected,
    /// A read cycle was asked for while no read register is configured.
    NoRegistersConfigured,
    /// The read transaction failed, in the transport or by an exception that
    /// the device reported.
    Transport,
    /// The response is too short to hold both words of the register `name`.
    IndexOutOfBounds { name: String },
}

} // verus!
