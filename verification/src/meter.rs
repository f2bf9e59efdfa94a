//! The adapter: its connection state and the cycles it starts.

use vstd::prelude::*;
use crate::error::MeterError;
use crate::read::ReadCycle;
use crate::registers::{ConfigRegister, ConfigWriteRegister};
use crate::span::address_bounds;
use crate::write::{WriteCycle, WriteOutcome};

verus! {

/// How an attempt to reach the device ended.
#[derive(Debug, Clone, Copy, PartialEq, Eq)]
pub enum ConnectOutcome {
    /// Host and port did not parse into an endpoint; nothing was tried.
    AddressInvalid,
    /// The endpoint was valid but the handshake failed.
    HandshakeFailed,
    /// A session with the device is open.
    Established,
}

/// The adapter for one device: whether a connection is present, and the
/// registers to read and to write in each cycle.
pub struct MeterGeneric {
    connected: bool,
    read_registers: Vec<ConfigRegister>,
    write_registers: Vec<ConfigWriteRegister>,
}

/// What an adapter is, to its contracts.
pub struct MeterView {
    pub connected: bool,
    pub read_registers: Seq<ConfigRegister>,
    pub write_registers: Seq<ConfigWriteRegister>,
}

impl View for MeterGeneric {
    type V = MeterView;

    closed spec fn view(&self) -> MeterView {
        MeterView {
            connected: self.connected,
            read_registers: self.read_registers@,
            write_registers: self.write_registers@,
        }
    }
}

/// Whether a connection is present after an attempt that ended in `outcome`:
/// a success brings one, a failure leaves what was there.
pub open spec fn connected_after(connected: bool, outcome: ConnectOutcome) -> bool {
    connected || outcome is Established
}

/// Whether a connection is present after the attempts `outcomes`, made in
/// this order.
pub open spec fn connected_after_all(connected: bool, outcomes: Seq<ConnectOutcome>) -> bool
    decreases outcomes.len(),
{
    if outcomes.len() == 0 {
        connected
    } else {
        connected_after(connected_after_all(connected, outcomes.drop_last()), outcomes.last())
    }
}

/// What `connect` answers to an attempt that ended in `outcome`.
pub open spec fn connect_result(outcome: ConnectOutcome) -> Result<(), MeterError> {
    match outcome {
        ConnectOutcome::AddressInvalid => Err(MeterError::Address),
        ConnectOutcome::HandshakeFailed => Err(MeterError::Connection),
        ConnectOutcome::Established => Ok(()),
    }
}

impl MeterGeneric {
    /// An adapter for the given registers, with no connection yet.
    pub fn new(
        read_registers: Vec<ConfigRegister>,
        write_registers: Vec<ConfigWriteRegister>,
    ) -> (meter: Self)
        ensures
            !meter@.connected,
            meter@.read_registers == read_registers@,
            meter@.write_registers == write_registers@,
    {
        MeterGeneric { connected: false, read_registers, write_registers }
    }

    /// Whether a connection is present.
    pub fn is_connected(&self) -> (connected: bool)
        ensures
            connected == self@.connected,
    {
        self.connected
    }

    /// Takes in how an attempt to reach the device ended. A session that was
    /// established becomes the adapter's connection, in place of any earlier
    /// one; a failed attempt is answered with its error and changes nothing.
    pub fn connect(&mut self, outcome: ConnectOutcome) -> (result: Result<(), MeterError>)
        ensures
            result == connect_result(outcome),
            final(self)@.connected == connected_after(old(self)@.connected, outcome),
            final(self)@.read_registers == old(self)@.read_registers,
            final(self)@.write_registers == old(self)@.write_registers,
    {
        match outcome {
            ConnectOutcome::AddressInvalid => Err(MeterError::Address),
            ConnectOutcome::HandshakeFailed => Err(MeterError::Connection),
            ConnectOutcome::Established => {
                self.connected = true;
                Ok(())
            },
        }
    }

    /// Starts a read cycle: one transaction over the span from the lowest to
    /// the highest configured address. Fails without a connection, and with
    /// a connection but no read register.
    pub fn read(&mut self) -> (result: Result<ReadCycle<'_>, MeterError>)
        ensures
            final(self)@ == old(self)@,
            if !old(self)@.connected {
                result matches Err(MeterError::NotConnected)
            } else if old(self)@.read_registers.len() == 0 {
                result matches Err(MeterError::NoRegistersConfigured)
            } else {
                &&& result matches Ok(cycle)
                &&& cycle@.registers == old(self)@.read_registers
                &&& cycle@.spans_registers()
            },
    {
        if !self.connected {
            return Err(MeterError::NotConnected);
        }
        match address_bounds(&self.read_registers) {
            None => Err(MeterError::NoRegistersConfigured),
            Some((start, end)) => Ok(ReadCycle::over(&self.read_registers, start, end)),
        }
    }

    /// Starts a write cycle: one transaction for each write register, in
    /// configured order. Fails only without a connection.
    pub fn write(&mut self) -> (result: Result<WriteCycle<'_>, MeterError>)
        ensures
            final(self)@ == old(self)@,
            if !old(self)@.connected {
                result matches Err(MeterError::NotConnected)
            } else {
                &&& result matches Ok(cycle)
                &&& cycle@.registers == old(self)@.write_registers
                &&& cycle@.outcomes == Seq::<WriteOutcome>::empty()
            },
    {
        if !self.connected {
            return Err(MeterError::NotConnected);
        }
        Ok(WriteCycle::over(&self.write_registers))
    }
}

/// As long as no attempt to connect has succeeded, no connection is present:
/// an adapter that began without one is still without one.
pub proof fn lemma_absent_until_established(outcomes: Seq<ConnectOutcome>)
    requires
        forall|i: int| 0 <= i < outcomes.len() ==> !(#[trigger] outcomes[i] is Established),
    ensures
        !connected_after_all(false, outcomes),
    decreases outcomes.len(),
{
    if outcomes.len() > 0 {
        lemma_absent_until_established(outcomes.drop_last());
    }
}

/// Once an attempt has succeeded the connection stays, whatever attempts
/// follow.
pub proof fn lemma_connection_stays(connected: bool, outcomes: Seq<ConnectOutcome>)
    requires
        connected,
    ensures
        connected_after_all(connected, outcomes),
    decreases outcomes.len(),
{
    if outcomes.len() > 0 {
        lemma_connection_stays(connected, outcomes.drop_last());
    }
}

} // verus!
