//! The configured registers of a meter and what a cycle reports of them.

use vstd::prelude::*;

verus! {

/// One readable measurement: a 32-bit value held in the two holding
/// registers at `address` and `address + 1`.
#[derive(Debug, Clone, PartialEq, Eq)]
pub struct ConfigRegister {
    pub name: String,
    pub address: u16,
}

/// One setpoint to push to the device: the bit pattern `value_bits` goes to
/// the two holding registers at `address` and `address + 1`.
#[derive(Debug, Clone, PartialEq, Eq)]
pub struct ConfigWriteRegister {
    pub name: String,
    pub address: u16,
    pub value_bits: u32,
}

/// A measurement decoded from a read transaction.
#[derive(Debug, Clone, PartialEq, Eq)]
pub struct Reading {
    pub name: String,
    pub address: u16,
    pub value_bits: u32,
}

/// The addresses of `registers`, in configured order.
pub open spec fn addresses_of(registers: Seq<ConfigRegister>) -> Seq<u16> {
    Seq::new(registers.len(), |i: int| registers[i].address)
}

} // verus!
