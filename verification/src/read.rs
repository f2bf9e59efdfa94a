//! The read cycle: one transaction over the span, then each configured value
//! decoded from the words that came back.

use vstd::prelude::*;
use crate::error::MeterError;
use crate::registers::{addresses_of, ConfigRegister, Reading};
use crate::span::{is_highest, is_lowest, span_quantity};
use crate::words::{decode_value, join_words};

verus! {

/// The transaction that a read cycle asks of the transport: `quantity`
/// holding registers, beginning at `start`. The quantity lies between 2 and
/// 65537.
#[derive(Debug, Clone, Copy, PartialEq, Eq)]
pub struct ReadRequest {
    pub start: u16,
    pub quantity: u32,
}

/// What the transport answered to a read transaction.
#[derive(Debug, Clone, PartialEq, Eq)]
pub enum ReadResponse {
    /// The registers that came back, the one at the span's start first.
    Words(Vec<u16>),
    /// The device answered with an exception.
    Exception,
    /// The transaction failed below the protocol.
    TransportFailure,
}

/// A read cycle that was started and waits for the transport's answer.
pub struct ReadCycle<'a> {
    registers: &'a Vec<ConfigRegister>,
    start: u16,
    end: u16,
}

/// What a read cycle is, to its contracts: the registers it reads, and the
/// first and the last address of a value among them.
pub struct ReadCycleView {
    pub registers: Seq<ConfigRegister>,
    pub start: u16,
    pub end: u16,
}

impl ReadCycleView {
    /// The cycle begins at the lowest configured address and ends at the
    /// highest.
    pub open spec fn spans_registers(self) -> bool {
        &&& is_lowest(addresses_of(self.registers), self.start)
        &&& is_highest(addresses_of(self.registers), self.end)
    }
}

/// Where the first word of the value at `address` stands in a response that
/// begins at `start`.
pub open spec fn offset_of(address: u16, start: u16) -> int {
    address - start
}

/// A response of `len` words, beginning at `start`, holds both words of the
/// value at `address`.
pub open spec fn in_reach(address: u16, start: u16, len: nat) -> bool {
    0 <= offset_of(address, start) && offset_of(address, start) + 1 < len
}

/// A response of `len` words, beginning at `start`, holds both words of every
/// value of `registers`.
pub open spec fn all_in_reach(registers: Seq<ConfigRegister>, start: u16, len: nat) -> bool {
    forall|i: int| 0 <= i < registers.len() ==> in_reach(#[trigger] registers[i].address, start, len)
}

/// `registers[i]` is the first configured register that a response of `len`
/// words does not hold in full.
pub open spec fn is_first_out_of_reach(
    registers: Seq<ConfigRegister>,
    start: u16,
    len: nat,
    i: int,
) -> bool {
    &&& 0 <= i < registers.len()
    &&& !in_reach(registers[i].address, start, len)
    &&& forall|j: int| 0 <= j < i ==> in_reach(#[trigger] registers[j].address, start, len)
}

/// The measurement that `words`, beginning at `start`, hold for `register`.
pub open spec fn reading_of(register: ConfigRegister, start: u16, words: Seq<u16>) -> Reading {
    Reading {
        name: register.name,
        address: register.address,
        value_bits: join_words(
            words[offset_of(register.address, start)],
            words[offset_of(register.address, start) + 1],
        ),
    }
}

impl<'a> View for ReadCycle<'a> {
    type V = ReadCycleView;

    closed spec fn view(&self) -> ReadCycleView {
        ReadCycleView { registers: self.registers@, start: self.start, end: self.end }
    }
}

impl<'a> ReadCycle<'a> {
    #[verifier::type_invariant]
    spec fn well_formed(self) -> bool {
        self@.spans_registers()
    }

    pub(crate) fn over(registers: &'a Vec<ConfigRegister>, start: u16, end: u16) -> (cycle: Self)
        requires
            is_lowest(addresses_of(registers@), start),
            is_highest(addresses_of(registers@), end),
        ensures
            cycle@.registers == registers@,
            cycle@.start == start,
            cycle@.end == end,
    {
        ReadCycle { registers, start, end }
    }

    /// The transaction to perform: it begins at the lowest configured address
    /// and ends with the second word of the value at the highest one.
    pub fn request(&self) -> (request: ReadRequest)
        ensures
            self@.spans_registers(),
            request.start == self@.start,
            request.quantity == span_quantity(self@.start, self@.end),
    {
        proof {
            use_type_invariant(self);
            let addresses = addresses_of(self.registers@);
            let k = choose|k: int| 0 <= k < addresses.len() && addresses[k] == self.start;
            assert(addresses[k] <= self.end);
        }
        let width: u32 = (self.end - self.start) as u32;
        ReadRequest { start: self.start, quantity: width + 2 }
    }

    /// Ends the cycle with the transport's answer. A failed transaction fails
    /// the read. Words that came back are decoded for each register in
    /// configured order; if the response does not hold some register in
    /// full, the whole read fails and names the first such register.
    pub fn complete(self, response: ReadResponse) -> (result: Result<Vec<Reading>, MeterError>)
        ensures
            match response {
                ReadResponse::Words(words) => {
                    if all_in_reach(self@.registers, self@.start, words@.len()) {
                        &&& result matches Ok(readings)
                        &&& readings@.len() == self@.registers.len()
                        &&& forall|i: int|
                            0 <= i < readings@.len() ==> #[trigger] readings@[i] == reading_of(
                                self@.registers[i],
                                self@.start,
                                words@,
                            )
                    } else {
                        &&& result matches Err(MeterError::IndexOutOfBounds { name })
                        &&& exists|i: int|
                            #[trigger] is_first_out_of_reach(
                                self@.registers,
                                self@.start,
                                words@.len(),
                                i,
                            ) && name == self@.registers[i].name
                    }
                },
                ReadResponse::Exception => result == Err::<Vec<Reading>, _>(MeterError::Transport),
                ReadResponse::TransportFailure => {
                    result == Err::<Vec<Reading>, _>(MeterError::Transport)
                },
            },
    {
        proof {
            use_type_invariant(&self);
        }
        let words = match response {
            ReadResponse::Words(words) => words,
            ReadResponse::Exception => {
                return Err(MeterError::Transport);
            },
            ReadResponse::TransportFailure => {
                return Err(MeterError::Transport);
            },
        };
        let mut readings: Vec<Reading> = Vec::new();
        let mut i: usize = 0;
        while i < self.registers.len()
            invariant
                0 <= i <= self.registers.len(),
                self@.spans_registers(),
                response matches ReadResponse::Words(answered) && answered == words,
                readings@.len() == i,
                forall|j: int|
                    0 <= j < i ==> in_reach(
                        (#[trigger] self@.registers[j]).address,
                        self@.start,
                        words@.len(),
                    ),
                forall|j: int|
                    0 <= j < i ==> #[trigger] readings@[j] == reading_of(
                        self@.registers[j],
                        self@.start,
                        words@,
                    ),
            decreases self.registers.len() - i,
        {
            let register = &self.registers[i];
            assert(self.start <= addresses_of(self.registers@)[i as int]);
            let offset: usize = (register.address - self.start) as usize;
            if offset + 1 >= words.len() {
                let name = register.name.clone();
                assert(is_first_out_of_reach(self@.registers, self@.start, words@.len(), i as int));
                return Err(MeterError::IndexOutOfBounds { name });
            }
            let value_bits = decode_value(words[offset], words[offset + 1]);
            readings.push(
                Reading { name: register.name.clone(), address: register.address, value_bits },
            );
            i += 1;
        }
        Ok(readings)
    }
}

/// A response that is too short for some register is too short for a first
/// one, which stands at or before it in configured order; that register is
/// the one a failed read names.
pub proof fn lemma_first_out_of_reach(
    registers: Seq<ConfigRegister>,
    start: u16,
    len: nat,
    k: int,
) -> (i: int)
    requires
        0 <= k < registers.len(),
        !in_reach(registers[k].address, start, len),
    ensures
        0 <= i <= k,
        is_first_out_of_reach(registers, start, len, i),
        !all_in_reach(registers, start, len),
    decreases k,
{
    if exists|j: int| 0 <= j < k && !in_reach(#[trigger] registers[j].address, start, len) {
        let j = choose|j: int| 0 <= j < k && !in_reach(#[trigger] registers[j].address, start, len);
        lemma_first_out_of_reach(registers, start, len, j)
    } else {
        k
    }
}

/// A response of at least as many words as the span asks for holds every
/// configured register in full.
pub proof fn lemma_full_response_in_reach(cycle: ReadCycleView, len: nat)
    requires
        cycle.spans_registers(),
        span_quantity(cycle.start, cycle.end) <= len,
    ensures
        all_in_reach(cycle.registers, cycle.start, len),
{
    let addresses = addresses_of(cycle.registers);
    assert forall|i: int| 0 <= i < cycle.registers.len() implies in_reach(
        #[trigger] cycle.registers[i].address,
        cycle.start,
        len,
    ) by {
        assert(addresses[i] == cycle.registers[i].address);
    }
}

} // verus!
