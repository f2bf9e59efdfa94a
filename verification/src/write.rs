//! The write cycle: one transaction for each write register, each with an
//! outcome of its own.

use vstd::prelude::*;
use crate::registers::ConfigWriteRegister;
use crate::words::{encode_value, high_word, low_word};

verus! {

/// The transaction that a write cycle asks of the transport next: write
/// `words` to the holding registers that begin at `address`.
#[derive(Debug, Clone, PartialEq, Eq)]
pub struct WriteRequest {
    pub address: u16,
    pub words: Vec<u16>,
}

/// How one write transaction ended.
#[derive(Debug, Clone, PartialEq, Eq)]
pub enum WriteOutcome {
    /// The device took the value.
    Written,
    /// The transaction failed; `reason` is the transport's account of it.
    Failed { reason: String },
}

/// What a write cycle reports of one register.
#[derive(Debug, Clone, PartialEq, Eq)]
pub struct WriteReport {
    pub name: String,
    pub value_bits: u32,
    pub outcome: WriteOutcome,
}

/// A write cycle that was started: the registers to write and the outcomes
/// of the transactions made so far.
pub struct WriteCycle<'a> {
    registers: &'a Vec<ConfigWriteRegister>,
    reports: Vec<WriteReport>,
}

/// What a write cycle is, to its contracts: the registers to write, and the
/// outcomes of the transactions made so far, one for each register from the
/// first on.
pub struct WriteCycleView {
    pub registers: Seq<ConfigWriteRegister>,
    pub outcomes: Seq<WriteOutcome>,
}

impl WriteCycleView {
    /// Some register has no outcome yet.
    pub open spec fn is_pending(self) -> bool {
        self.outcomes.len() < self.registers.len()
    }

    /// The register whose transaction is next.
    pub open spec fn pending(self) -> ConfigWriteRegister
        recommends
            self.is_pending(),
    {
        self.registers[self.outcomes.len() as int]
    }

    /// The cycle after the pending transaction ended in `outcome`. A cycle
    /// with nothing pending stays as it is.
    pub open spec fn completed(self, outcome: WriteOutcome) -> WriteCycleView {
        if self.is_pending() {
            WriteCycleView { registers: self.registers, outcomes: self.outcomes.push(outcome) }
        } else {
            self
        }
    }

    /// `reports` tells of each transaction made so far: for which register
    /// it was, and how it ended.
    pub open spec fn reports_are(self, reports: Seq<WriteReport>) -> bool {
        &&& reports.len() == self.outcomes.len()
        &&& reports.len() <= self.registers.len()
        &&& forall|i: int|
            0 <= i < reports.len() ==> #[trigger] reports[i] == report_of(
                self.registers[i],
                self.outcomes[i],
            )
    }

    /// The cycle after its next transactions ended in `outcomes`, in this
    /// order.
    pub open spec fn completed_all(self, outcomes: Seq<WriteOutcome>) -> WriteCycleView
        decreases outcomes.len(),
    {
        if outcomes.len() == 0 {
            self
        } else {
            self.completed_all(outcomes.drop_last()).completed(outcomes.last())
        }
    }
}

/// The report of a transaction for `register` that ended in `outcome`.
pub open spec fn report_of(register: ConfigWriteRegister, outcome: WriteOutcome) -> WriteReport {
    WriteReport { name: register.name, value_bits: register.value_bits, outcome }
}

/// The transaction that writes the value of `register`.
pub open spec fn is_request_for(request: WriteRequest, register: ConfigWriteRegister) -> bool {
    &&& request.address == register.address
    &&& request.words@ == seq![high_word(register.value_bits), low_word(register.value_bits)]
}

impl<'a> View for WriteCycle<'a> {
    type V = WriteCycleView;

    closed spec fn view(&self) -> WriteCycleView {
        WriteCycleView {
            registers: self.registers@,
            outcomes: Seq::new(self.reports@.len(), |i: int| self.reports@[i].outcome),
        }
    }
}

impl<'a> WriteCycle<'a> {
    #[verifier::type_invariant]
    spec fn reports_follow_registers(self) -> bool {
        &&& self.reports@.len() <= self.registers@.len()
        &&& forall|i: int|
            0 <= i < self.reports@.len() ==> #[trigger] self.reports@[i] == report_of(
                self.registers@[i],
                self.reports@[i].outcome,
            )
    }

    pub(crate) fn over(registers: &'a Vec<ConfigWriteRegister>) -> (cycle: Self)
        ensures
            cycle@.registers == registers@,
            cycle@.outcomes == Seq::<WriteOutcome>::empty(),
    {
        WriteCycle { registers, reports: Vec::new() }
    }

    /// The transaction to perform next, for the first register that has no
    /// outcome yet; `None` once every register has one.
    pub fn request(&self) -> (request: Option<WriteRequest>)
        ensures
            self@.outcomes.len() <= self@.registers.len(),
            if self@.is_pending() {
                request matches Some(request) && is_request_for(request, self@.pending())
            } else {
                request is None
            },
    {
        proof {
            use_type_invariant(self);
        }
        let done = self.reports.len();
        if done < self.registers.len() {
            let register = &self.registers[done];
            Some(WriteRequest { address: register.address, words: encode_value(register.value_bits) })
        } else {
            None
        }
    }

    /// Takes in how the pending transaction ended and moves on to the next
    /// register, whether the transaction succeeded or failed. Once every
    /// register has its outcome, nothing changes.
    pub fn complete(self, outcome: WriteOutcome) -> (next: Self)
        ensures
            next@ == self@.completed(outcome),
    {
        proof {
            use_type_invariant(&self);
        }
        let WriteCycle { registers, mut reports } = self;
        let done = reports.len();
        if done < registers.len() {
            let register = &registers[done];
            let report = WriteReport {
                name: register.name.clone(),
                value_bits: register.value_bits,
                outcome,
            };
            reports.push(report);
        }
        let next = WriteCycle { registers, reports };
        assert(next@.outcomes =~= self@.completed(outcome).outcomes);
        next
    }

    /// The report of each transaction made so far, in configured order.
    pub fn reports(&self) -> (reports: &Vec<WriteReport>)
        ensures
            self@.reports_are(reports@),
    {
        proof {
            use_type_invariant(self);
        }
        &self.reports
    }

    /// Ends the cycle with the report of each transaction made, in
    /// configured order.
    pub fn into_reports(self) -> (reports: Vec<WriteReport>)
        ensures
            self@.reports_are(reports@),
    {
        proof {
            use_type_invariant(&self);
        }
        self.reports
    }
}

/// A failed transaction does not end the cycle: whatever the outcomes of the
/// first transactions are, each is recorded for its register, and the cycle
/// goes on to the register after them until none is left.
pub proof fn lemma_failures_do_not_end_cycle(
    registers: Seq<ConfigWriteRegister>,
    outcomes: Seq<WriteOutcome>,
)
    requires
        outcomes.len() <= registers.len(),
    ensures
        ({
            let begun = WriteCycleView { registers, outcomes: Seq::empty() };
            let cycle = begun.completed_all(outcomes);
            &&& cycle.registers == registers
            &&& cycle.outcomes == outcomes
            &&& cycle.is_pending() <==> outcomes.len() < registers.len()
        }),
    decreases outcomes.len(),
{
    let begun = WriteCycleView { registers, outcomes: Seq::empty() };
    if outcomes.len() > 0 {
        lemma_failures_do_not_end_cycle(registers, outcomes.drop_last());
        assert(outcomes.drop_last().push(outcomes.last()) =~= outcomes);
    } else {
        assert(begun.completed_all(outcomes).outcomes =~= outcomes);
    }
}

} // verus!
