//! Gas costs and the gas meter.

use vstd::prelude::*;
use crate::vm::opcodes::OpCode;

verus! {

/// Extra gas for reading a push immediate.
pub const GAS_IMMEDIATE: u64 = 1;

/// Gas for one storage read.
pub const GAS_STORAGE_READ: u64 = 10;

/// Gas for one storage write.
pub const GAS_STORAGE_WRITE: u64 = 20;

/// Gas for reading a contract's code.
pub const GAS_CODE_READ: u64 = 5;

/// Gas for one hash computation.
pub const GAS_HASH: u64 = 50;

/// The base gas cost of an opcode (immediates and storage access are charged
/// on top).
pub open spec fn spec_cost(op: OpCode) -> u64 {
    match op {
        OpCode::Halt => 0,
        OpCode::Push => 1,
        OpCode::Add => 1,
        OpCode::Sub => 1,
        OpCode::Mul => 2,
        OpCode::Div => 3,
        OpCode::Mod => 3,
        OpCode::And => 1,
        OpCode::Or => 1,
        OpCode::Xor => 1,
        OpCode::Load => GAS_STORAGE_READ,
        OpCode::Store => GAS_STORAGE_WRITE,
        OpCode::Hash => GAS_HASH,
    }
}

/// Returns the gas cost for a single opcode (excluding immediates).
pub fn cost(op: OpCode) -> (c: u64)
    ensures
        c == spec_cost(op),
{
    match op {
        OpCode::Halt => 0,
        OpCode::Push => 1,
        OpCode::Add => 1,
        OpCode::Sub => 1,
        OpCode::Mul => 2,
        OpCode::Div => 3,
        OpCode::Mod => 3,
        OpCode::And => 1,
        OpCode::Or => 1,
        OpCode::Xor => 1,
        OpCode::Load => GAS_STORAGE_READ,
        OpCode::Store => GAS_STORAGE_WRITE,
        OpCode::Hash => GAS_HASH,
    }
}

/// Basic gas meter for tracking consumption against a limit.
#[derive(Debug, Clone)]
pub struct GasMeter {
    limit: u64,
    used: u64,
}

impl GasMeter {
    /// The limit the meter was created with.
    pub closed spec fn spec_limit(&self) -> u64 {
        self.limit
    }

    /// The gas consumed so far.
    pub closed spec fn spec_used(&self) -> u64 {
        self.used
    }

    /// Well-formedness: consumption never exceeds the limit.
    pub closed spec fn wf(&self) -> bool {
        self.used <= self.limit
    }

    /// A fresh meter with nothing consumed.
    pub fn new(limit: u64) -> (m: Self)
        ensures
            m.spec_limit() == limit,
            m.spec_used() == 0,
            m.wf(),
    {
        GasMeter { limit, used: 0 }
    }

    /// Charges `amount` gas. Succeeds, and records the charge, exactly when the
    /// new total stays within the limit; otherwise the meter is unchanged.
    pub fn charge(&mut self, amount: u64) -> (r: Result<(), &'static str>)
        ensures
            final(self).spec_limit() == old(self).spec_limit(),
            r is Ok <==> old(self).spec_used() + amount <= old(self).spec_limit(),
            r is Ok ==> final(self).spec_used() == old(self).spec_used() + amount,
            r is Err ==> final(self).spec_used() == old(self).spec_used(),
            r matches Err(e) ==> e == "out of gas",
            old(self).wf() ==> final(self).wf(),
    {
        match self.used.checked_add(amount) {
            Some(new) => {
                if new <= self.limit {
                    self.used = new;
                    Ok(())
                } else {
                    Err("out of gas")
                }
            },
            None => Err("out of gas"),
        }
    }

    /// Gas consumed so far.
    pub fn used(&self) -> (u: u64)
        ensures
            u == self.spec_used(),
    {
        self.used
    }
}

/// Charging twice is charging the sum once: the meter accepts `a` then `b`
/// exactly when it accepts `a + b`, and ends with the same consumption.
pub proof fn lemma_charge_additive(used: int, limit: int, a: int, b: int)
    requires
        0 <= used <= limit,
        0 <= a,
        0 <= b,
    ensures
        (used + a <= limit && used + a + b <= limit) <==> used + (a + b) <= limit,
{
}

} // verus!
