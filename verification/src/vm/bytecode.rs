//! Bytecode execution with a private storage cell.

use vstd::prelude::*;
use crate::vm::exec::{self, spec_error_message, spec_run_from_start, RunOutcome};
use crate::vm::gas::GasMeter;

verus! {

/// The stack-or-message result of a run, as `execute` reports it.
pub open spec fn spec_report(o: RunOutcome) -> Result<Seq<u64>, &'static str> {
    match o.result {
        Ok(s) => Ok(s),
        Err(e) => Err(spec_error_message(e)),
    }
}

/// Executes bytecode returning the final stack; the gas used is left in
/// `meter`. Each opcode costs its base cost, immediates one more, and storage
/// and hashing their extra charges. The storage cell reads 0 until written.
pub fn execute(code: &[u8], meter: &mut GasMeter) -> (r: Result<Vec<u64>, &'static str>)
    requires
        old(meter).wf(),
    ensures
        final(meter).spec_used() == spec_run_from_start(code@, old(meter).spec_used(), old(meter).spec_limit(), 0, None).used,
        final(meter).spec_limit() == old(meter).spec_limit(),
        final(meter).wf(),
        match r {
            Ok(s) => spec_report(spec_run_from_start(code@, old(meter).spec_used(), old(meter).spec_limit(), 0, None))
                == Ok::<Seq<u64>, &'static str>(s@),
            Err(m) => spec_report(spec_run_from_start(code@, old(meter).spec_used(), old(meter).spec_limit(), 0, None))
                == Err::<Seq<u64>, &'static str>(m),
        },
{
    match exec::execute(code, meter) {
        Ok(s) => Ok(s),
        Err(e) => Err(e.message()),
    }
}

} // verus!
