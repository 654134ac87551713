//! Envelope text for the compiled-module outcomes.
//!
//! A compiled module that exports an entry point reports one fixed output
//! line when it ran; one that exports none is still a valid, reportable
//! outcome — instantiation alone — with its own fixed line.

use vstd::prelude::*;

verus! {

/// The envelope `output` value for a compiled-module session: one fixed
/// line when the conventional entry point was found and called, another
/// when the module was only instantiated.
pub fn wasm_outcome_output(entry_ran: bool) -> (r: String)
    ensures
        entry_ran ==> r@ == "WASM module executed (_start)"@,
        !entry_ran ==> r@ == "WASM module instantiated (no _start called or found)"@,
{
    if entry_ran {
        "WASM module executed (_start)".to_owned()
    } else {
        "WASM module instantiated (no _start called or found)".to_owned()
    }
}

} // verus!
