//! Call-chain tracking for diagnostics of a lazy evaluator.
//!
//! Lazy evaluation has no well delimited stack frames, so the evaluator logs markers while it
//! applies functions, enters function bodies, resolves variables and accesses record fields.
//! [`callstack::CallStack::group_by_calls`] rebuilds a readable chain of calls from that log.
use vstd::prelude::*;

pub mod callstack;
pub mod identifier;
pub mod lemmas;
pub mod position;

verus! {

} // verus!
