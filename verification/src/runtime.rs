//! Execution-context entry point.
//!
//! The driver used to reach its runtime through a process-wide singleton;
//! here the context is explicit: the caller hands the work in as a closure
//! and the library guarantees exactly that closure's contract for the result.
//! Hosts whose runtime needs blocking or thread-pool plumbing provide their
//! own wrapper around this entry point outside the verified core.

use vstd::prelude::*;

verus! {

/// Runs `f` inside the (trivial) execution context of the verified core.
///
/// The result is exactly what the closure promises: callers discharge the
/// closure's own precondition and receive its postcondition.
pub fn enter_runtime<F, R>(f: F) -> (r: R) where
    F: FnOnce() -> R,

    requires
        call_requires(f, ()),
    ensures
        call_ensures(f, (), r),
{
    f()
}

} // verus!
