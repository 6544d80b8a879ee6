//! The execution engine behind an adapter.
//!
//! An adapter made outside of any scheduler owns a multi-threaded runtime of
//! its own; one made inside an active scheduler owns none and has its work
//! driven by an executor that needs no scheduler at all.

use vstd::prelude::*;

verus! {

/// `tokio::runtime::Runtime`, a scheduler with its worker threads. Held and
/// lent out, never inspected; dropping it shuts the scheduler down.
#[verifier::external_type_specification]
#[verifier::external_body]
pub struct ExRuntime(tokio::runtime::Runtime);

/// `std::io::Error`, the reason the operating system gave for refusing a
/// resource. Carried, never inspected.
#[verifier::external_type_specification]
#[verifier::external_body]
pub struct ExIoError(std::io::Error);

/// An engine could not be started.
#[derive(Debug)]
pub struct EngineError {
    /// What the operating system reported.
    pub cause: std::io::Error,
}

/// Which primitive drives a unit of work to completion.
#[derive(Clone, Copy, Debug)]
pub enum Executor<'a> {
    /// Block the calling thread on the adapter's own runtime.
    Owned(&'a tokio::runtime::Runtime),
    /// Drive the work on the calling thread, with no scheduler needed.
    ContextFree,
}

/// Calls `tokio::runtime::Handle::try_current` and says whether it found a
/// runtime. The answer depends on where the calling thread stands, so nothing
/// is claimed of it.
#[verifier::external_body]
pub(crate) fn ambient_engine_active() -> bool {
    tokio::runtime::Handle::try_current().is_ok()
}

/// Calls `tokio::runtime::Runtime::new`, which builds a multi-threaded
/// runtime with all drivers enabled, or reports why the operating system
/// refused one. Nothing is claimed of which it will be. Tokio gives up with a
/// panic when the system cannot even spawn the worker threads.
#[verifier::external_body]
pub(crate) fn start_engine() -> Result<tokio::runtime::Runtime, std::io::Error> {
    tokio::runtime::Runtime::new()
}

} // verus!
