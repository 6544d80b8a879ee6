//! What a state machine says after an event.

use vstd::prelude::*;

verus! {

/// What a state machine says after taking in one event.
#[derive(Debug, PartialEq, Eq)]
pub enum Step<S, T, E> {
    /// Not settled yet: the state to feed the next event to.
    Pending(S),
    /// Settled with a result.
    Ready(T),
    /// Settled with an error.
    Failed(E),
}

} // verus!
