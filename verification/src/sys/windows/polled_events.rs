//! Polled events on Windows.
use vstd::prelude::*;

verus! {

/// A scope in which polled events do not run. On Windows there are none, so that the
/// scope does nothing.
#[derive(Debug, PartialEq, Eq, Structural)]
pub struct RPolledEventsSuspendedScope {}

impl RPolledEventsSuspendedScope {
    pub fn new() -> (r: Self)
        ensures
            r == (RPolledEventsSuspendedScope {  }),
    {
        Self {  }
    }
}

} // verus!
