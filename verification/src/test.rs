//! Tests that need R.
use vstd::prelude::*;

verus! {

/// Whether something that is done once was done.
#[derive(Debug)]
pub struct Once {
    pub done: bool,
}

/// Initialises the modules of R, unless that was done before.
pub fn initialize_ark<I: FnOnce()>(once: &mut Once, initialize: I)
    requires
        !old(once).done ==> initialize.requires(()),
    ensures
        final(once).done,
        !old(once).done ==> initialize.ensures((), ()),
{
    if !once.done {
        once.done = true;
        initialize();
    }
}

/// Runs a test once the modules of R are initialised.
pub fn r_test<I: FnOnce(), F: FnOnce()>(once: &mut Once, initialize: I, f: F)
    requires
        !old(once).done ==> initialize.requires(()),
        f.requires(()),
    ensures
        final(once).done,
        !old(once).done ==> initialize.ensures((), ()),
        f.ensures((), ()),
{
    initialize_ark(once, initialize);
    f()
}

} // verus!
