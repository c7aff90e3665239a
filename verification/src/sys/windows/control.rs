//! Interrupt requests on Windows.
use vstd::prelude::*;

use crate::sys::windows::signals::{set_interrupts_pending, UserBreak};

verus! {

/// Marks an interrupt as pending, which R handles at the next occasion.
pub fn handle_interrupt_request(flag: &mut UserBreak)
    ensures
        final(flag).pending,
{
    set_interrupts_pending(flag, true);
}

} // verus!
