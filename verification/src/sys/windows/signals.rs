//! Interrupts on Windows, where R has a flag for them.
use vstd::prelude::*;

verus! {

/// R's flag for interrupts.
#[derive(Debug)]
pub struct UserBreak {
    pub pending: bool,
}

/// Nothing to do: signals are handled on POSIX only.
pub fn initialize_signal_handlers() {
}

/// Nothing to do: signals are blocked on POSIX only.
pub fn initialize_signal_block() {
}

pub fn interrupts_pending(flag: &UserBreak) -> (r: bool)
    ensures
        r == flag.pending,
{
    flag.pending
}

pub fn set_interrupts_pending(flag: &mut UserBreak, pending: bool)
    ensures
        final(flag).pending == pending,
{
    flag.pending = pending;
}

} // verus!
