//! R objects, as far as the library knows them.
use vstd::prelude::*;

verus! {

/// An R object, known by its address. What it holds is known to R alone.
#[derive(Clone, Copy, Debug, PartialEq, Eq, Hash, Structural)]
pub struct RObject {
    pub address: u64,
}

} // verus!
