//! The table that a data explorer views.
use vstd::prelude::*;

use crate::r_object::RObject;

verus! {

/// The table that a data explorer views.
#[derive(Debug)]
pub struct Table(pub RObject);

impl Table {
    pub fn new(data: RObject) -> (r: Self)
        ensures
            r.0 == data,
    {
        Self(data)
    }

    pub fn get(&self) -> (r: &RObject)
        ensures
            *r == self.0,
    {
        &self.0
    }

    pub fn set(&mut self, data: RObject)
        ensures
            final(self).0 == data,
    {
        self.0 = data;
    }
}

} // verus!
