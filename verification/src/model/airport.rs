//! An airport.

use vstd::prelude::*;

verus! {

/// An airport; it belongs to exactly one city.
#[derive(Debug)]
pub struct Airport {
    pub id: i64,
    pub city_id: i64,
    pub name: String,
}

impl Clone for Airport {
    fn clone(&self) -> (copy: Self)
        ensures
            copy == *self,
    {
        Airport { id: self.id, city_id: self.city_id, name: self.name.clone() }
    }
}

} // verus!
