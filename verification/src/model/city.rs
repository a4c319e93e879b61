//! A city with its airports and the comments on it.

use vstd::prelude::*;
use crate::model::airport::Airport;
use crate::model::comment::Comment;

verus! {

/// A city. Its airports count as one place: a traveller changes between
/// them on the ground, at no price that is kept track of.
pub struct City {
    pub id: i64,
    pub name: String,
    pub airports: Vec<Airport>,
    pub comments: Vec<Comment>,
}

impl City {
    /// A city with no airport and no comment yet.
    pub fn new(id: i64, name: String) -> (city: Self)
        ensures
            city.id == id,
            city.name == name,
            city.airports@.len() == 0,
            city.comments@.len() == 0,
    {
        City { id: id, name: name, comments: Vec::new(), airports: Vec::new() }
    }
}

} // verus!
