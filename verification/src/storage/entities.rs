//! The records of the store and what they stand for in the domain.

use vstd::prelude::*;
use crate::model::airport::Airport;
use crate::model::city::City;

verus! {

pub struct CityDB {
    pub id: i64,
    pub name: String,
}

impl CityDB {
    /// The city of the record; its airports and comments are kept apart
    /// and are not loaded with it.
    pub fn to_city(&self) -> (city: City)
        ensures
            city.id == self.id,
            city.name == self.name,
            city.airports@.len() == 0,
            city.comments@.len() == 0,
    {
        City { id: self.id, name: self.name.clone(), airports: Vec::new(), comments: Vec::new() }
    }
}

pub struct UserDB {
    pub id: i64,
    pub email: String,
    pub pass: String,
    pub roles: String,
}

pub struct AirportDB {
    pub id: i64,
    pub city_id: i64,
    pub name: String,
}

/// An airport that the store has yet to give an id.
pub struct InsertAirportDB {
    pub city_id: i64,
    pub name: String,
}

impl AirportDB {
    pub fn to_model(&self) -> (airport: Airport)
        ensures
            airport == (Airport { id: self.id, city_id: self.city_id, name: self.name }),
    {
        Airport { id: self.id, name: self.name.clone(), city_id: self.city_id }
    }
}

/// A flight as the store keeps it.
pub struct Route {
    pub id: i64,
    pub start: i64,
    pub finish: i64,
    pub price: i64,
}

impl Route {
    pub fn to_model(&self) -> (route: crate::model::route::Route)
        ensures
            route == (crate::model::route::Route {
                id: self.id,
                start: self.start,
                finish: self.finish,
                price: self.price,
            }),
    {
        crate::model::route::Route {
            id: self.id,
            start: self.start,
            finish: self.finish,
            price: self.price,
        }
    }
}

/// A comment that the store has yet to give an id and its times.
pub struct InsertCommentDB {
    pub user_id: i64,
    pub city_id: i64,
    pub text: String,
}

} // verus!
