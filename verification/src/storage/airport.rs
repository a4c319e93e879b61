//! The store of airports, as far as the library reads it.

use vstd::prelude::*;
use crate::model::airport::Airport;
use crate::util::errors_v2::ErrorV2;

verus! {

/// Read access to the airports.
///
/// As with the flights, a store may vouch that it answers every query
/// from one unchanging list of airports and one unchanging notion of
/// which airports can be reached from which on the ground; it then says
/// so with `faithful()`.
pub trait AirportRepository: Sync + Send {
    /// The airports that the store knows, where it vouches for them.
    open spec fn airports(&self) -> Seq<Airport> {
        Seq::empty()
    }

    /// The airports that a traveller can reach on the ground from any of
    /// `ids`: those that share a city with one of them.
    open spec fn ground_reach(&self, ids: Seq<i64>) -> Set<i64> {
        Set::empty()
    }

    /// Whether the store vouches that it answers from `airports()` and
    /// `ground_reach()`.
    open spec fn faithful(&self) -> bool {
        false
    }

    /// Whether every query is answered. A store that can fail says `false`.
    open spec fn always_answers(&self) -> bool {
        false
    }

    /// The airports of a city.
    fn get_by_city_id(&self, city_id: i64) -> (r: Result<Vec<Airport>, ErrorV2>)
        ensures
            self.always_answers() ==> r is Ok,
            self.faithful() ==> (r matches Ok(found) ==> forall|a: Airport| #[trigger]
                found@.contains(a) <==> self.airports().contains(a) && a.city_id == city_id),
    ;

    /// The airports with one of the ids `ids`.
    fn get_by_ids(&self, ids: Vec<i64>) -> (r: Result<Vec<Airport>, ErrorV2>)
        ensures
            self.always_answers() ==> r is Ok,
            self.faithful() ==> (r matches Ok(found) ==> forall|a: Airport| #[trigger]
                found@.contains(a) <==> self.airports().contains(a) && ids@.contains(a.id)),
    ;

    /// The ids of the airports within ground reach of `ids`.
    fn get_ids_by_city_ids(&self, ids: Vec<i64>) -> (r: Result<Vec<i64>, ErrorV2>)
        ensures
            self.always_answers() ==> r is Ok,
            self.faithful() ==> (r matches Ok(found) ==> forall|a: i64| #[trigger]
                found@.contains(a) <==> self.ground_reach(ids@).contains(a)),
    ;
}

} // verus!
