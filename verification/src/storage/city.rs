//! The store of cities, as far as the library reads it.

use vstd::prelude::*;
use crate::model::city::City;
use crate::util::errors_v2::ErrorV2;

verus! {

/// What a store keeps of a city: its id and its name. The airports and
/// comments that a `City` may carry along are kept elsewhere.
pub open spec fn city_record(c: City) -> (i64, Seq<char>) {
    (c.id, c.name@)
}

/// What a store keeps of each of `cities`.
pub open spec fn city_records(cities: Seq<City>) -> Seq<(i64, Seq<char>)> {
    cities.map_values(|c: City| city_record(c))
}

/// Read access to the cities.
///
/// A store may vouch that it answers every query from one unchanging list
/// of cities; it then says so with `faithful()`.
pub trait CityRepository: Sync + Send {
    /// The cities that the store knows, where it vouches for them.
    open spec fn cities(&self) -> Seq<City> {
        Seq::empty()
    }

    /// Whether the store vouches that it answers from `cities()`.
    open spec fn faithful(&self) -> bool {
        false
    }

    /// Whether every query is answered. A store that can fail says `false`.
    open spec fn always_answers(&self) -> bool {
        false
    }

    /// The cities with one of the ids `ids`.
    fn get_by_ids(&self, ids: Vec<i64>) -> (r: Result<Vec<City>, ErrorV2>)
        ensures
            self.always_answers() ==> r is Ok,
            self.faithful() ==> (r matches Ok(found) ==> forall|record: (i64, Seq<char>)| #[trigger]
                city_records(found@).contains(record) <==> city_records(self.cities()).contains(
                    record,
                ) && ids@.contains(record.0)),
    ;
}

} // verus!
