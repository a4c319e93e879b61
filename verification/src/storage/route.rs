//! The store of flights, as far as the library reads it.

use vstd::prelude::*;
use crate::model::route::Route;
use crate::util::errors_v2::ErrorV2;

verus! {

/// Whether `r` leaves from one of `start` and does not arrive at one of
/// `exclude_finishes`.
pub open spec fn leaves_from(r: Route, start: Seq<i64>, exclude_finishes: Option<Seq<i64>>) -> bool {
    &&& start.contains(r.start)
    &&& match exclude_finishes {
        Some(excluded) => !excluded.contains(r.finish),
        None => true,
    }
}

/// The ids of an optional list.
pub open spec fn ids_of(list: Option<Vec<i64>>) -> Option<Seq<i64>> {
    match list {
        Some(ids) => Some(ids@),
        None => None,
    }
}

/// Read access to the flights on offer.
///
/// A store may vouch that it answers every query from one unchanging list
/// of flights, `routes()`: it then says so with `faithful()`, and what is
/// proved about a search holds of it. A store that says nothing of
/// itself, as every store does that leaves the three descriptions as they
/// are, can be searched all the same; nothing is then known of what is
/// found.
pub trait RouteRepository: Sync + Send {
    /// The flights on offer, where the store vouches for them.
    open spec fn routes(&self) -> Seq<Route> {
        Seq::empty()
    }

    /// Whether the store vouches that it answers from `routes()`.
    open spec fn faithful(&self) -> bool {
        false
    }

    /// Whether every query is answered. A store that can fail says `false`.
    open spec fn always_answers(&self) -> bool {
        false
    }

    /// The flights that leave from one of `start`, without those that
    /// arrive at one of `exclude_finishes`.
    fn find_by_start(&self, start: Vec<i64>, exclude_finishes: Option<Vec<i64>>) -> (r: Result<
        Vec<Route>,
        ErrorV2,
    >)
        ensures
            self.always_answers() ==> r is Ok,
            self.faithful() ==> (r matches Ok(found) ==> forall|e: Route| #[trigger]
                found@.contains(e) <==> self.routes().contains(e) && leaves_from(
                    e,
                    start@,
                    ids_of(exclude_finishes),
                )),
    ;
}

} // verus!
