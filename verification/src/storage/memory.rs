//! Stores that hold what they know in memory. They never fail.

use vstd::prelude::*;
use crate::model::airport::Airport;
use crate::model::best_route::contains_id;
use crate::model::city::City;
use crate::model::route::Route;
use crate::storage::airport::AirportRepository;
use crate::storage::city::{city_record, city_records, CityRepository};
use crate::storage::route::{ids_of, leaves_from, RouteRepository};
use crate::util::errors_v2::ErrorV2;
use crate::util::seqs::{lemma_push_contains, lemma_take_contains};

verus! {

/// Flights kept in a list.
pub struct MemoryRoutes {
    routes: Vec<Route>,
}

impl MemoryRoutes {
    pub fn new(routes: Vec<Route>) -> (store: Self)
        ensures
            store.routes() == routes@,
            store.faithful(),
            store.always_answers(),
    {
        MemoryRoutes { routes: routes }
    }
}

impl RouteRepository for MemoryRoutes {
    closed spec fn routes(&self) -> Seq<Route> {
        self.routes@
    }

    open spec fn faithful(&self) -> bool {
        true
    }

    open spec fn always_answers(&self) -> bool {
        true
    }

    /// The flights asked for, in the order in which the store keeps them.
    fn find_by_start(&self, start: Vec<i64>, exclude_finishes: Option<Vec<i64>>) -> (r: Result<
        Vec<Route>,
        ErrorV2,
    >)
        ensures
            r matches Ok(found) && found@ == self.routes().filter(
                |e: Route| leaves_from(e, start@, ids_of(exclude_finishes)),
            ),
    {
        let ghost excluded = ids_of(exclude_finishes);
        let ghost wanted_one = |e: Route| leaves_from(e, start@, ids_of(exclude_finishes));
        let mut found: Vec<Route> = Vec::new();
        let mut i: usize = 0;
        proof {
            reveal_with_fuel(Seq::<Route>::filter, 2);
            assert(self.routes@.take(0) =~= Seq::<Route>::empty());
        }
        while i < self.routes.len()
            invariant
                i <= self.routes.len(),
                excluded == ids_of(exclude_finishes),
                wanted_one == |e: Route| leaves_from(e, start@, ids_of(exclude_finishes)),
                found@ == self.routes@.take(i as int).filter(wanted_one),
                forall|e: Route| #[trigger]
                    found@.contains(e) <==> self.routes@.take(i as int).contains(e) && leaves_from(
                        e,
                        start@,
                        excluded,
                    ),
            decreases self.routes.len() - i,
        {
            let route = self.routes[i];
            let wanted = contains_id(&start, route.start) && match &exclude_finishes {
                Some(x) => !contains_id(x, route.finish),
                None => true,
            };
            let ghost before = found@;
            if wanted {
                found.push(route);
            }
            proof {
                reveal_with_fuel(Seq::<Route>::filter, 2);
                assert(self.routes@.take(i + 1).drop_last() =~= self.routes@.take(i as int));
                assert(self.routes@.take(i + 1).last() == route);
                assert(wanted_one(route) == wanted);
                assert forall|e: Route| #[trigger]
                    found@.contains(e) <==> self.routes@.take(i + 1).contains(e) && leaves_from(
                        e,
                        start@,
                        excluded,
                    ) by {
                    lemma_take_contains(self.routes@, i as int, e);
                    lemma_push_contains(before, route, e);
                }
            }
            i += 1;
        }
        proof {
            assert(self.routes@.take(self.routes.len() as int) =~= self.routes@);
        }
        Ok(found)
    }
}

/// Airports kept in a list.
pub struct MemoryAirports {
    airports: Vec<Airport>,
}

/// Whether the airport with the id `id` shares a city with one of the
/// airports `ids`, as far as `airports` knows them.
pub open spec fn shares_city(airports: Seq<Airport>, ids: Seq<i64>, id: i64) -> bool {
    exists|i: int, j: int|
        0 <= i < airports.len() && 0 <= j < airports.len() && (#[trigger] airports[i]).id == id
            && ids.contains((#[trigger] airports[j]).id) && airports[j].city_id
            == airports[i].city_id
}

impl MemoryAirports {
    pub fn new(airports: Vec<Airport>) -> (store: Self)
        ensures
            store.airports() == airports@,
            store.faithful(),
            store.always_answers(),
            forall|ids: Seq<i64>, id: i64| #[trigger]
                store.ground_reach(ids).contains(id) <==> shares_city(airports@, ids, id),
    {
        MemoryAirports { airports: airports }
    }

    /// Where no two airports have the same id, a traveller may depart from
    /// the same airports wherever in a city the traveller stands.
    pub proof fn lemma_same_city_same_reach(&self, i: int, j: int)
        requires
            distinct_ids(self.airports()),
            0 <= i < self.airports().len(),
            0 <= j < self.airports().len(),
            self.airports()[i].city_id == self.airports()[j].city_id,
        ensures
            self.ground_reach(seq![self.airports()[i].id]) == self.ground_reach(
                seq![self.airports()[j].id],
            ),
            self.ground_reach(seq![self.airports()[i].id]).contains(self.airports()[j].id),
    {
        lemma_ground_reach_goes_by_city(self.airports@, i, j);
        assert(self.ground_reach(seq![self.airports()[i].id]) =~= self.ground_reach(
            seq![self.airports()[j].id],
        ));
    }

    /// Whether one of the airports `ids` lies in the city `city_id`.
    fn city_has_one_of(&self, ids: &Vec<i64>, city_id: i64) -> (yes: bool)
        ensures
            yes == lies_in_city(self.airports@, ids@, city_id),
    {
        let mut j: usize = 0;
        while j < self.airports.len()
            invariant
                j <= self.airports.len(),
                forall|k: int|
                    0 <= k < j ==> !(ids@.contains((#[trigger] self.airports@[k]).id)
                        && self.airports@[k].city_id == city_id),
            decreases self.airports.len() - j,
        {
            if self.airports[j].city_id == city_id && contains_id(ids, self.airports[j].id) {
                return true;
            }
            j += 1;
        }
        false
    }
}

/// No two of `airports` have the same id.
pub open spec fn distinct_ids(airports: Seq<Airport>) -> bool {
    forall|i: int, j: int|
        0 <= i < airports.len() && 0 <= j < airports.len() && (#[trigger] airports[i]).id == (
        #[trigger] airports[j]).id ==> i == j
}

/// Where no two airports have the same id, the airports of one city can
/// be reached on the ground from each other, and from each of them the
/// same.
pub proof fn lemma_ground_reach_goes_by_city(airports: Seq<Airport>, i: int, j: int)
    requires
        distinct_ids(airports),
        0 <= i < airports.len(),
        0 <= j < airports.len(),
        airports[i].city_id == airports[j].city_id,
    ensures
        forall|id: i64|
            shares_city(airports, seq![airports[i].id], id) <==> shares_city(
                airports,
                seq![airports[j].id],
                id,
            ),
        shares_city(airports, seq![airports[i].id], airports[j].id),
{
    assert(seq![airports[i].id].contains(airports[i].id)) by {
        assert(seq![airports[i].id][0] == airports[i].id);
    }
    assert(seq![airports[j].id].contains(airports[j].id)) by {
        assert(seq![airports[j].id][0] == airports[j].id);
    }
    assert forall|id: i64|
        shares_city(airports, seq![airports[i].id], id) <==> shares_city(
            airports,
            seq![airports[j].id],
            id,
        ) by {
        if shares_city(airports, seq![airports[i].id], id) {
            let (p, q) = choose|p: int, q: int|
                0 <= p < airports.len() && 0 <= q < airports.len() && (#[trigger] airports[p]).id
                    == id && seq![airports[i].id].contains((#[trigger] airports[q]).id)
                    && airports[q].city_id == airports[p].city_id;
            assert(airports[q].id == airports[i].id);
            assert(airports[j].city_id == airports[p].city_id);
        }
        if shares_city(airports, seq![airports[j].id], id) {
            let (p, q) = choose|p: int, q: int|
                0 <= p < airports.len() && 0 <= q < airports.len() && (#[trigger] airports[p]).id
                    == id && seq![airports[j].id].contains((#[trigger] airports[q]).id)
                    && airports[q].city_id == airports[p].city_id;
            assert(airports[q].id == airports[j].id);
            assert(airports[i].city_id == airports[p].city_id);
        }
    }
}

impl AirportRepository for MemoryAirports {
    closed spec fn airports(&self) -> Seq<Airport> {
        self.airports@
    }

    closed spec fn ground_reach(&self, ids: Seq<i64>) -> Set<i64> {
        Set::new(|id: i64| shares_city(self.airports@, ids, id))
    }

    open spec fn faithful(&self) -> bool {
        true
    }

    open spec fn always_answers(&self) -> bool {
        true
    }

    /// The airports of the city, in the order in which the store keeps
    /// them.
    fn get_by_city_id(&self, city_id: i64) -> (r: Result<Vec<Airport>, ErrorV2>)
        ensures
            r matches Ok(found) && found@ == self.airports().filter(
                |a: Airport| a.city_id == city_id,
            ),
    {
        let ghost wanted_one = |a: Airport| a.city_id == city_id;
        let mut found: Vec<Airport> = Vec::new();
        let mut i: usize = 0;
        proof {
            reveal_with_fuel(Seq::<Airport>::filter, 2);
            assert(self.airports@.take(0) =~= Seq::<Airport>::empty());
        }
        while i < self.airports.len()
            invariant
                i <= self.airports.len(),
                wanted_one == |a: Airport| a.city_id == city_id,
                found@ == self.airports@.take(i as int).filter(wanted_one),
                forall|a: Airport| #[trigger]
                    found@.contains(a) <==> self.airports@.take(i as int).contains(a) && a.city_id
                        == city_id,
            decreases self.airports.len() - i,
        {
            let ghost before = found@;
            if self.airports[i].city_id == city_id {
                found.push(self.airports[i].clone());
            }
            proof {
                reveal_with_fuel(Seq::<Airport>::filter, 2);
                assert(self.airports@.take(i + 1).drop_last() =~= self.airports@.take(i as int));
                assert(self.airports@.take(i + 1).last() == self.airports@[i as int]);
                assert(wanted_one(self.airports@[i as int]) == (self.airports@[i as int].city_id
                    == city_id));
                assert forall|a: Airport| #[trigger]
                    found@.contains(a) <==> self.airports@.take(i + 1).contains(a) && a.city_id
                        == city_id by {
                    lemma_take_contains(self.airports@, i as int, a);
                    lemma_push_contains(before, self.airports@[i as int], a);
                }
            }
            i += 1;
        }
        proof {
            assert(self.airports@.take(self.airports.len() as int) =~= self.airports@);
        }
        Ok(found)
    }

    /// The airports with one of the ids, in the order in which the store
    /// keeps them.
    fn get_by_ids(&self, ids: Vec<i64>) -> (r: Result<Vec<Airport>, ErrorV2>)
        ensures
            r matches Ok(found) && found@ == self.airports().filter(
                |a: Airport| ids@.contains(a.id),
            ),
    {
        let ghost wanted_one = |a: Airport| ids@.contains(a.id);
        let mut found: Vec<Airport> = Vec::new();
        let mut i: usize = 0;
        proof {
            reveal_with_fuel(Seq::<Airport>::filter, 2);
            assert(self.airports@.take(0) =~= Seq::<Airport>::empty());
        }
        while i < self.airports.len()
            invariant
                i <= self.airports.len(),
                wanted_one == |a: Airport| ids@.contains(a.id),
                found@ == self.airports@.take(i as int).filter(wanted_one),
                forall|a: Airport| #[trigger]
                    found@.contains(a) <==> self.airports@.take(i as int).contains(a)
                        && ids@.contains(a.id),
            decreases self.airports.len() - i,
        {
            let ghost before = found@;
            if contains_id(&ids, self.airports[i].id) {
                found.push(self.airports[i].clone());
            }
            proof {
                reveal_with_fuel(Seq::<Airport>::filter, 2);
                assert(self.airports@.take(i + 1).drop_last() =~= self.airports@.take(i as int));
                assert(self.airports@.take(i + 1).last() == self.airports@[i as int]);
                assert(wanted_one(self.airports@[i as int]) == ids@.contains(
                    self.airports@[i as int].id,
                ));
                assert forall|a: Airport| #[trigger]
                    found@.contains(a) <==> self.airports@.take(i + 1).contains(a)
                        && ids@.contains(a.id) by {
                    lemma_take_contains(self.airports@, i as int, a);
                    lemma_push_contains(before, self.airports@[i as int], a);
                }
            }
            i += 1;
        }
        proof {
            assert(self.airports@.take(self.airports.len() as int) =~= self.airports@);
        }
        Ok(found)
    }

    /// The ids of the airports in the cities of the airports asked for,
    /// in the order in which the store keeps them.
    fn get_ids_by_city_ids(&self, ids: Vec<i64>) -> (r: Result<Vec<i64>, ErrorV2>)
        ensures
            r matches Ok(found) && found@ == self.airports().filter(
                |a: Airport| lies_in_city(self.airports(), ids@, a.city_id),
            ).map_values(|a: Airport| a.id),
    {
        let ghost near_one = |a: Airport| lies_in_city(self.airports(), ids@, a.city_id);
        let mut found: Vec<i64> = Vec::new();
        let mut i: usize = 0;
        proof {
            reveal_with_fuel(Seq::<Airport>::filter, 2);
            assert(self.airports@.take(0) =~= Seq::<Airport>::empty());
            assert(found@ =~= self.airports@.take(0).filter(near_one).map_values(
                |a: Airport| a.id,
            ));
        }
        while i < self.airports.len()
            invariant
                i <= self.airports.len(),
                near_one == |a: Airport| lies_in_city(self.airports(), ids@, a.city_id),
                found@ == self.airports@.take(i as int).filter(near_one).map_values(
                    |a: Airport| a.id,
                ),
                forall|a: i64| #[trigger]
                    found@.contains(a) <==> shares_city_among(self.airports@, ids@, a, i as int),
            decreases self.airports.len() - i,
        {
            let ghost before = found@;
            let near = self.city_has_one_of(&ids, self.airports[i].city_id);
            if near {
                found.push(self.airports[i].id);
            }
            proof {
                reveal_with_fuel(Seq::<Airport>::filter, 2);
                let shorter = self.airports@.take(i as int);
                let longer = self.airports@.take(i + 1);
                assert(longer.drop_last() =~= shorter);
                assert(longer.last() == self.airports@[i as int]);
                assert(near_one(self.airports@[i as int]) == near);
                if near {
                    assert(longer.filter(near_one).map_values(|a: Airport| a.id)
                        =~= shorter.filter(near_one).map_values(|a: Airport| a.id).push(
                        self.airports@[i as int].id,
                    ));
                }
                assert forall|a: i64| #[trigger]
                    found@.contains(a) <==> shares_city_among(
                        self.airports@,
                        ids@,
                        a,
                        i + 1,
                    ) by {
                    lemma_push_contains(before, self.airports@[i as int].id, a);
                    if shares_city_among(self.airports@, ids@, a, i + 1) {
                        let (x, y) = choose|x: int, y: int|
                            0 <= x < i + 1 && 0 <= y < self.airports@.len() && (
                            #[trigger] self.airports@[x]).id == a && ids@.contains(
                                (#[trigger] self.airports@[y]).id,
                            ) && self.airports@[y].city_id == self.airports@[x].city_id;
                        if x < i {
                            assert(shares_city_among(self.airports@, ids@, a, i as int));
                        }
                    }
                }
            }
            i += 1;
        }
        proof {
            assert(self.airports@.take(self.airports.len() as int) =~= self.airports@);
        }
        Ok(found)
    }
}

/// Whether one of the airports `ids` lies in the city `city_id`, as far
/// as `airports` knows them.
pub open spec fn lies_in_city(airports: Seq<Airport>, ids: Seq<i64>, city_id: i64) -> bool {
    exists|j: int|
        0 <= j < airports.len() && ids.contains((#[trigger] airports[j]).id) && airports[j].city_id
            == city_id
}

/// As `shares_city`, where the airport asked about is among the first
/// `upto`.
pub open spec fn shares_city_among(airports: Seq<Airport>, ids: Seq<i64>, id: i64, upto: int) -> bool {
    exists|i: int, j: int|
        0 <= i < upto && 0 <= j < airports.len() && (#[trigger] airports[i]).id == id
            && ids.contains((#[trigger] airports[j]).id) && airports[j].city_id
            == airports[i].city_id
}

/// Cities kept in a list.
pub struct MemoryCities {
    cities: Vec<City>,
}

impl MemoryCities {
    pub fn new(cities: Vec<City>) -> (store: Self)
        ensures
            store.cities() == cities@,
            store.faithful(),
            store.always_answers(),
    {
        MemoryCities { cities: cities }
    }
}

impl CityRepository for MemoryCities {
    closed spec fn cities(&self) -> Seq<City> {
        self.cities@
    }

    open spec fn faithful(&self) -> bool {
        true
    }

    open spec fn always_answers(&self) -> bool {
        true
    }

    /// The cities with one of the ids, in the order in which the store
    /// keeps them, each without airports and comments.
    fn get_by_ids(&self, ids: Vec<i64>) -> (r: Result<Vec<City>, ErrorV2>)
        ensures
            r matches Ok(found) && city_records(found@) == city_records(
                self.cities().filter(|c: City| ids@.contains(c.id)),
            ) && forall|i: int|
                0 <= i < found@.len() ==> (#[trigger] found@[i]).airports@.len() == 0
                    && found@[i].comments@.len() == 0,
    {
        let ghost wanted_one = |c: City| ids@.contains(c.id);
        let mut found: Vec<City> = Vec::new();
        let mut i: usize = 0;
        proof {
            reveal_with_fuel(Seq::<City>::filter, 2);
            assert(self.cities@.take(0) =~= Seq::<City>::empty());
            assert(city_records(found@) =~= Seq::<(i64, Seq<char>)>::empty());
            assert(city_records(self.cities@.take(0)) =~= Seq::<(i64, Seq<char>)>::empty());
            assert(city_records(self.cities@.take(0).filter(wanted_one)) =~= Seq::<
                (i64, Seq<char>),
            >::empty());
        }
        while i < self.cities.len()
            invariant
                i <= self.cities.len(),
                wanted_one == |c: City| ids@.contains(c.id),
                city_records(found@) == city_records(
                    self.cities@.take(i as int).filter(wanted_one),
                ),
                forall|k: int|
                    0 <= k < found@.len() ==> (#[trigger] found@[k]).airports@.len() == 0
                        && found@[k].comments@.len() == 0,
                forall|record: (i64, Seq<char>)| #[trigger]
                    city_records(found@).contains(record) <==> city_records(
                        self.cities@.take(i as int),
                    ).contains(record) && ids@.contains(record.0),
            decreases self.cities.len() - i,
        {
            let ghost before = found@;
            let ghost this = city_record(self.cities@[i as int]);
            let wanted = contains_id(&ids, self.cities[i].id);
            if wanted {
                found.push(
                    City {
                        id: self.cities[i].id,
                        name: self.cities[i].name.clone(),
                        airports: Vec::new(),
                        comments: Vec::new(),
                    },
                );
            }
            proof {
                reveal_with_fuel(Seq::<City>::filter, 2);
                let shorter = self.cities@.take(i as int);
                let longer = self.cities@.take(i + 1);
                assert(longer.drop_last() =~= shorter);
                assert(longer.last() == self.cities@[i as int]);
                assert(wanted_one(self.cities@[i as int]) == wanted);
                if wanted {
                    assert(city_records(longer.filter(wanted_one)) =~= city_records(
                        shorter.filter(wanted_one),
                    ).push(this));
                }
                assert(city_records(self.cities@.take(i + 1)) =~= city_records(
                    self.cities@.take(i as int),
                ).push(this));
                if wanted {
                    assert(city_records(found@) =~= city_records(before).push(this));
                }
                assert forall|record: (i64, Seq<char>)| #[trigger]
                    city_records(found@).contains(record) <==> city_records(
                        self.cities@.take(i + 1),
                    ).contains(record) && ids@.contains(record.0) by {
                    lemma_push_contains(city_records(self.cities@.take(i as int)), this, record);
                    lemma_push_contains(city_records(before), this, record);
                }
            }
            i += 1;
        }
        proof {
            assert(self.cities@.take(self.cities.len() as int) =~= self.cities@);
        }
        Ok(found)
    }
}

} // verus!
