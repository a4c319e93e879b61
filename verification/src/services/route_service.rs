//! From two cities to the flights of the cheapest journey between them.

use vstd::prelude::*;
use vstd::string::StringExecFns;
use std::sync::Arc;
use crate::model::airport::Airport;
use crate::model::best_route::{network_of, BestRoute, MAX_ROUNDS};
use crate::model::city::City;
use crate::model::network::{lemma_cheapest_from_every_sibling, total_price, Network};
use crate::model::common::{copy_fields, csv_rows, read_rows, FromStringRecord};
use crate::model::route::{route_of_fields, Route};
use crate::storage::airport::AirportRepository;
use crate::storage::city::{city_records, CityRepository};
use crate::storage::route::RouteRepository;
use crate::util::errors_v2::{has_context, ErrorCode, ErrorV2};
use crate::util::seqs::{insert_sorted, strictly_increasing};
use crate::util::text::{decimal, ids_to_string, list_text, u64_to_string};

verus! {

/// The ids of the airports of a city.
pub open spec fn city_airport_ids(airports: Seq<Airport>, city_id: i64) -> Set<i64> {
    Set::new(
        |id: i64|
            exists|i: int|
                0 <= i < airports.len() && (#[trigger] airports[i]).id == id && airports[i].city_id
                    == city_id,
    )
}

/// Whether one of `routes` leaves from or arrives at the airport `id`.
pub open spec fn touches(routes: Seq<Route>, id: i64) -> bool {
    exists|i: int|
        0 <= i < routes.len() && ((#[trigger] routes[i]).start == id || routes[i].finish == id)
}

/// Whether one of `airports` lies in the city `city_id`.
pub open spec fn has_airport_in(airports: Seq<Airport>, city_id: i64) -> bool {
    exists|i: int| 0 <= i < airports.len() && (#[trigger] airports[i]).city_id == city_id
}

/// What is said where the airports or cities with certain ids could not
/// be loaded.
pub open spec fn failed_to_get(what: Seq<char>, ids: Seq<i64>) -> Seq<char> {
    "failed to get "@ + what + " for IDs ("@ + list_text(ids) + ")"@
}

/// Whether a description is that of an error of a store, in the context
/// of the step at which the search for a route gave up.
pub open spec fn tells_failed_step(description: Seq<char>) -> bool {
    ||| has_context(description, "failed to load airports at starting city"@)
    ||| has_context(description, "failed to load airports at destination city"@)
    ||| has_context(description, "failed to calculate cheapest route"@)
    ||| exists|ids: Seq<i64>| #[trigger]
        has_context(description, failed_to_get("airports"@, ids))
    ||| exists|ids: Seq<i64>| #[trigger] has_context(description, failed_to_get("cities"@, ids))
}

/// `Arc::clone` of the standard library: another handle to the same value.
/// What is claimed is that the value behind the new handle is the one
/// behind the old.
#[verifier::external_body]
fn share<T: ?Sized>(handle: &Arc<T>) -> (other: Arc<T>)
    ensures
        other == *handle,
{
    Arc::clone(handle)
}

/// The ids of `airports`, in their order.
pub fn airport_ids(airports: &Vec<Airport>) -> (ids: Vec<i64>)
    ensures
        ids@ == airports@.map_values(|a: Airport| a.id),
{
    let mut ids: Vec<i64> = Vec::new();
    let mut i: usize = 0;
    while i < airports.len()
        invariant
            i <= airports.len(),
            ids@ == airports@.take(i as int).map_values(|a: Airport| a.id),
        decreases airports.len() - i,
    {
        ids.push(airports[i].id);
        proof {
            assert(airports@.take(i + 1).map_values(|a: Airport| a.id) =~= airports@.take(
                i as int,
            ).map_values(|a: Airport| a.id).push(airports@[i as int].id));
        }
        i += 1;
    }
    proof {
        assert(airports@.take(airports.len() as int) =~= airports@);
    }
    ids
}

/// The ids of the airports that `routes` touch, each once, in rising
/// order.
pub fn touched_airport_ids(routes: &Vec<Route>) -> (ids: Vec<i64>)
    ensures
        strictly_increasing(ids@),
        forall|id: i64| #[trigger] ids@.contains(id) <==> touches(routes@, id),
{
    let mut ids: Vec<i64> = Vec::new();
    let mut i: usize = 0;
    while i < routes.len()
        invariant
            i <= routes.len(),
            strictly_increasing(ids@),
            forall|id: i64| #[trigger] ids@.contains(id) <==> touches(routes@.take(i as int), id),
        decreases routes.len() - i,
    {
        let ghost before = ids@;
        insert_sorted(&mut ids, routes[i].start);
        let ghost between = ids@;
        insert_sorted(&mut ids, routes[i].finish);
        proof {
            let shorter = routes@.take(i as int);
            let longer = routes@.take(i + 1);
            assert forall|id: i64| #[trigger] ids@.contains(id) <==> touches(longer, id) by {
                assert(between.contains(id) <==> before.contains(id) || id == routes@[i as int].start);
                assert(before.contains(id) <==> touches(shorter, id));
                if touches(shorter, id) {
                    let k = choose|k: int|
                        0 <= k < shorter.len() && ((#[trigger] shorter[k]).start == id
                            || shorter[k].finish == id);
                    assert(longer[k] == shorter[k]);
                }
                if touches(longer, id) {
                    let k = choose|k: int|
                        0 <= k < longer.len() && ((#[trigger] longer[k]).start == id
                            || longer[k].finish == id);
                    if k < i {
                        assert(shorter[k] == longer[k]);
                    }
                }
                assert(longer[i as int] == routes@[i as int]);
            }
        }
        i += 1;
    }
    proof {
        assert(routes@.take(routes.len() as int) =~= routes@);
    }
    ids
}

/// The ids of the cities in which `airports` lie, each once, in rising
/// order.
pub fn city_ids_of(airports: &Vec<Airport>) -> (ids: Vec<i64>)
    ensures
        strictly_increasing(ids@),
        forall|id: i64| #[trigger] ids@.contains(id) <==> has_airport_in(airports@, id),
{
    let mut ids: Vec<i64> = Vec::new();
    let mut i: usize = 0;
    while i < airports.len()
        invariant
            i <= airports.len(),
            strictly_increasing(ids@),
            forall|id: i64| #[trigger]
                ids@.contains(id) <==> has_airport_in(airports@.take(i as int), id),
        decreases airports.len() - i,
    {
        let ghost before = ids@;
        insert_sorted(&mut ids, airports[i].city_id);
        proof {
            let shorter = airports@.take(i as int);
            let longer = airports@.take(i + 1);
            assert forall|id: i64| #[trigger] ids@.contains(id) <==> has_airport_in(
                longer,
                id,
            ) by {
                assert(before.contains(id) <==> has_airport_in(shorter, id));
                if has_airport_in(shorter, id) {
                    let k = choose|k: int|
                        0 <= k < shorter.len() && (#[trigger] shorter[k]).city_id == id;
                    assert(longer[k] == shorter[k]);
                }
                if has_airport_in(longer, id) {
                    let k = choose|k: int|
                        0 <= k < longer.len() && (#[trigger] longer[k]).city_id == id;
                    if k < i {
                        assert(shorter[k] == longer[k]);
                    }
                }
                assert(longer[i as int] == airports@[i as int]);
            }
        }
        i += 1;
    }
    proof {
        assert(airports@.take(airports.len() as int) =~= airports@);
    }
    ids
}

/// The service that answers what the cheapest way from one city to
/// another is.
pub struct RouteServiceImpl<
    R: RouteRepository + ?Sized,
    A: AirportRepository + ?Sized,
    C: CityRepository + ?Sized,
> {
    route_repo: Arc<R>,
    airport_repo: Arc<A>,
    city_repo: Arc<C>,
}

/// The service on top of three stores.
pub fn new_route_service<
    R: RouteRepository + ?Sized,
    A: AirportRepository + ?Sized,
    C: CityRepository + ?Sized,
>(route_repo: Arc<R>, airport_repo: Arc<A>, city_repo: Arc<C>) -> (service: Arc<
    RouteServiceImpl<R, A, C>,
>)
    ensures
        service.network() == network_of(&route_repo, &airport_repo),
        service.airports() == airport_repo.airports(),
        service.cities() == city_repo.cities(),
        service.stores_faithful() == (route_repo.faithful() && airport_repo.faithful()
            && city_repo.faithful()),
        service.stores_answer() == (route_repo.always_answers() && airport_repo.always_answers()
            && city_repo.always_answers()),
{
    Arc::new(
        RouteServiceImpl { route_repo: route_repo, airport_repo: airport_repo, city_repo: city_repo },
    )
}

impl<
    R: RouteRepository + ?Sized,
    A: AirportRepository + ?Sized,
    C: CityRepository + ?Sized,
> RouteServiceImpl<R, A, C> {
    /// The network of flights and ground transfers that the stores
    /// describe.
    pub closed spec fn network(&self) -> Network {
        network_of(&self.route_repo, &self.airport_repo)
    }

    /// The airports that the store knows.
    pub closed spec fn airports(&self) -> Seq<Airport> {
        self.airport_repo.airports()
    }

    /// The cities that the store knows.
    pub closed spec fn cities(&self) -> Seq<City> {
        self.city_repo.cities()
    }

    /// Whether all three stores vouch that they answer from what
    /// `network()`, `airports()` and `cities()` describe. What is said
    /// below of journeys is said of such stores.
    pub closed spec fn stores_faithful(&self) -> bool {
        &&& self.route_repo.faithful()
        &&& self.airport_repo.faithful()
        &&& self.city_repo.faithful()
    }

    /// Whether all three stores answer every query.
    pub closed spec fn stores_answer(&self) -> bool {
        &&& self.route_repo.always_answers()
        &&& self.airport_repo.always_answers()
        &&& self.city_repo.always_answers()
    }

    /// Every journey in the network has a price in the range of `i64`.
    pub open spec fn prices_fit(&self) -> bool {
        forall|start: i64, legs: Seq<Route>| #[trigger]
            self.network().is_journey(start, legs) ==> i64::MIN <= total_price(legs) <= i64::MAX
    }

    /// Nothing stands in the way of an answer: the stores are faithful
    /// and answer every query, every price fits, and there are fewer
    /// flights than a search has rounds.
    pub open spec fn dependable(&self) -> bool {
        &&& self.stores_faithful()
        &&& self.stores_answer()
        &&& self.prices_fit()
        &&& self.network().routes.len() + 2 <= MAX_ROUNDS
    }

    /// `routes` is a journey from the airport `from` of the city `start`
    /// to an airport of the city `finish`, and, where no price is
    /// negative, no journey from `from` to that city costs less.
    pub open spec fn is_answer(&self, start: i64, finish: i64, from: i64, routes: Seq<Route>) -> bool {
        &&& city_airport_ids(self.airports(), start).contains(from)
        &&& self.network().reaches(from, city_airport_ids(self.airports(), finish), routes)
        &&& self.network().prices_non_negative() ==> self.network().is_cheapest(
            from,
            city_airport_ids(self.airports(), finish),
            total_price(routes),
        )
    }

    /// `routes` is the cheapest journey from one of the airports of the
    /// city `start` to the city `finish`.
    pub open spec fn answers(&self, start: i64, finish: i64, routes: Seq<Route>) -> bool {
        exists|from: i64| #[trigger] self.is_answer(start, finish, from, routes)
    }

    /// Where no price is negative, an answer is the cheapest journey from
    /// every airport at which the traveller may depart from the same
    /// airports as at the one where the answer begins: which airport of
    /// the city the journey is counted from makes no difference.
    pub proof fn lemma_answer_holds_from_every_airport(
        &self,
        start: i64,
        finish: i64,
        from: i64,
        other: i64,
        routes: Seq<Route>,
    )
        requires
            self.is_answer(start, finish, from, routes),
            self.network().prices_non_negative(),
            (self.network().transfers)(from) == (self.network().transfers)(other),
            city_airport_ids(self.airports(), finish).contains(other) ==> city_airport_ids(
                self.airports(),
                finish,
            ).contains(from),
        ensures
            self.network().nothing_cheaper(
                other,
                city_airport_ids(self.airports(), finish),
                total_price(routes),
            ),
    {
        lemma_cheapest_from_every_sibling(
            self.network(),
            from,
            other,
            city_airport_ids(self.airports(), finish),
            total_price(routes),
        );
    }

    /// There is no way from the city `start` to the city `finish`: the
    /// one has no airport, or none of the flights lead from its airport
    /// `from` to the other.
    pub open spec fn is_no_way(&self, start: i64, finish: i64) -> bool {
        ||| city_airport_ids(self.airports(), start) =~= Set::<i64>::empty()
        ||| exists|from: i64|
            city_airport_ids(self.airports(), start).contains(from) && !self.network().connected(
                from,
                city_airport_ids(self.airports(), finish),
            )
    }

    /// The flights of the cheapest journey from the city `start` to the
    /// city `finish`, with the airports that they touch and the cities of
    /// those airports.
    ///
    /// The journey begins at the airport of `start` that the store names
    /// first; from there the traveller may change on the ground before
    /// the first flight. Where no journey leads to `finish`, and where
    /// `start` has no airport, the answer is a not-found error that says
    /// `no route found`. An error of a store ends the work and is
    /// returned with a word on what was being done.
    pub fn find_cheapest_route(&self, start: i64, finish: i64) -> (r: Result<
        (Vec<Route>, Vec<Airport>, Vec<City>),
        ErrorV2,
    >)
        ensures
            self.stores_faithful() ==> (r matches Ok(found) ==> {
                &&& self.answers(start, finish, found.0@)
                &&& forall|a: Airport| #[trigger]
                    found.1@.contains(a) <==> self.airports().contains(a) && touches(found.0@, a.id)
                &&& forall|record: (i64, Seq<char>)| #[trigger]
                    city_records(found.2@).contains(record) <==> city_records(
                        self.cities(),
                    ).contains(record) && has_airport_in(found.1@, record.0)
            }),
            self.dependable() ==> match r {
                Ok(_) => true,
                Err(e) => {
                    &&& e is NotFound
                    &&& e.payload().description() == "no route found"@
                    &&& self.is_no_way(start, finish)
                },
            },
            r matches Err(e) ==> {
                ||| e is NotFound && e.payload().description() == "no route found"@
                ||| tells_failed_step(e.payload().description())
            },
    {
        let start_airports = match self.airport_repo.get_by_city_id(start) {
            Ok(airports) => airports,
            Err(err) => {
                return Err(err.wrap_str("failed to load airports at starting city"));
            },
        };
        let finish_airports = match self.airport_repo.get_by_city_id(finish) {
            Ok(airports) => airports,
            Err(err) => {
                return Err(err.wrap_str("failed to load airports at destination city"));
            },
        };
        let ghost known = self.airports();
        let ghost faithful = self.stores_faithful();
        if start_airports.len() == 0 {
            proof {
                assert forall|id: i64| faithful implies !city_airport_ids(known, start).contains(
                    id,
                ) by {
                    if city_airport_ids(known, start).contains(id) {
                        let i = choose|i: int|
                            0 <= i < known.len() && (#[trigger] known[i]).id == id
                                && known[i].city_id == start;
                        assert(known.contains(known[i]));
                        assert(start_airports@.contains(known[i]));
                    }
                }
            }
            return Err(ErrorV2::not_found(String::from_str("no route found")));
        }
        let from = start_airports[0].id;
        let destination = airport_ids(&finish_airports);
        let ghost goal = city_airport_ids(known, finish);
        proof {
            if faithful {
            assert(start_airports@.contains(start_airports@[0]));
            let first = start_airports@[0];
            let w = choose|w: int| 0 <= w < known.len() && known[w] == first;
            assert(city_airport_ids(known, start).contains(from));
            assert forall|id: i64| destination@.to_set().contains(id) <==> goal.contains(id) by {
                if destination@.contains(id) {
                    let k = choose|k: int| 0 <= k < destination@.len() && destination@[k] == id;
                    assert(finish_airports@.contains(finish_airports@[k]));
                    let j = choose|j: int| 0 <= j < known.len() && known[j] == finish_airports@[k];
                    assert(known[j].id == id);
                }
                if goal.contains(id) {
                    let j = choose|j: int|
                        0 <= j < known.len() && (#[trigger] known[j]).id == id && known[j].city_id
                            == finish;
                    assert(known.contains(known[j]));
                    assert(finish_airports@.contains(known[j]));
                    let k = choose|k: int|
                        0 <= k < finish_airports@.len() && finish_airports@[k] == known[j];
                    assert(destination@[k] == id);
                }
            }
            assert(destination@.to_set() =~= goal);
            }
        }
        let (mut finder, mut root) = BestRoute::new(
            from,
            destination,
            share(&self.route_repo),
            share(&self.airport_repo),
        );
        proof {
            assert(finder.network() == self.network());
            assert forall|legs: Seq<Route>| #[trigger]
                finder.network().is_journey(finder.start(), legs) && self.prices_fit() implies i64::MIN
                <= total_price(legs) <= i64::MAX by {
                assert(self.network().is_journey(from, legs));
            }
        }
        match finder.search_for_best_path(&mut root) {
            Ok(Some(_)) => {},
            Ok(None) => {
                return Err(ErrorV2::not_found(String::from_str("no route found")));
            },
            Err(err) => {
                return Err(err.wrap_str("failed to calculate cheapest route"));
            },
        }
        let routes = finder.best_routes();
        let airport_ids = touched_airport_ids(&routes);
        let message = ids_to_string(&airport_ids);
        let airports = match self.airport_repo.get_by_ids(airport_ids) {
            Ok(airports) => airports,
            Err(err) => {
                let mut context = String::from_str("failed to get airports for IDs (");
                context.append(message.as_str());
                context.append(")");
                proof {
                    reveal_strlit("failed to get airports for IDs (");
                    reveal_strlit("failed to get ");
                    reveal_strlit("airports");
                    reveal_strlit(" for IDs (");
                    assert(context@ =~= failed_to_get("airports"@, airport_ids@));
                }
                return Err(err.wrap(context));
            },
        };
        let city_ids = city_ids_of(&airports);
        let message = ids_to_string(&city_ids);
        let cities = match self.city_repo.get_by_ids(city_ids) {
            Ok(cities) => cities,
            Err(err) => {
                let mut context = String::from_str("failed to get cities for IDs (");
                context.append(message.as_str());
                context.append(")");
                proof {
                    reveal_strlit("failed to get cities for IDs (");
                    reveal_strlit("failed to get ");
                    reveal_strlit("cities");
                    reveal_strlit(" for IDs (");
                    assert(context@ =~= failed_to_get("cities"@, city_ids@));
                }
                return Err(err.wrap(context));
            },
        };
        proof {
            if faithful {
                assert(self.is_answer(start, finish, from, routes@));
            }
        }
        Ok((routes, airports, cities))
    }
}

/// The flights that a CSV text describes, as far as it could be read, and
/// why the reading stopped where it did not get to the end.
pub struct RoutesRead {
    pub routes: Vec<Route>,
    pub failure: Option<ErrorV2>,
}

/// What is said where the reading of rows stops early: how many rows were
/// dealt with, and what is wrong with the next.
pub open spec fn processed_message(count: int, problem: Seq<char>) -> Seq<char> {
    "only pocessed "@ + decimal(count) + ": malformed CSV: "@ + problem
}

/// How many rows stand before the first that cannot be read or does not
/// describe a flight.
pub open spec fn good_rows(rows: Seq<Result<Seq<Seq<char>>, Seq<char>>>) -> int
    decreases rows.len(),
{
    if rows.len() == 0 {
        0
    } else {
        match rows[0] {
            Ok(fields) => if route_of_fields(fields) is Ok {
                1 + good_rows(rows.skip(1))
            } else {
                0
            },
            Err(_) => 0,
        }
    }
}

/// What is wrong with the first row that is not good: the message of why
/// it cannot be read, or, where its fields hold no flight, the kind of the
/// error that says so.
pub open spec fn first_problem(rows: Seq<Result<Seq<Seq<char>>, Seq<char>>>) -> Option<Seq<char>> {
    let n = good_rows(rows);
    if n >= rows.len() {
        None
    } else {
        match rows[n] {
            Err(problem) => Some(problem),
            Ok(_) => Some("internal"@),
        }
    }
}

fn stopped_after(count: usize, problem: &str) -> (e: ErrorV2)
    ensures
        e is Internal,
        e.payload().code() == ErrorCode::TextRowParse,
        e.payload().description() == processed_message(count as int, problem@),
{
    let mut message = String::from_str("only pocessed ");
    message.append(u64_to_string(count as u64).as_str());
    message.append(": malformed CSV: ");
    message.append(problem);
    ErrorV2::internal(ErrorCode::TextRowParse, message)
}

/// The flights that the rows of a CSV text describe, in order, up to the
/// first row that cannot be read or does not describe a flight. Each row
/// after the header holds the start, the finish and the price of a flight.
pub fn read_routes(sv_text: &[u8]) -> (read: RoutesRead)
    ensures
        read.routes@.len() == good_rows(csv_rows(sv_text@)),
        forall|i: int|
            0 <= i < read.routes@.len() ==> ((#[trigger] csv_rows(sv_text@)[i]) matches Ok(fields)
                && route_of_fields(fields) == Ok::<Route, Seq<char>>(read.routes@[i])),
        match first_problem(csv_rows(sv_text@)) {
            None => read.failure is None,
            Some(problem) => (read.failure matches Some(e) && e is Internal && e.payload().code()
                == ErrorCode::TextRowParse && e.payload().description() == processed_message(
                read.routes@.len() as int,
                problem,
            )),
        },
{
    let ghost all = csv_rows(sv_text@);
    let rows = read_rows(sv_text);
    let mut routes: Vec<Route> = Vec::new();
    let mut i: usize = 0;
    proof {
        assert(all.skip(0) =~= all);
    }
    while i < rows.rows.len()
        invariant
            i <= rows.rows@.len() <= all.len(),
            routes@.len() == i,
            all == csv_rows(sv_text@),
            forall|k: int|
                0 <= k < rows.rows@.len() ==> Ok::<Seq<Seq<char>>, Seq<char>>(
                    (#[trigger] rows.rows@[k])@.map_values(|f: String| f@),
                ) == all[k],
            good_rows(all) == i + good_rows(all.skip(i as int)),
            forall|k: int|
                0 <= k < i ==> ((#[trigger] all[k]) matches Ok(fields) && route_of_fields(fields)
                    == Ok::<Route, Seq<char>>(routes@[k])),
        decreases rows.rows.len() - i,
    {
        proof {
            assert(all.skip(i as int)[0] == all[i as int]);
            assert(all.skip(i as int).skip(1) =~= all.skip(i + 1));
            assert(all[i as int] == Ok::<Seq<Seq<char>>, Seq<char>>(
                rows.rows@[i as int]@.map_values(|f: String| f@),
            ));
        }
        match Route::from_string_record(copy_fields(&rows.rows[i])) {
            Ok(route) => {
                routes.push(route);
            },
            Err(err) => {
                let failure = stopped_after(i, err.to_string().as_str());
                return RoutesRead { routes: routes, failure: Some(failure) };
            },
        }
        i += 1;
    }
    proof {
        if i < all.len() {
            assert(all.skip(i as int)[0] == all[i as int]);
        }
    }
    let failure = match &rows.problem {
        Some(problem) => Some(stopped_after(i, problem.as_str())),
        None => None,
    };
    RoutesRead { routes: routes, failure: failure }
}

} // verus!
