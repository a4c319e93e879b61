use std::sync::atomic::{AtomicUsize, Ordering};
use std::sync::Arc;

use travel_advisor::model::airport::Airport;
use travel_advisor::model::best_route::{decide_visit, BestRoute, Stop, StopStatus, Visit};
use travel_advisor::model::route::Route;
use travel_advisor::storage::airport::AirportRepository;
use travel_advisor::storage::memory::{MemoryAirports, MemoryRoutes};
use travel_advisor::storage::route::RouteRepository;
use travel_advisor::util::errors_v2::{ErrorCode, ErrorV2};

const A: i64 = 1;
const B: i64 = 2;
const C: i64 = 3;
const D: i64 = 4;

fn route(id: i64, start: i64, finish: i64, price: i64) -> Route {
    Route { id, start, finish, price }
}

/// One airport per city: the city of an airport has the airport's id times ten.
fn lone_airports(ids: &[i64]) -> Arc<MemoryAirports> {
    Arc::new(MemoryAirports::new(
        ids.iter()
            .map(|id| Airport { id: *id, city_id: id * 10, name: format!("airport {}", id) })
            .collect(),
    ))
}

fn search(
    routes: Vec<Route>,
    airports: Arc<MemoryAirports>,
    start: i64,
    destination: Vec<i64>,
) -> (Option<Vec<i64>>, Option<i64>, Vec<Route>) {
    let (mut finder, mut root) =
        BestRoute::new(start, destination, Arc::new(MemoryRoutes::new(routes)), airports);
    let path = finder.search_for_best_path(&mut root).expect("the stores in memory never fail");
    (path, finder.lowest_price(), finder.best_routes())
}

#[test]
fn direct_flight_loses_to_cheaper_connection() {
    let routes = vec![route(1, A, B, 10), route(2, B, D, 10), route(3, A, D, 30)];
    let (path, price, legs) = search(routes, lone_airports(&[A, B, D]), A, vec![D]);
    assert_eq!(Some(vec![A, B, D]), path);
    assert_eq!(Some(20), price);
    assert_eq!(vec![route(1, A, B, 10), route(2, B, D, 10)], legs);
}

#[test]
fn equal_first_legs_are_told_apart_by_the_second() {
    let routes =
        vec![route(1, A, B, 5), route(2, A, C, 5), route(3, B, D, 100), route(4, C, D, 5)];
    let (path, price, _) = search(routes, lone_airports(&[A, B, C, D]), A, vec![D]);
    assert_eq!(Some(vec![A, C, D]), path);
    assert_eq!(Some(10), price);
}

#[test]
fn unconnected_destination_is_no_route() {
    let routes = vec![route(1, A, B, 5), route(2, C, D, 5)];
    let (path, price, legs) = search(routes, lone_airports(&[A, B, C, D]), A, vec![D]);
    assert_eq!(None, path);
    assert_eq!(None, price);
    assert!(legs.is_empty());
}

#[test]
fn only_reachable_airport_of_destination_city_wins() {
    let d1 = 41;
    let d2 = 42;
    let airports = Arc::new(MemoryAirports::new(vec![
        Airport { id: A, city_id: 10, name: "A".to_string() },
        Airport { id: B, city_id: 20, name: "B".to_string() },
        Airport { id: d1, city_id: 40, name: "D1".to_string() },
        Airport { id: d2, city_id: 40, name: "D2".to_string() },
    ]));
    let routes = vec![route(1, A, B, 7), route(2, B, d2, 8)];
    let (path, price, _) = search(routes, airports, A, vec![d1, d2]);
    let path = path.expect("D2 can be reached");
    assert_eq!(Some(&d2), path.last());
    assert_eq!(vec![A, B, d2], path);
    assert_eq!(Some(15), price);
}

#[test]
fn start_at_destination_costs_nothing() {
    let routes = vec![route(1, A, B, 10)];
    let (path, price, legs) = search(routes, lone_airports(&[A, B]), A, vec![A]);
    assert_eq!(Some(vec![A]), path);
    assert_eq!(Some(0), price);
    assert!(legs.is_empty());
}

#[test]
fn ground_transfer_lets_the_journey_go_on_from_a_sibling_airport() {
    let b1 = 21;
    let b2 = 22;
    let airports = Arc::new(MemoryAirports::new(vec![
        Airport { id: A, city_id: 10, name: "A".to_string() },
        Airport { id: b1, city_id: 20, name: "B1".to_string() },
        Airport { id: b2, city_id: 20, name: "B2".to_string() },
        Airport { id: D, city_id: 40, name: "D".to_string() },
    ]));
    let routes = vec![route(1, A, b1, 3), route(2, b2, D, 4)];
    let (path, price, legs) = search(routes, airports, A, vec![D]);
    assert_eq!(Some(vec![A, b1, D]), path);
    assert_eq!(Some(7), price);
    assert_eq!(vec![route(1, A, b1, 3), route(2, b2, D, 4)], legs);
}

#[test]
fn cycles_are_not_followed() {
    let routes = vec![route(1, A, B, 1), route(2, B, A, 1), route(3, B, C, 1), route(4, C, B, 1)];
    let (path, price, _) = search(routes, lone_airports(&[A, B, C, D]), A, vec![D]);
    assert_eq!(None, path);
    assert_eq!(None, price);
}

#[test]
fn returned_path_visits_no_airport_twice() {
    let routes = vec![
        route(1, A, B, 1),
        route(2, B, A, 1),
        route(3, B, C, 1),
        route(4, C, A, 1),
        route(5, C, D, 1),
        route(6, A, C, 5),
    ];
    let (path, price, _) = search(routes, lone_airports(&[A, B, C, D]), A, vec![D]);
    let path = path.expect("D can be reached");
    let mut seen = path.clone();
    seen.sort();
    seen.dedup();
    assert_eq!(path.len(), seen.len());
    assert_eq!(Some(3), price);
}

#[test]
fn second_search_on_the_same_network_gives_the_same_price() {
    let routes = vec![
        route(1, A, B, 4),
        route(2, A, C, 4),
        route(3, B, D, 6),
        route(4, C, D, 6),
    ];
    let (_, first, _) = search(routes.clone(), lone_airports(&[A, B, C, D]), A, vec![D]);
    let mut reversed = routes;
    reversed.reverse();
    let (_, second, _) = search(reversed, lone_airports(&[A, B, C, D]), A, vec![D]);
    assert_eq!(Some(10), first);
    assert_eq!(first, second);
}

#[test]
fn searching_again_with_the_same_finder_changes_nothing() {
    let routes = vec![route(1, A, B, 10), route(2, B, D, 10), route(3, A, D, 30)];
    let (mut finder, mut root) = BestRoute::new(
        A,
        vec![D],
        Arc::new(MemoryRoutes::new(routes)),
        lone_airports(&[A, B, D]),
    );
    let first = finder.search_for_best_path(&mut root).unwrap();
    let price = finder.lowest_price();
    let second = finder.search_for_best_path(&mut root).unwrap();
    assert_eq!(first, second);
    assert_eq!(price, finder.lowest_price());
}

/// All simple paths, by exhaustive search: the cheapest price to any of `destination`.
fn brute_force(routes: &[Route], at: i64, seen: &mut Vec<i64>, paid: i64, destination: &[i64]) -> Option<i64> {
    let mut best = if destination.contains(&at) { Some(paid) } else { None };
    for r in routes {
        if r.start == at && !seen.contains(&r.finish) {
            seen.push(r.finish);
            if let Some(p) = brute_force(routes, r.finish, seen, paid + r.price, destination) {
                best = Some(best.map_or(p, |b: i64| b.min(p)));
            }
            seen.pop();
        }
    }
    best
}

#[test]
fn price_is_the_minimum_over_all_simple_paths() {
    let ids: Vec<i64> = (1..=5).collect();
    let mut seed: u64 = 0x2545F4914F6CDD1D;
    for _ in 0..60 {
        let mut routes = Vec::new();
        let mut id = 0;
        for &from in &ids {
            for &to in &ids {
                seed ^= seed << 13;
                seed ^= seed >> 7;
                seed ^= seed << 17;
                if from != to && seed % 3 == 0 {
                    id += 1;
                    routes.push(route(id, from, to, ((seed >> 8) % 20) as i64));
                }
            }
        }
        let expected = brute_force(&routes, 1, &mut vec![1], 0, &[5]);
        let (path, price, legs) = search(routes, lone_airports(&ids), 1, vec![5]);
        assert_eq!(expected, price);
        assert_eq!(expected.is_some(), path.is_some());
        assert_eq!(expected.unwrap_or(0), legs.iter().map(|r| r.price).sum::<i64>());
    }
}

#[test]
fn price_out_of_range_is_an_internal_error() {
    let routes = vec![route(1, A, B, i64::MAX), route(2, B, C, 1), route(3, C, D, 1)];
    let (mut finder, mut root) = BestRoute::new(
        A,
        vec![D],
        Arc::new(MemoryRoutes::new(routes)),
        lone_airports(&[A, B, C, D]),
    );
    match finder.search_for_best_path(&mut root) {
        Err(ErrorV2::Internal(payload)) => assert_eq!(ErrorCode::InternalError, payload.get_code()),
        other => panic!("expected an internal error, got {:?}", other),
    }
}

/// A store of flights that counts how often it is asked and can be told to fail.
struct CountingRoutes {
    routes: Vec<Route>,
    asked: AtomicUsize,
    fail: bool,
}

impl RouteRepository for CountingRoutes {
    fn find_by_start(
        &self,
        start: Vec<i64>,
        exclude_finishes: Option<Vec<i64>>,
    ) -> Result<Vec<Route>, ErrorV2> {
        self.asked.fetch_add(1, Ordering::SeqCst);
        if self.fail {
            return Err(ErrorV2::internal(ErrorCode::DbRead, "the store is down".to_string()));
        }
        Ok(self
            .routes
            .iter()
            .filter(|r| start.contains(&r.start))
            .filter(|r| match &exclude_finishes {
                Some(excluded) => !excluded.contains(&r.finish),
                None => true,
            })
            .cloned()
            .collect())
    }
}

#[test]
fn no_stop_is_expanded_once_its_price_cannot_beat_the_best() {
    // A -> D directly for 5; A -> B for 5 and A -> C for 9 lead on, but
    // from B and C nothing can be cheaper than 5 any more.
    let routes = vec![
        route(1, A, D, 5),
        route(2, A, B, 5),
        route(3, A, C, 9),
        route(4, B, D, 1),
        route(5, C, D, 1),
    ];
    let store = Arc::new(CountingRoutes { routes, asked: AtomicUsize::new(0), fail: false });
    let (mut finder, mut root) =
        BestRoute::new(A, vec![D], store.clone(), lone_airports(&[A, B, C, D]));
    let path = finder.search_for_best_path(&mut root).unwrap();
    assert_eq!(Some(vec![A, D]), path);
    assert_eq!(Some(5), finder.lowest_price());
    // Only the root was expanded: by the second round the best price was 5.
    assert_eq!(1, store.asked.load(Ordering::SeqCst));
}

#[test]
fn error_of_the_store_ends_the_search() {
    let store = Arc::new(CountingRoutes {
        routes: vec![route(1, A, D, 5)],
        asked: AtomicUsize::new(0),
        fail: true,
    });
    let (mut finder, mut root) = BestRoute::new(A, vec![D], store.clone(), lone_airports(&[A, D]));
    match finder.search_for_best_path(&mut root) {
        Err(ErrorV2::Internal(payload)) => {
            assert_eq!(ErrorCode::DbRead, payload.get_code());
            assert_eq!("the store is down", payload.get_description());
        }
        other => panic!("expected the error of the store, got {:?}", other),
    }
    assert_eq!(1, store.asked.load(Ordering::SeqCst));
}

#[test]
fn works_through_trait_objects() {
    let routes: Arc<dyn RouteRepository> =
        Arc::new(MemoryRoutes::new(vec![route(1, A, B, 2), route(2, B, D, 2)]));
    let airports: Arc<dyn AirportRepository> = lone_airports(&[A, B, D]);
    let (mut finder, mut root) = BestRoute::new(A, vec![D], routes, airports);
    assert_eq!(Some(vec![A, B, D]), finder.search_for_best_path(&mut root).unwrap());
    assert_eq!(Some(4), finder.lowest_price());
}

#[test]
fn visit_follows_the_table() {
    // a pruned stop is left alone, whatever else holds
    assert_eq!(Visit::Skip, decide_visit(StopStatus::Pruned, true, 1, None));
    assert_eq!(Visit::Skip, decide_visit(StopStatus::Pruned, false, 1, Some(100)));
    // at a destination the first price and every lower price is recorded
    assert_eq!(Visit::Record, decide_visit(StopStatus::Unexpanded, true, 7, None));
    assert_eq!(Visit::Record, decide_visit(StopStatus::Unexpanded, true, 7, Some(8)));
    assert_eq!(Visit::Record, decide_visit(StopStatus::Expanded, true, 7, Some(8)));
    // an equal price does not beat the best
    assert_eq!(Visit::Prune, decide_visit(StopStatus::Unexpanded, true, 8, Some(8)));
    assert_eq!(Visit::Prune, decide_visit(StopStatus::Unexpanded, false, 8, Some(8)));
    assert_eq!(Visit::Prune, decide_visit(StopStatus::Expanded, false, 9, Some(8)));
    // below the best price the search goes on
    assert_eq!(Visit::Expand, decide_visit(StopStatus::Unexpanded, false, 7, Some(8)));
    assert_eq!(Visit::Expand, decide_visit(StopStatus::Unexpanded, false, i64::MAX, None));
    assert_eq!(Visit::Descend, decide_visit(StopStatus::Expanded, false, 7, Some(8)));
    assert_eq!(Visit::Descend, decide_visit(StopStatus::Expanded, false, 7, None));
}

#[test]
fn nothing_is_expanded_at_or_above_the_best_price() {
    for status in [StopStatus::Unexpanded, StopStatus::Expanded, StopStatus::Pruned] {
        for at_destination in [false, true] {
            for price in [5, 6, 100] {
                let visit = decide_visit(status, at_destination, price, Some(5));
                assert!(visit == Visit::Skip || visit == Visit::Prune, "{:?}", visit);
            }
        }
    }
}

#[test]
fn root_is_the_traveller_at_the_start() {
    let (finder, root) = BestRoute::new(
        A,
        vec![D],
        Arc::new(MemoryRoutes::new(vec![])),
        lone_airports(&[A, D]),
    );
    assert_eq!(None, finder.lowest_price());
    assert!(finder.best_routes().is_empty());
    assert_eq!(StopStatus::Unexpanded, root.current_status());
    assert_eq!(0, root.accumulated_price());
    assert_eq!(route(0, 0, A, 0), root.incoming_route());
    assert!(root.destinations().is_empty());
}

#[test]
fn expanding_gives_each_flight_its_stop() {
    let (_, mut root) = BestRoute::new(
        A,
        vec![D],
        Arc::new(MemoryRoutes::new(vec![])),
        lone_airports(&[A, D]),
    );
    assert_eq!(Ok(true), root.expand(vec![route(1, A, B, 10), route(2, A, C, 25)]).map_err(|_| ()));
    assert_eq!(StopStatus::Expanded, root.current_status());
    assert_eq!(0, root.accumulated_price());
    let next = root.destinations();
    assert_eq!(2, next.len());
    assert_eq!((10, route(1, A, B, 10)), (next[0].accumulated_price(), next[0].incoming_route()));
    assert_eq!((25, route(2, A, C, 25)), (next[1].accumulated_price(), next[1].incoming_route()));
    assert_eq!(StopStatus::Unexpanded, next[0].current_status());
    assert!(next[1].destinations().is_empty());
}

#[test]
fn expanding_with_no_flight_prunes_the_stop() {
    let (_, mut root) = BestRoute::new(
        A,
        vec![D],
        Arc::new(MemoryRoutes::new(vec![])),
        lone_airports(&[A, D]),
    );
    assert_eq!(Ok(false), root.expand(vec![]).map_err(|_| ()));
    assert_eq!(StopStatus::Pruned, root.current_status());
    assert!(root.destinations().is_empty());
}

#[test]
fn expanding_past_the_range_of_prices_changes_nothing() {
    let (_, mut root) = BestRoute::new(
        A,
        vec![D],
        Arc::new(MemoryRoutes::new(vec![])),
        lone_airports(&[A, D]),
    );
    assert!(root.expand(vec![route(1, A, B, i64::MAX)]).is_ok());
    let far = root.destinations().len();
    assert_eq!(1, far);
    // below the stop that already costs the most, a flight at price 1 does not fit
    let (_, mut other) = BestRoute::new(
        A,
        vec![D],
        Arc::new(MemoryRoutes::new(vec![])),
        lone_airports(&[A, D]),
    );
    assert!(other.expand(vec![route(1, A, B, i64::MIN), route(2, A, C, 3)]).is_ok());
    assert_eq!(2, other.destinations().len());
    let routes = vec![route(1, A, B, i64::MAX), route(2, B, C, 1)];
    let (mut finder, mut root) = BestRoute::new(
        A,
        vec![D],
        Arc::new(MemoryRoutes::new(routes)),
        lone_airports(&[A, B, C, D]),
    );
    match finder.search_for_best_path(&mut root) {
        Err(ErrorV2::Internal(payload)) => {
            assert_eq!("the price of a journey is out of range", payload.get_description())
        }
        other => panic!("expected an internal error, got {:?}", other),
    }
    // the stop below which the price left the range is as it was
    assert_eq!(1, root.destinations().len());
    assert_eq!(StopStatus::Unexpanded, root.destinations()[0].current_status());
    assert!(root.destinations()[0].destinations().is_empty());
}

fn unexpanded_within_reach(stop: &Stop) -> bool {
    match stop.current_status() {
        StopStatus::Unexpanded => true,
        StopStatus::Pruned => false,
        StopStatus::Expanded => stop.destinations().iter().any(unexpanded_within_reach),
    }
}

#[test]
fn tree_is_settled_after_the_search() {
    let routes = vec![route(1, A, B, 10), route(2, B, D, 10), route(3, A, D, 30)];
    let (mut finder, mut root) = BestRoute::new(
        A,
        vec![D],
        Arc::new(MemoryRoutes::new(routes)),
        lone_airports(&[A, B, D]),
    );
    finder.search_for_best_path(&mut root).unwrap();
    assert!(!unexpanded_within_reach(&root));
    assert_eq!(StopStatus::Expanded, root.current_status());
    assert_eq!(2, root.destinations().len());
}

#[test]
fn search_gives_up_after_the_rounds_it_is_given() {
    // one round for each flight of the way, and one to see that it has arrived
    let routes = vec![route(1, A, B, 1), route(2, B, C, 1), route(3, C, D, 1)];
    let fresh = || {
        BestRoute::new(
            A,
            vec![D],
            Arc::new(MemoryRoutes::new(routes.clone())),
            lone_airports(&[A, B, C, D]),
        )
    };
    let (mut finder, mut root) = fresh();
    match finder.search_within(&mut root, 3) {
        Err(ErrorV2::Internal(payload)) => {
            assert_eq!(ErrorCode::InternalError, payload.get_code());
            assert_eq!("the search did not come to an end", payload.get_description());
        }
        other => panic!("expected the search to give up, got {:?}", other),
    }
    let (mut finder, mut root) = fresh();
    assert_eq!(Some(vec![A, B, C, D]), finder.search_within(&mut root, 4).unwrap());
    assert_eq!(Some(3), finder.lowest_price());
    let (mut finder, mut root) = fresh();
    assert!(finder.search_within(&mut root, 0).is_err());
}

#[test]
fn search_that_gave_up_can_be_taken_up_again() {
    let routes = vec![route(1, A, B, 1), route(2, B, C, 1), route(3, C, D, 1)];
    let (mut finder, mut root) = BestRoute::new(
        A,
        vec![D],
        Arc::new(MemoryRoutes::new(routes)),
        lone_airports(&[A, B, C, D]),
    );
    assert!(finder.search_within(&mut root, 2).is_err());
    assert_eq!(Some(vec![A, B, C, D]), finder.search_within(&mut root, 2).unwrap());
}
