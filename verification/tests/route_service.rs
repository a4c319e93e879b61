use std::sync::Arc;

use travel_advisor::api::dtos::{BestPathDto, PathStepType};
use travel_advisor::model::airport::Airport;
use travel_advisor::model::city::City;
use travel_advisor::model::route::Route;
use travel_advisor::services::route_service::{
    airport_ids, city_ids_of, new_route_service, touched_airport_ids,
};
use travel_advisor::storage::airport::AirportRepository;
use travel_advisor::storage::city::CityRepository;
use travel_advisor::storage::memory::{MemoryAirports, MemoryCities, MemoryRoutes};
use travel_advisor::storage::route::RouteRepository;
use travel_advisor::util::errors_v2::{ErrorCode, ErrorV2};

fn airport(id: i64, city_id: i64, name: &str) -> Airport {
    Airport { id, city_id, name: name.to_string() }
}

fn route(id: i64, start: i64, finish: i64, price: i64) -> Route {
    Route { id, start, finish, price }
}

fn airports() -> Vec<Airport> {
    vec![
        airport(11, 1, "A1"),
        airport(12, 1, "A2"),
        airport(21, 2, "B1"),
        airport(22, 2, "B2"),
        airport(31, 3, "C1"),
        airport(41, 4, "D1"),
        airport(42, 4, "D2"),
    ]
}

fn cities() -> Vec<City> {
    vec![
        City::new(1, "Aville".to_string()),
        City::new(2, "Btown".to_string()),
        City::new(3, "Cburg".to_string()),
        City::new(4, "Dport".to_string()),
        City::new(5, "Empty".to_string()),
    ]
}

fn find(routes: Vec<Route>, start: i64, finish: i64) -> Result<(Vec<Route>, Vec<Airport>, Vec<City>), ErrorV2> {
    let service = new_route_service(
        Arc::new(MemoryRoutes::new(routes)),
        Arc::new(MemoryAirports::new(airports())),
        Arc::new(MemoryCities::new(cities())),
    );
    service.find_cheapest_route(start, finish)
}

#[test]
fn cheapest_way_between_two_cities_with_what_it_touches() {
    let routes = vec![
        route(1, 11, 21, 10),
        route(2, 22, 42, 10),
        route(3, 11, 41, 30),
        route(4, 12, 31, 1),
    ];
    let (legs, touched, of_cities) = find(routes, 1, 4).unwrap();
    assert_eq!(vec![route(1, 11, 21, 10), route(2, 22, 42, 10)], legs);
    let ids: Vec<i64> = touched.iter().map(|a| a.id).collect();
    assert_eq!(vec![11, 21, 22, 42], ids);
    let names: Vec<&str> = of_cities.iter().map(|c| c.name.as_str()).collect();
    assert_eq!(vec!["Aville", "Btown", "Dport"], names);

    let path = BestPathDto::from_models(legs, touched, of_cities).unwrap();
    let kinds: Vec<(PathStepType, i64)> =
        path.steps.iter().map(|s| (s.step_type, s.airport_id)).collect();
    assert_eq!(
        vec![
            (PathStepType::Start, 11),
            (PathStepType::Flight, 21),
            (PathStepType::CityCommute, 22),
            (PathStepType::Flight, 42),
        ],
        kinds
    );
}

#[test]
fn journey_may_begin_at_a_sibling_of_the_first_airport() {
    let routes = vec![route(4, 12, 31, 1)];
    let (legs, touched, _) = find(routes, 1, 3).unwrap();
    assert_eq!(vec![route(4, 12, 31, 1)], legs);
    assert_eq!(vec![12, 31], touched.iter().map(|a| a.id).collect::<Vec<_>>());
}

fn no_route(result: Result<(Vec<Route>, Vec<Airport>, Vec<City>), ErrorV2>) {
    match result {
        Err(ErrorV2::NotFound(payload)) => {
            assert_eq!(ErrorCode::EntityNotFound, payload.get_code());
            assert_eq!("no route found", payload.get_description());
        }
        Err(other) => panic!("expected not found, got {:?}", other),
        Ok(_) => panic!("expected not found, got a journey"),
    }
}

#[test]
fn unconnected_cities_have_no_route() {
    no_route(find(vec![route(1, 11, 21, 10)], 1, 4));
    no_route(find(vec![], 1, 4));
}

#[test]
fn city_without_airports_has_no_route() {
    no_route(find(vec![route(1, 11, 21, 10)], 5, 2));
    no_route(find(vec![route(1, 11, 21, 10)], 1, 5));
    no_route(find(vec![route(1, 11, 21, 10)], 99, 2));
}

#[test]
fn helper_lists_are_sorted_and_without_repeats() {
    let routes = vec![route(1, 5, 3, 0), route(2, 3, 9, 0), route(3, 9, 5, 0)];
    assert_eq!(vec![3, 5, 9], touched_airport_ids(&routes));
    assert_eq!(Vec::<i64>::new(), touched_airport_ids(&vec![]));
    assert_eq!(vec![1, 2, 3, 4], city_ids_of(&airports()));
    assert_eq!(vec![11, 12, 21, 22, 31, 41, 42], airport_ids(&airports()));
}

#[test]
fn stores_in_memory_answer_as_asked() {
    let flights = MemoryRoutes::new(vec![
        route(1, 1, 2, 5),
        route(2, 1, 3, 5),
        route(3, 2, 3, 5),
        route(4, 4, 1, 5),
    ]);
    assert_eq!(
        vec![route(1, 1, 2, 5), route(2, 1, 3, 5), route(3, 2, 3, 5)],
        flights.find_by_start(vec![2, 1], None).unwrap()
    );
    assert_eq!(vec![route(1, 1, 2, 5)], flights.find_by_start(vec![1, 2], Some(vec![3])).unwrap());
    assert!(flights.find_by_start(vec![], None).unwrap().is_empty());

    let store = MemoryAirports::new(airports());
    let ids = |found: Vec<Airport>| found.iter().map(|a| a.id).collect::<Vec<_>>();
    assert_eq!(vec![21, 22], ids(store.get_by_city_id(2).unwrap()));
    assert!(store.get_by_city_id(9).unwrap().is_empty());
    assert_eq!(vec![12, 41], ids(store.get_by_ids(vec![41, 12, 77]).unwrap()));
    assert_eq!(vec![11, 12], store.get_ids_by_city_ids(vec![12]).unwrap());
    assert_eq!(vec![11, 12, 31], store.get_ids_by_city_ids(vec![31, 11]).unwrap());
    assert!(store.get_ids_by_city_ids(vec![77]).unwrap().is_empty());

    let store = MemoryCities::new(cities());
    let found = store.get_by_ids(vec![4, 2, 77]).unwrap();
    assert_eq!(vec![(2, "Btown"), (4, "Dport")], found.iter().map(|c| (c.id, c.name.as_str())).collect::<Vec<_>>());
}
