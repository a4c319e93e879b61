//! What the interface asks of the services.

use vstd::prelude::*;
use crate::model::airport::Airport;
use crate::model::city::City;
use crate::model::comment::Comment;
use crate::model::route::Route;
use crate::model::user::User;
use crate::util::errors_v2::ErrorV2;

verus! {

/// Cities and what belongs to them.
pub trait CityService {
    fn get_all(&self) -> Result<Vec<City>, ErrorV2>;

    /// The city with its airports.
    fn get_full(&self, id: i64) -> Result<Option<City>, ErrorV2>;

    fn new(&self, name: String) -> Result<City, ErrorV2>;

    /// Adds a city for each row of a CSV text.
    fn save_cities(&self, sv_text: &[u8]) -> Result<(), ErrorV2>;
}

/// Airports.
pub trait AirportService {
    fn get_all(&self) -> Result<Vec<Airport>, ErrorV2>;

    fn get_by_id(&self, id: i64) -> Result<Option<Airport>, ErrorV2>;

    fn create(&self, airport: Airport) -> Result<Airport, ErrorV2>;

    fn update(&self, airport: Airport) -> Result<(), ErrorV2>;

    fn delete(&self, id: i64) -> Result<(), ErrorV2>;

    /// Adds an airport for each row of a CSV text.
    fn save_airports(&self, sv_text: &[u8]) -> Result<(), ErrorV2>;
}

/// Comments on cities.
pub trait CommentService {
    fn create(&self, user_id: i64, comment: Comment) -> Result<Comment, ErrorV2>;

    fn update(&self, user_id: i64, comment: Comment) -> Result<Comment, ErrorV2>;

    fn delete(&self, id: i64, user: User) -> Result<(), ErrorV2>;

    fn list_for_city(&self, city_id: i64) -> Result<Vec<Comment>, ErrorV2>;

    fn list_for_user(&self, user_id: i64) -> Result<Vec<Comment>, ErrorV2>;

    fn get_by_id(&self, id: i64) -> Result<Option<Comment>, ErrorV2>;
}

/// Flights, and the cheapest way from city to city.
pub trait RouteService {
    fn get_all(&self, offset: i64, limit: i64) -> Result<Vec<Route>, ErrorV2>;

    fn find_by_id(&self, id: i64) -> Result<Option<Route>, ErrorV2>;

    /// Adds a flight for each row of a CSV text.
    fn save_routes(&self, sv_text: &[u8]) -> Result<(), ErrorV2>;

    fn update(&self, route: Route) -> Result<(), ErrorV2>;

    fn delete(&self, id: i64) -> Result<(), ErrorV2>;

    /// The flights of the cheapest journey from one city to another, with
    /// the airports and cities that they touch.
    fn find_cheapest_route(&self, start: i64, finish: i64) -> Result<
        (Vec<Route>, Vec<Airport>, Vec<City>),
        ErrorV2,
    >;
}

} // verus!
