//! Data transfer objects, and the itinerary that a found journey is
//! presented as.

use vstd::prelude::*;
use vstd::string::StringExecFns;
use std::time::SystemTime;
use crate::model::airport::Airport;
use crate::model::city::City;
use crate::model::comment::Comment;
use crate::model::route::Route;
use crate::util::errors_v2::{ErrorCode, ErrorV2};
use crate::util::text::{decimal, i64_to_string};

verus! {

/// A transfer object that can be turned into the model `T`.
pub trait ToModel<T> {
    fn to_model(&self) -> T;
}

/// A transfer object that can be made from the model `T`.
pub trait FromModel<T>: Sized {
    fn from_model(model: &T) -> Self;
}

pub struct AirportDto {
    pub id: i64,
    pub city_id: i64,
    pub name: String,
}

impl FromModel<Airport> for AirportDto {
    fn from_model(a: &Airport) -> (dto: Self)
        ensures
            dto == (AirportDto { id: a.id, city_id: a.city_id, name: a.name }),
    {
        AirportDto { id: a.id, city_id: a.city_id, name: a.name.clone() }
    }
}

pub struct CityDto {
    pub id: i64,
    pub name: String,
    pub airports: Vec<AirportDto>,
}

impl FromModel<City> for CityDto {
    /// The city with each of its airports, in their order.
    fn from_model(c: &City) -> (dto: Self)
        ensures
            dto.id == c.id,
            dto.name == c.name,
            dto.airports@.len() == c.airports@.len(),
            forall|i: int|
                0 <= i < c.airports@.len() ==> #[trigger] dto.airports@[i] == (AirportDto {
                    id: c.airports@[i].id,
                    city_id: c.airports@[i].city_id,
                    name: c.airports@[i].name,
                }),
    {
        let mut airports: Vec<AirportDto> = Vec::new();
        let mut i: usize = 0;
        while i < c.airports.len()
            invariant
                i <= c.airports.len(),
                airports@.len() == i,
                forall|j: int|
                    0 <= j < i ==> #[trigger] airports@[j] == (AirportDto {
                        id: c.airports@[j].id,
                        city_id: c.airports@[j].city_id,
                        name: c.airports@[j].name,
                    }),
            decreases c.airports.len() - i,
        {
            airports.push(AirportDto::from_model(&c.airports[i]));
            i += 1;
        }
        CityDto { id: c.id, name: c.name.clone(), airports: airports }
    }
}

pub struct UserDto {
    pub id: i64,
    pub email: String,
    pub roles: Vec<String>,
}

pub struct LoginRequest {
    pub email: String,
    pub pass: String,
}

pub struct LoginResponse {
    pub id: i64,
    pub token: String,
}

pub struct CreateAirportDto {
    pub city_id: i64,
    pub name: String,
}

impl ToModel<Airport> for CreateAirportDto {
    /// The airport to be created; the store gives it its id.
    fn to_model(&self) -> (a: Airport)
        ensures
            a == (Airport { id: 0, city_id: self.city_id, name: self.name }),
    {
        Airport { id: 0, city_id: self.city_id, name: self.name.clone() }
    }
}

pub struct CommentDto {
    pub id: i64,
    pub user_id: i64,
    pub user_name: Option<String>,
    pub city_id: i64,
    pub content: String,
    pub created_at: SystemTime,
    pub updated_at: SystemTime,
}

impl CommentDto {
    /// The comment as it is sent; who wrote it is filled in elsewhere.
    pub fn from_model(c: &Comment) -> (dto: Self)
        ensures
            dto == (CommentDto {
                id: c.id,
                user_id: c.user_id,
                user_name: None,
                city_id: c.city_id,
                content: c.content,
                created_at: c.created_at,
                updated_at: c.updated_at,
            }),
    {
        CommentDto {
            id: c.id,
            user_id: c.user_id,
            user_name: None,
            city_id: c.city_id,
            content: c.content.clone(),
            created_at: c.created_at,
            updated_at: c.updated_at,
        }
    }

    pub fn to_model(&self) -> (c: Comment)
        ensures
            c == (Comment {
                id: self.id,
                user_id: self.user_id,
                city_id: self.city_id,
                content: self.content,
                created_at: self.created_at,
                updated_at: self.updated_at,
            }),
    {
        Comment {
            id: self.id,
            user_id: self.user_id,
            city_id: self.city_id,
            content: self.content.clone(),
            created_at: self.created_at,
            updated_at: self.updated_at,
        }
    }
}

pub struct RouteDto {
    pub id: i64,
    pub start: i64,
    pub finish: i64,
    pub price: i64,
}

impl FromModel<Route> for RouteDto {
    fn from_model(model: &Route) -> (dto: Self)
        ensures
            dto == (RouteDto {
                id: model.id,
                start: model.start,
                finish: model.finish,
                price: model.price,
            }),
    {
        RouteDto { id: model.id, start: model.start, finish: model.finish, price: model.price }
    }
}

pub struct SaveRouteDto {
    pub start: i64,
    pub finish: i64,
    pub price: i64,
}

pub struct CalculateCheapestRouteRequestDto {
    pub starting_city_id: i64,
    pub destination_city_id: i64,
}

pub struct AirportStopDto {
    pub id: i64,
    pub name: String,
    pub route_to_next: Option<RouteDto>,
}

pub struct PaginationQueryParam {
    pub offset: Option<String>,
    pub limit: Option<String>,
}

/// What a step of an itinerary is.
#[derive(Debug, Clone, Copy, PartialEq, Eq, Structural)]
pub enum PathStepType {
    /// Where the journey begins.
    Start,
    /// A flight; the step names the airport at which it lands.
    Flight,
    /// A change on the ground to another airport of the same city.
    CityCommute,
}

/// One step of an itinerary: an airport and its city and, for a flight,
/// which flight it is and what it costs.
pub struct PathStepDto {
    pub city_id: i64,
    pub city_name: String,
    pub airport_id: i64,
    pub airport_name: String,
    pub route_id: Option<i64>,
    pub price: Option<i64>,
    pub step_type: PathStepType,
}

/// A found journey, step by step.
pub struct BestPathDto {
    pub steps: Vec<PathStepDto>,
}

/// A step before its names are looked up.
pub struct StepPlan {
    pub airport_id: i64,
    pub route_id: Option<i64>,
    pub price: Option<i64>,
    pub step_type: PathStepType,
}

/// The step of landing by `route`.
pub open spec fn flight_step(route: Route) -> StepPlan {
    StepPlan {
        airport_id: route.finish,
        route_id: Some(route.id),
        price: Some(route.price),
        step_type: PathStepType::Flight,
    }
}

/// The step of being at `airport_id` without having flown there.
pub open spec fn ground_step(airport_id: i64, step_type: PathStepType) -> StepPlan {
    StepPlan { airport_id: airport_id, route_id: None, price: None, step_type: step_type }
}

/// The steps that the flight at position `i` adds: the first flight is
/// preceded by the start at its departure airport; a later flight that
/// leaves from another airport than the one where the flight before it
/// landed is preceded by a change on the ground to that airport.
pub open spec fn leg_plan(routes: Seq<Route>, i: int) -> Seq<StepPlan> {
    if i == 0 {
        seq![ground_step(routes[0].start, PathStepType::Start), flight_step(routes[0])]
    } else if routes[i].start != routes[i - 1].finish {
        seq![ground_step(routes[i].start, PathStepType::CityCommute), flight_step(routes[i])]
    } else {
        seq![flight_step(routes[i])]
    }
}

/// The steps of the whole journey.
pub open spec fn plan(routes: Seq<Route>) -> Seq<StepPlan>
    decreases routes.len(),
{
    if routes.len() == 0 {
        Seq::<StepPlan>::empty()
    } else {
        plan(routes.drop_last()) + leg_plan(routes, routes.len() - 1)
    }
}

/// The first of `airports` with the id `id`.
pub open spec fn airport_by_id(airports: Seq<Airport>, id: i64) -> Option<Airport>
    decreases airports.len(),
{
    if airports.len() == 0 {
        None
    } else if airports[0].id == id {
        Some(airports[0])
    } else {
        airport_by_id(airports.skip(1), id)
    }
}

/// The first of `cities` with the id `id`.
pub open spec fn city_by_id(cities: Seq<City>, id: i64) -> Option<City>
    decreases cities.len(),
{
    if cities.len() == 0 {
        None
    } else if cities[0].id == id {
        Some(cities[0])
    } else {
        city_by_id(cities.skip(1), id)
    }
}

/// What is said of an airport that was to be looked up and is not there.
pub open spec fn airport_not_found(id: i64) -> Seq<char> {
    "airport with ID="@ + decimal(id as int) + " not found"@
}

/// What is said of a city that was to be looked up and is not there.
pub open spec fn city_not_found(id: i64) -> Seq<char> {
    "city with ID="@ + decimal(id as int) + " not found"@
}

/// What is said where there is no flight to make an itinerary of.
pub open spec fn no_route_found() -> Seq<char> {
    "no route found"@
}

/// A step with the names of its airport and of the city of that airport,
/// or what is said of the one that is missing: the airport is looked up
/// first.
pub open spec fn decorated(step: StepPlan, airports: Seq<Airport>, cities: Seq<City>) -> Result<
    PathStepDto,
    Seq<char>,
> {
    match airport_by_id(airports, step.airport_id) {
        None => Err(airport_not_found(step.airport_id)),
        Some(airport) => match city_by_id(cities, airport.city_id) {
            None => Err(city_not_found(airport.city_id)),
            Some(city) => Ok(
                PathStepDto {
                    city_id: city.id,
                    city_name: city.name,
                    airport_id: step.airport_id,
                    airport_name: airport.name,
                    route_id: step.route_id,
                    price: step.price,
                    step_type: step.step_type,
                },
            ),
        },
    }
}

/// All steps with their names, or what is said of the first one that
/// misses one.
pub open spec fn decorated_all(steps: Seq<StepPlan>, airports: Seq<Airport>, cities: Seq<City>) -> Result<
    Seq<PathStepDto>,
    Seq<char>,
>
    decreases steps.len(),
{
    if steps.len() == 0 {
        Ok(Seq::<PathStepDto>::empty())
    } else {
        match decorated_all(steps.drop_last(), airports, cities) {
            Err(missing) => Err(missing),
            Ok(before) => match decorated(steps.last(), airports, cities) {
                Err(missing) => Err(missing),
                Ok(step) => Ok(before.push(step)),
            },
        }
    }
}

/// The itinerary of a journey by `routes`, in words of `airports` and
/// `cities`, or why there is none.
pub open spec fn itinerary(routes: Seq<Route>, airports: Seq<Airport>, cities: Seq<City>) -> Result<
    Seq<PathStepDto>,
    Seq<char>,
> {
    if routes.len() == 0 {
        Err(no_route_found())
    } else {
        decorated_all(plan(routes), airports, cities)
    }
}

/// Once a step misses a name, more steps change nothing.
pub proof fn lemma_missing_stays_missing(
    steps: Seq<StepPlan>,
    more: Seq<StepPlan>,
    airports: Seq<Airport>,
    cities: Seq<City>,
)
    requires
        decorated_all(steps, airports, cities) is Err,
    ensures
        decorated_all(steps + more, airports, cities) == decorated_all(steps, airports, cities),
    decreases more.len(),
{
    if more.len() == 0 {
        assert(steps + more =~= steps);
    } else {
        lemma_missing_stays_missing(steps, more.drop_last(), airports, cities);
        assert((steps + more).drop_last() =~= steps + more.drop_last());
    }
}

/// The plan of a journey begins with the plan of each of its beginnings:
/// what is returned is the rest.
pub proof fn lemma_plan_grows(routes: Seq<Route>, k: int) -> (more: Seq<StepPlan>)
    requires
        0 <= k <= routes.len(),
    ensures
        plan(routes) == plan(routes.take(k)) + more,
    decreases routes.len() - k,
{
    if k == routes.len() {
        assert(routes.take(k) =~= routes);
        assert(plan(routes) =~= plan(routes.take(k)) + Seq::<StepPlan>::empty());
        Seq::<StepPlan>::empty()
    } else {
        let rest = lemma_plan_grows(routes, k + 1);
        assert(routes.take(k + 1).drop_last() =~= routes.take(k));
        let leg = leg_plan(routes.take(k + 1), k);
        assert(plan(routes) =~= plan(routes.take(k)) + (leg + rest));
        leg + rest
    }
}

fn find_airport(airports: &Vec<Airport>, id: i64) -> (found: Option<&Airport>)
    ensures
        match found {
            Some(a) => airport_by_id(airports@, id) == Some(*a),
            None => airport_by_id(airports@, id) is None,
        },
{
    let mut i: usize = 0;
    proof {
        assert(airports@.skip(0) =~= airports@);
    }
    while i < airports.len()
        invariant
            i <= airports.len(),
            airport_by_id(airports@, id) == airport_by_id(airports@.skip(i as int), id),
        decreases airports.len() - i,
    {
        if airports[i].id == id {
            return Some(&airports[i]);
        }
        proof {
            assert(airports@.skip(i as int).skip(1) =~= airports@.skip(i + 1));
        }
        i += 1;
    }
    None
}

fn find_city(cities: &Vec<City>, id: i64) -> (found: Option<&City>)
    ensures
        match found {
            Some(c) => city_by_id(cities@, id) == Some(*c),
            None => city_by_id(cities@, id) is None,
        },
{
    let mut i: usize = 0;
    proof {
        assert(cities@.skip(0) =~= cities@);
    }
    while i < cities.len()
        invariant
            i <= cities.len(),
            city_by_id(cities@, id) == city_by_id(cities@.skip(i as int), id),
        decreases cities.len() - i,
    {
        if cities[i].id == id {
            return Some(&cities[i]);
        }
        proof {
            assert(cities@.skip(i as int).skip(1) =~= cities@.skip(i + 1));
        }
        i += 1;
    }
    None
}

/// `"<what> with ID=<id> not found"`.
fn not_found_message(what: &str, id: i64) -> (message: String)
    ensures
        message@ == what@ + " with ID="@ + decimal(id as int) + " not found"@,
{
    let mut message = String::from_str(what);
    message.append(" with ID=");
    message.append(i64_to_string(id).as_str());
    message.append(" not found");
    message
}

/// The step of the kind `step_type` at the airport `airport_id`, reached
/// by the flight `route` where it is a flight.
pub open spec fn step_plan(step_type: PathStepType, airport_id: i64, route: Option<&Route>) -> StepPlan {
    match route {
        Some(flown) => StepPlan {
            airport_id: airport_id,
            route_id: Some(flown.id),
            price: Some(flown.price),
            step_type: step_type,
        },
        None => ground_step(airport_id, step_type),
    }
}

/// Looks up the names for one step.
fn decorate(
    step_type: PathStepType,
    airport_id: i64,
    route: Option<&Route>,
    airports: &Vec<Airport>,
    cities: &Vec<City>,
) -> (r: Result<PathStepDto, ErrorV2>)
    ensures
        match r {
            Ok(step) => decorated(step_plan(step_type, airport_id, route), airports@, cities@)
                == Ok::<PathStepDto, Seq<char>>(step),
            Err(e) => {
                &&& e is NotFound
                &&& e.payload().code() == ErrorCode::EntityNotFound
                &&& decorated(step_plan(step_type, airport_id, route), airports@, cities@)
                    == Err::<PathStepDto, Seq<char>>(e.payload().description())
            },
        },
{
    proof {
        reveal_strlit("airport");
        reveal_strlit("city");
        reveal_strlit("airport with ID=");
        reveal_strlit("city with ID=");
        reveal_strlit(" with ID=");
    }
    let airport = match find_airport(airports, airport_id) {
        Some(found) => found,
        None => {
            let message = not_found_message("airport", airport_id);
            assert(message@ =~= airport_not_found(airport_id));
            return Err(ErrorV2::not_found(message));
        },
    };
    let city = match find_city(cities, airport.city_id) {
        Some(found) => found,
        None => {
            let message = not_found_message("city", airport.city_id);
            assert(message@ =~= city_not_found(airport.city_id));
            return Err(ErrorV2::not_found(message));
        },
    };
    let (route_id, price) = match route {
        Some(flown) => (Some(flown.id), Some(flown.price)),
        None => (None, None),
    };
    Ok(
        PathStepDto {
            city_id: city.id,
            city_name: city.name.clone(),
            airport_id: airport_id,
            airport_name: airport.name.clone(),
            route_id: route_id,
            price: price,
            step_type: step_type,
        },
    )
}

/// A step that misses a name makes the whole itinerary miss it, whatever
/// comes after.
proof fn lemma_step_missing(
    done: Seq<StepPlan>,
    step: StepPlan,
    after: Seq<StepPlan>,
    airports: Seq<Airport>,
    cities: Seq<City>,
)
    requires
        decorated_all(done, airports, cities) is Ok,
        decorated(step, airports, cities) is Err,
    ensures
        decorated_all(done.push(step) + after, airports, cities) == Err::<Seq<PathStepDto>, Seq<char>>(
            decorated(step, airports, cities)->Err_0,
        ),
{
    assert(done.push(step).drop_last() =~= done);
    lemma_missing_stays_missing(done.push(step), after, airports, cities);
}

/// A step that has its names adds itself to the itinerary so far.
proof fn lemma_step_found(
    done: Seq<StepPlan>,
    step: StepPlan,
    airports: Seq<Airport>,
    cities: Seq<City>,
)
    requires
        decorated_all(done, airports, cities) is Ok,
        decorated(step, airports, cities) is Ok,
    ensures
        decorated_all(done.push(step), airports, cities) == Ok::<Seq<PathStepDto>, Seq<char>>(
            decorated_all(done, airports, cities)->Ok_0.push(
                decorated(step, airports, cities)->Ok_0,
            ),
        ),
{
    assert(done.push(step).drop_last() =~= done);
}

impl BestPathDto {
    /// The itinerary of the journey by `routes`: the start at the airport
    /// from which the first flight leaves, then the flights in order, each
    /// with the airport at which it lands, and before each flight that
    /// leaves from another airport than the one just reached a change on
    /// the ground. The names are those of the first airport in `airports`
    /// and the first city in `cities` with the id in question.
    ///
    /// Fails with a not-found error where `routes` is empty, and where an
    /// airport or a city of the journey is not among those given: the
    /// error names the first that is missing.
    pub fn from_models(routes: Vec<Route>, airports: Vec<Airport>, cities: Vec<City>) -> (r: Result<
        BestPathDto,
        ErrorV2,
    >)
        ensures
            match r {
                Ok(path) => itinerary(routes@, airports@, cities@) == Ok::<
                    Seq<PathStepDto>,
                    Seq<char>,
                >(path.steps@),
                Err(e) => {
                    &&& e is NotFound
                    &&& e.payload().code() == ErrorCode::EntityNotFound
                    &&& itinerary(routes@, airports@, cities@) == Err::<
                        Seq<PathStepDto>,
                        Seq<char>,
                    >(e.payload().description())
                },
            },
    {
        if routes.len() == 0 {
            return Err(ErrorV2::not_found(String::from_str("no route found")));
        }
        let mut steps: Vec<PathStepDto> = Vec::new();
        let mut i: usize = 0;
        proof {
            assert(routes@.take(0) =~= Seq::<Route>::empty());
        }
        while i < routes.len()
            invariant
                i <= routes.len(),
                routes.len() > 0,
                decorated_all(plan(routes@.take(i as int)), airports@, cities@) == Ok::<
                    Seq<PathStepDto>,
                    Seq<char>,
                >(steps@),
            decreases routes.len() - i,
        {
            let route = &routes[i];
            let ghost done = plan(routes@.take(i as int));
            let ghost tail = lemma_plan_grows(routes@, i + 1);
            let ghost flight = flight_step(*route);
            proof {
                assert(routes@.take(i + 1).drop_last() =~= routes@.take(i as int));
                assert(leg_plan(routes@.take(i + 1), i as int) == leg_plan(routes@, i as int));
                assert(plan(routes@) == done + leg_plan(routes@, i as int) + tail);
            }
            let ghost mut so_far = done;
            if i == 0 || route.start != routes[i - 1].finish {
                let step_type = if i == 0 {
                    PathStepType::Start
                } else {
                    PathStepType::CityCommute
                };
                let ghost ground = ground_step(route.start, step_type);
                proof {
                    assert(leg_plan(routes@, i as int) =~= seq![ground, flight]);
                    assert(plan(routes@) =~= done.push(ground) + (seq![flight] + tail));
                }
                match decorate(step_type, route.start, None, &airports, &cities) {
                    Ok(step) => {
                        proof {
                            lemma_step_found(done, ground, airports@, cities@);
                            so_far = done.push(ground);
                        }
                        steps.push(step);
                    },
                    Err(err) => {
                        proof {
                            lemma_step_missing(
                                done,
                                ground,
                                seq![flight] + tail,
                                airports@,
                                cities@,
                            );
                        }
                        return Err(err);
                    },
                }
            } else {
                proof {
                    assert(leg_plan(routes@, i as int) =~= seq![flight]);
                }
            }
            proof {
                assert(plan(routes@) =~= so_far.push(flight) + tail);
                assert(plan(routes@.take(i + 1)) =~= so_far.push(flight));
            }
            match decorate(PathStepType::Flight, route.finish, Some(route), &airports, &cities) {
                Ok(step) => {
                    proof {
                        lemma_step_found(so_far, flight, airports@, cities@);
                    }
                    steps.push(step);
                },
                Err(err) => {
                    proof {
                        lemma_step_missing(so_far, flight, tail, airports@, cities@);
                    }
                    return Err(err);
                },
            }
            i += 1;
        }
        proof {
            assert(routes@.take(routes.len() as int) =~= routes@);
        }
        Ok(BestPathDto { steps: steps })
    }
}

} // verus!
