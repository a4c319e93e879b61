//! The search for the cheapest journey between two cities.

use vstd::prelude::*;
use std::sync::Arc;
use crate::model::network::{
    last_stop, lemma_cheapest_price_is_unique, lemma_journey_length, lemma_journey_prefix,
    lemma_journey_stops_distinct, lemma_prefix_costs_no_more, lemma_stops_push, stops,
    total_price, Network,
};
use crate::model::route::Route;
use crate::storage::airport::AirportRepository;
use crate::storage::route::RouteRepository;
use crate::util::errors_v2::{ErrorCode, ErrorV2};

verus! {

/// How far the search has come with a stop.
#[derive(Debug, Clone, Copy, PartialEq, Eq, Structural)]
pub enum StopStatus {
    /// Reached, but the flights that leave from here were not asked for yet.
    Unexpanded,
    /// The flights that leave from here were asked for: each has its stop
    /// among `destinations`.
    Expanded,
    /// Nothing below this stop can improve on what is known.
    Pruned,
}

/// What a visit does with a stop.
#[derive(Debug, Clone, Copy, PartialEq, Eq, Structural)]
pub enum Visit {
    /// Nothing: the stop was pruned before.
    Skip,
    /// The stop is at a destination and beats the best price: its journey
    /// becomes the best, and the stop is pruned.
    Record,
    /// The stop cannot beat the best price: it is pruned.
    Prune,
    /// The flights that leave from the stop are fetched.
    Expand,
    /// The visit goes on with the stops one flight further on.
    Descend,
}

/// What a visit does with a stop of the status `status` and the price
/// `price`, which is or is not at a destination, when `best` is the best
/// price known.
pub open spec fn visit_of(
    status: StopStatus,
    at_destination: bool,
    price: i64,
    best: Option<i64>,
) -> Visit {
    if status == StopStatus::Pruned {
        Visit::Skip
    } else if at_destination && (best matches Some(b) ==> price < b) {
        Visit::Record
    } else if best matches Some(b) && b <= price {
        Visit::Prune
    } else if status == StopStatus::Unexpanded {
        Visit::Expand
    } else {
        Visit::Descend
    }
}

/// Decides what a visit does with a stop.
pub fn decide_visit(
    status: StopStatus,
    at_destination: bool,
    price: i64,
    best: Option<i64>,
) -> (visit: Visit)
    ensures
        visit == visit_of(status, at_destination, price, best),
{
    if status == StopStatus::Pruned {
        return Visit::Skip;
    }
    let beaten = match best {
        Some(b) => b <= price,
        None => false,
    };
    if at_destination && !beaten {
        Visit::Record
    } else if beaten {
        Visit::Prune
    } else if status == StopStatus::Unexpanded {
        Visit::Expand
    } else {
        Visit::Descend
    }
}

/// A stop whose price is not lower than the best price known is never
/// expanded, and the visit never goes below it: it is pruned, if it was
/// not before.
pub proof fn lemma_no_expansion_at_best_price(
    status: StopStatus,
    at_destination: bool,
    price: i64,
    best: i64,
)
    requires
        best <= price,
    ensures
        visit_of(status, at_destination, price, Some(best)) == Visit::Skip || visit_of(
            status,
            at_destination,
            price,
            Some(best),
        ) == Visit::Prune,
{
}

/// A stop of the search tree: the traveller has arrived at an airport by a
/// certain flight, having paid a certain sum since the start.
pub struct Stop {
    accumulated_price: i64,
    incomming_route: Route,
    destinations: Vec<Stop>,
    status: StopStatus,
}

impl Stop {
    /// The airport at which the traveller stands.
    pub closed spec fn airport(&self) -> i64 {
        self.incomming_route.finish
    }

    /// What the traveller has paid since the start.
    pub closed spec fn price(&self) -> int {
        self.accumulated_price as int
    }

    /// How far the search has come with the stop.
    pub closed spec fn status(&self) -> StopStatus {
        self.status
    }

    /// The stops one flight further on.
    pub closed spec fn next(&self) -> Seq<Stop> {
        self.destinations@
    }

    /// The tree below the stop is in order for a traveller who came to the
    /// stop by `legs`: `legs` is a journey that ends here at the price kept
    /// here; a stop not looked at has no stops below it; below an expanded
    /// stop, which is never at a destination, every flight that can be
    /// taken from here has its stop, and each of those is in order in its
    /// turn; and a pruned stop either cannot beat the best price `best` or
    /// is a dead end away from the destination.
    pub closed spec fn tree_ok(
        &self,
        net: Network,
        start: i64,
        destination: Set<i64>,
        legs: Seq<Route>,
        best: Option<i64>,
    ) -> bool
        decreases self,
    {
        &&& net.is_journey(start, legs)
        &&& self.incomming_route.finish == last_stop(start, legs)
        &&& legs.len() > 0 ==> self.incomming_route == legs.last()
        &&& self.accumulated_price == total_price(legs)
        &&& match self.status {
            StopStatus::Unexpanded => self.destinations.len() == 0,
            StopStatus::Expanded => {
                &&& !destination.contains(self.incomming_route.finish)
                &&& forall|r: Route| #[trigger]
                    net.can_fly(self.incomming_route.finish, stops(start, legs), r) ==> exists|
                        i: int,
                    |
                        0 <= i < self.destinations.len() && (
                        #[trigger] self.destinations[i]).incomming_route == r
                &&& forall|i: int|
                    0 <= i < self.destinations.len() ==> (#[trigger] self.destinations[i]).tree_ok(
                        net,
                        start,
                        destination,
                        legs.push(self.destinations[i].incomming_route),
                        best,
                    )
            },
            StopStatus::Pruned => {
                ||| (best matches Some(b) && b <= self.accumulated_price)
                ||| (!destination.contains(self.incomming_route.finish) && forall|r: Route|
                    !#[trigger] net.can_fly(self.incomming_route.finish, stops(start, legs), r))
            },
        }
    }

    /// Once every stop down to a depth has been looked at, none of them is
    /// left unexpanded. Depth 0 asks nothing.
    pub closed spec fn settled_to(&self, depth: nat) -> bool
        decreases self,
    {
        depth == 0 || match self.status {
            StopStatus::Unexpanded => false,
            StopStatus::Pruned => true,
            StopStatus::Expanded => forall|i: int|
                0 <= i < self.destinations.len() ==> (#[trigger] self.destinations[i]).settled_to(
                    (depth - 1) as nat,
                ),
        }
    }

    /// No stop that the search can still get to is left unexpanded.
    pub closed spec fn settled(&self) -> bool
        decreases self,
    {
        match self.status {
            StopStatus::Unexpanded => false,
            StopStatus::Pruned => true,
            StopStatus::Expanded => forall|i: int|
                0 <= i < self.destinations.len() ==> (#[trigger] self.destinations[i]).settled(),
        }
    }
}

/// Whether `id` is one of `ids`.
pub fn contains_id(ids: &Vec<i64>, id: i64) -> (found: bool)
    ensures
        found == ids@.contains(id),
{
    let mut i: usize = 0;
    while i < ids.len()
        invariant
            i <= ids.len(),
            forall|j: int| 0 <= j < i ==> ids@[j] != id,
        decreases ids.len() - i,
    {
        if ids[i] == id {
            return true;
        }
        i += 1;
    }
    false
}

/// What a visit of a stop is told: how the traveller got there.
pub struct DoExpandInput {
    /// The airports visited so far, the stop's own last.
    pub previous_stops: Vec<i64>,
    /// The flights taken so far, the stop's own last.
    pub previous_routes: Vec<Route>,
}

impl DoExpandInput {
    /// The same way, one flight further.
    pub fn extended(&self, route: Route) -> (next: DoExpandInput)
        ensures
            next.previous_stops@ == self.previous_stops@.push(route.finish),
            next.previous_routes@ == self.previous_routes@.push(route),
    {
        let mut previous_stops = copy_ids(&self.previous_stops);
        previous_stops.push(route.finish);
        let mut previous_routes = copy_routes(&self.previous_routes);
        previous_routes.push(route);
        DoExpandInput { previous_stops, previous_routes }
    }
}

/// A list with the same ids.
pub fn copy_ids(ids: &Vec<i64>) -> (copy: Vec<i64>)
    ensures
        copy@ == ids@,
{
    let mut copy: Vec<i64> = Vec::new();
    let mut i: usize = 0;
    while i < ids.len()
        invariant
            i <= ids.len(),
            copy@ == ids@.take(i as int),
        decreases ids.len() - i,
    {
        copy.push(ids[i]);
        assert(ids@.take(i + 1) =~= ids@.take(i as int).push(ids@[i as int]));
        i += 1;
    }
    assert(ids@.take(ids.len() as int) =~= ids@);
    copy
}

/// A list with the same flights.
pub fn copy_routes(routes: &Vec<Route>) -> (copy: Vec<Route>)
    ensures
        copy@ == routes@,
{
    let mut copy: Vec<Route> = Vec::new();
    let mut i: usize = 0;
    while i < routes.len()
        invariant
            i <= routes.len(),
            copy@ == routes@.take(i as int),
        decreases routes.len() - i,
    {
        copy.push(routes[i]);
        assert(routes@.take(i + 1) =~= routes@.take(i as int).push(routes@[i as int]));
        i += 1;
    }
    assert(routes@.take(routes.len() as int) =~= routes@);
    copy
}

/// Whether the price `after` is as good as the price `before` or better. No
/// price is the worst.
pub open spec fn improves(before: Option<i64>, after: Option<i64>) -> bool {
    match before {
        None => true,
        Some(b) => after matches Some(a) && a <= b,
    }
}

/// A tree that was in order stays in order when a better price is found.
proof fn lemma_tree_ok_improves(
    stop: Stop,
    net: Network,
    start: i64,
    destination: Set<i64>,
    legs: Seq<Route>,
    before: Option<i64>,
    after: Option<i64>,
)
    requires
        stop.tree_ok(net, start, destination, legs, before),
        improves(before, after),
    ensures
        stop.tree_ok(net, start, destination, legs, after),
    decreases stop,
{
    if stop.status == StopStatus::Expanded {
        assert forall|i: int| 0 <= i < stop.destinations.len() implies (
        #[trigger] stop.destinations[i]).tree_ok(
            net,
            start,
            destination,
            legs.push(stop.destinations[i].incomming_route),
            after,
        ) by {
            lemma_tree_ok_improves(
                stop.destinations[i],
                net,
                start,
                destination,
                legs.push(stop.destinations[i].incomming_route),
                before,
                after,
            );
        }
    }
}

/// In a settled tree, a journey to the destination that passes the stop
/// shows that a best price is known, and, where no price is negative, that
/// the journey costs at least that.
proof fn lemma_settled_tree_bounds(
    stop: Stop,
    net: Network,
    start: i64,
    destination: Set<i64>,
    legs: Seq<Route>,
    best: Option<i64>,
    journey: Seq<Route>,
)
    requires
        stop.tree_ok(net, start, destination, legs, best),
        stop.settled(),
        net.reaches(start, destination, journey),
        legs.len() <= journey.len(),
        journey.take(legs.len() as int) == legs,
    ensures
        best is Some,
        net.prices_non_negative() ==> best.unwrap() <= total_price(journey),
    decreases stop,
{
    let k = legs.len() as int;
    if net.prices_non_negative() {
        lemma_prefix_costs_no_more(net, start, journey, k);
    }
    lemma_journey_prefix(net, start, journey, k);
    if k == journey.len() {
        assert(journey.take(k) =~= journey);
    }
    if stop.status == StopStatus::Expanded {
        let r = journey[k];
        assert(net.can_fly(stop.incomming_route.finish, stops(start, legs), r));
        let i = choose|i: int|
            0 <= i < stop.destinations.len() && (#[trigger] stop.destinations[i]).incomming_route
                == r;
        lemma_settled_tree_bounds(
            stop.destinations[i],
            net,
            start,
            destination,
            legs.push(r),
            best,
            journey,
        );
    }
}

/// A tree that was looked at to a depth that no journey reaches is settled.
proof fn lemma_deep_enough_is_settled(
    stop: Stop,
    net: Network,
    start: i64,
    destination: Set<i64>,
    legs: Seq<Route>,
    best: Option<i64>,
    depth: nat,
)
    requires
        stop.tree_ok(net, start, destination, legs, best),
        stop.settled_to(depth),
        legs.len() + depth > net.routes.len(),
    ensures
        stop.settled(),
    decreases stop,
{
    lemma_journey_length(net, start, legs);
    if stop.status == StopStatus::Expanded {
        assert forall|i: int| 0 <= i < stop.destinations.len() implies (
        #[trigger] stop.destinations[i]).settled() by {
            lemma_deep_enough_is_settled(
                stop.destinations[i],
                net,
                start,
                destination,
                legs.push(stop.destinations[i].incomming_route),
                best,
                (depth - 1) as nat,
            );
        }
    }
}

/// The network that two stores describe: the flights of the one, and the
/// ground transfers that the other answers with for a single airport.
pub open spec fn network_of<R: RouteRepository + ?Sized, A: AirportRepository + ?Sized>(
    route_repo: &Arc<R>,
    airport_repo: &Arc<A>,
) -> Network {
    Network {
        routes: route_repo.routes(),
        transfers: |at: i64| airport_repo.ground_reach(seq![at]),
    }
}

/// A price is out of range when it does not fit the integers that prices
/// are kept in.
pub open spec fn price_fits(price: int) -> bool {
    i64::MIN <= price <= i64::MAX
}

impl Stop {
    /// The stop that a flight leads to from a stop with the accumulated
    /// price `paid`: not looked at yet.
    pub closed spec fn is_fresh(&self, paid: int, route: Route) -> bool {
        &&& self.accumulated_price == paid + route.price
        &&& self.incomming_route == route
        &&& self.destinations@.len() == 0
        &&& self.status == StopStatus::Unexpanded
    }

    /// The flight by which the traveller arrived. For the root of a search
    /// it is made up: it costs nothing and arrives at the start airport.
    pub closed spec fn route(&self) -> Route {
        self.incomming_route
    }

    /// How far the search has come with this stop.
    pub fn current_status(&self) -> (status: StopStatus)
        ensures
            status == self.status(),
    {
        self.status
    }

    /// What the traveller has paid since the start.
    pub fn accumulated_price(&self) -> (price: i64)
        ensures
            price == self.price(),
    {
        self.accumulated_price
    }

    /// The flight by which the traveller arrived.
    pub fn incoming_route(&self) -> (route: Route)
        ensures
            route == self.route(),
    {
        self.incomming_route
    }

    /// The stops one flight further on.
    pub fn destinations(&self) -> (next: &Vec<Stop>)
        ensures
            next@ == self.next(),
    {
        &self.destinations
    }

    /// Takes in the flights that leave from this stop. With no flight the
    /// stop is a dead end and is pruned. Otherwise each flight gets a stop
    /// of its own, in the order given, and this stop counts as expanded.
    /// Where a price would leave the range of `i64` nothing is changed and
    /// an error says so.
    pub fn expand(&mut self, routes: Vec<Route>) -> (r: Result<bool, ErrorV2>)
        ensures
            r is Ok <==> forall|i: int|
                0 <= i < routes.len() ==> price_fits(old(self).price() + (#[trigger] routes[i]).price),
            r is Err ==> *final(self) == *old(self),
            r matches Err(e) ==> e is Internal && e.payload().code() == ErrorCode::InternalError
                && e.payload().description() == "the price of a journey is out of range"@,
            r matches Ok(grew) ==> {
                &&& grew == (routes.len() > 0)
                &&& final(self).price() == old(self).price()
                &&& final(self).route() == old(self).route()
                &&& final(self).airport() == old(self).airport()
                &&& !grew ==> final(self).status() == StopStatus::Pruned && final(self).next()
                    == old(self).next()
                &&& grew ==> {
                    &&& final(self).status() == StopStatus::Expanded
                    &&& final(self).next().len() == routes.len()
                    &&& forall|i: int|
                        0 <= i < routes.len() ==> (#[trigger] final(self).next()[i]).is_fresh(
                            old(self).price(),
                            routes[i],
                        )
                }
            },
    {
        if routes.len() == 0 {
            self.status = StopStatus::Pruned;
            return Ok(false);
        }
        let mut destinations: Vec<Stop> = Vec::new();
        let mut i: usize = 0;
        while i < routes.len()
            invariant
                i <= routes.len(),
                destinations.len() == i,
                *self == *old(self),
                forall|j: int|
                    0 <= j < i ==> price_fits(self.price() + (#[trigger] routes[j]).price),
                forall|j: int|
                    0 <= j < i ==> (#[trigger] destinations[j]).is_fresh(self.price(), routes[j]),
            decreases routes.len() - i,
        {
            let route = routes[i];
            match self.accumulated_price.checked_add(route.price) {
                Some(price) => {
                    destinations.push(
                        Stop {
                            accumulated_price: price,
                            incomming_route: route,
                            destinations: Vec::new(),
                            status: StopStatus::Unexpanded,
                        },
                    );
                },
                None => {
                    return Err(
                        ErrorV2::internal_str(
                            ErrorCode::InternalError,
                            "the price of a journey is out of range",
                        ),
                    );
                },
            }
            i += 1;
        }
        self.destinations = destinations;
        self.status = StopStatus::Expanded;
        Ok(true)
    }
}

/// After so many rounds a search gives up. No list of flights that a
/// machine can hold takes a search that far.
pub const MAX_ROUNDS: u64 = 0xffff_ffff_ffff_ffff;

/// The search for the cheapest journey from one airport to any of a set of
/// airports. It keeps the best journey found so far; every branch of the
/// search measures itself against that one price.
pub struct BestRoute<R: RouteRepository + ?Sized, A: AirportRepository + ?Sized> {
    lowest_price: Option<i64>,
    best_path: Option<Vec<i64>>,
    best_routes: Vec<Route>,
    expanded_during_this_turn: bool,
    start_id: i64,
    destination: Vec<i64>,
    route_repo: Arc<R>,
    airport_repo: Arc<A>,
}

impl<R: RouteRepository + ?Sized, A: AirportRepository + ?Sized> BestRoute<R, A> {
    /// The network that the search moves in, as the stores describe it.
    pub closed spec fn network(&self) -> Network {
        network_of(&self.route_repo, &self.airport_repo)
    }

    /// The airport at which every journey starts.
    pub closed spec fn start(&self) -> i64 {
        self.start_id
    }

    /// The airports at any of which a journey may end.
    pub closed spec fn destination(&self) -> Set<i64> {
        self.destination@.to_set()
    }

    /// The price of the best journey found so far.
    pub closed spec fn lowest(&self) -> Option<i64> {
        self.lowest_price
    }

    /// The airports of the best journey found so far, in order.
    pub closed spec fn best_stops(&self) -> Option<Seq<i64>> {
        match self.best_path {
            Some(path) => Some(path@),
            None => None,
        }
    }

    /// The flights of the best journey found so far, in order.
    pub closed spec fn best_legs(&self) -> Seq<Route> {
        self.best_routes@
    }

    /// Whether the last round of the search expanded a stop.
    pub closed spec fn expanded(&self) -> bool {
        self.expanded_during_this_turn
    }

    /// Whether both stores vouch that they answer from what `network()`
    /// describes. What is said below of journeys is said of such stores.
    pub closed spec fn stores_faithful(&self) -> bool {
        self.route_repo.faithful() && self.airport_repo.faithful()
    }

    /// Whether both stores answer every query.
    pub closed spec fn stores_answer(&self) -> bool {
        self.route_repo.always_answers() && self.airport_repo.always_answers()
    }

    /// What is kept as the best journey is one: it leads from the start to
    /// a destination, and its airports and its price are those recorded.
    pub open spec fn wf(&self) -> bool {
        self.stores_faithful() ==> match self.lowest() {
            None => self.best_stops() is None && self.best_legs().len() == 0,
            Some(price) => {
                &&& self.network().reaches(self.start(), self.destination(), self.best_legs())
                &&& self.best_stops() == Some(stops(self.start(), self.best_legs()))
                &&& total_price(self.best_legs()) == price
            },
        }
    }

    /// The two searches look for the same thing in the same network.
    pub open spec fn same_task(&self, other: &Self) -> bool {
        &&& self.network() == other.network()
        &&& self.start() == other.start()
        &&& self.destination() == other.destination()
        &&& self.stores_faithful() == other.stores_faithful()
        &&& self.stores_answer() == other.stores_answer()
    }

    /// Every journey from the start has a price in the range of `i64`.
    pub open spec fn prices_fit(&self) -> bool {
        forall|legs: Seq<Route>| #[trigger]
            self.network().is_journey(self.start(), legs) ==> price_fits(total_price(legs))
    }

    /// Nothing stands in the way of an answer within `max_rounds` rounds:
    /// the stores are faithful and answer every query, every price fits,
    /// and there are fewer flights than rounds.
    pub open spec fn dependable_within(&self, max_rounds: u64) -> bool {
        &&& self.stores_faithful()
        &&& self.stores_answer()
        &&& self.prices_fit()
        &&& self.network().routes.len() + 2 <= max_rounds
    }

    /// Nothing stands in the way of an answer.
    pub open spec fn dependable(&self) -> bool {
        self.dependable_within(MAX_ROUNDS)
    }

    /// Whether a journey to the destination can be flown at all.
    pub open spec fn connected(&self) -> bool {
        self.network().connected(self.start(), self.destination())
    }

    /// The price that is kept is that of the cheapest journey.
    pub open spec fn holds_cheapest(&self) -> bool {
        self.lowest() matches Some(price) && self.network().is_cheapest(
            self.start(),
            self.destination(),
            price as int,
        )
    }

    /// Two searches for the same thing in the same network that both hold
    /// the cheapest price hold the same price: searching again on
    /// unchanged flights gives the same price, whatever journey it is
    /// found by.
    pub proof fn lemma_searches_agree(&self, other: &Self)
        requires
            self.same_task(other),
            self.holds_cheapest(),
            other.holds_cheapest(),
        ensures
            self.lowest() == other.lowest(),
    {
        lemma_cheapest_price_is_unique(
            self.network(),
            self.start(),
            self.destination(),
            self.lowest().unwrap() as int,
            other.lowest().unwrap() as int,
        );
    }

    /// `root` is a tree of this search, as far as it has come.
    pub closed spec fn owns(&self, root: &Stop) -> bool {
        self.stores_faithful() ==> root.tree_ok(
            self.network(),
            self.start(),
            self.destination(),
            Seq::<Route>::empty(),
            self.lowest(),
        )
    }

    /// A search from the airport `start_id` to any of `destination`, and the
    /// root of its tree: the traveller at the start, having paid nothing.
    pub fn new(start_id: i64, destination: Vec<i64>, route_repo: Arc<R>, airport_repo: Arc<A>) -> (r: (
        BestRoute<R, A>,
        Stop,
    ))
        ensures
            r.0.wf(),
            r.0.owns(&r.1),
            r.0.network() == network_of(&route_repo, &airport_repo),
            r.0.stores_faithful() == (route_repo.faithful() && airport_repo.faithful()),
            r.0.stores_answer() == (route_repo.always_answers() && airport_repo.always_answers()),
            r.0.start() == start_id,
            r.0.destination() == destination@.to_set(),
            r.0.lowest() is None,
            r.0.best_stops() is None,
            !r.0.expanded(),
            r.1.route() == (Route { id: 0, start: 0, finish: start_id, price: 0 }),
            r.1.airport() == start_id,
            r.1.price() == 0,
            r.1.status() == StopStatus::Unexpanded,
            r.1.next().len() == 0,
    {
        (
            BestRoute {
                lowest_price: None,
                best_path: None,
                best_routes: Vec::new(),
                expanded_during_this_turn: false,
                start_id: start_id,
                destination: destination,
                route_repo: route_repo,
                airport_repo: airport_repo,
            },
            Stop {
                accumulated_price: 0,
                incomming_route: Route { id: 0, price: 0, start: 0, finish: start_id },
                destinations: Vec::new(),
                status: StopStatus::Unexpanded,
            },
        )
    }

    /// Searches the tree below `root` round by round, one level deeper each
    /// round, until a round expands nothing. Returns the airports of the
    /// cheapest journey in order, or `None` where no journey leads to the
    /// destination. An error of a store ends the search and is returned;
    /// so does a price that leaves the range of `i64`, and a search that
    /// has not come to an end after `max_rounds` rounds gives up.
    ///
    /// Of faithful stores the following holds. What is returned is a
    /// journey from the start to a destination that visits no airport
    /// twice; `None` is returned only where there is no journey; and
    /// where no price is negative, no journey is cheaper than the one
    /// returned.
    pub fn search_within(&mut self, root: &mut Stop, max_rounds: u64) -> (r: Result<
        Option<Vec<i64>>,
        ErrorV2,
    >)
        requires
            old(self).wf(),
            old(self).owns(old(root)),
        ensures
            final(self).wf(),
            final(self).same_task(old(self)),
            improves(old(self).lowest(), final(self).lowest()),
            r is Ok ==> final(self).owns(final(root)),
            r is Ok ==> final(root).settled(),
            r matches Ok(found) ==> match found {
                Some(path) => final(self).best_stops() == Some(path@),
                None => final(self).best_stops() is None,
            },
            final(self).stores_faithful() ==> (r matches Ok(Some(path)) ==> {
                &&& final(self).lowest() is Some
                &&& final(self).network().reaches(
                    final(self).start(),
                    final(self).destination(),
                    final(self).best_legs(),
                )
                &&& path@ == stops(final(self).start(), final(self).best_legs())
                &&& total_price(final(self).best_legs()) == final(self).lowest().unwrap()
                &&& path@.no_duplicates()
            }),
            final(self).stores_faithful() ==> (r matches Ok(None) ==> !final(self).connected()),
            final(self).stores_faithful() && final(self).network().prices_non_negative() ==> (r matches Ok(
                Some(path),
            ) ==> final(self).holds_cheapest()),
            old(self).dependable_within(max_rounds) ==> r is Ok,
            old(self).dependable_within(max_rounds) && !old(self).connected() ==> r matches Ok(None),
    {
        let ghost net = self.network();
        let ghost limit = net.routes.len();
        let ghost faithful = self.stores_faithful();
        let mut rounds: u64 = 0;
        let mut keep_searching = true;
        proof {
            assert(root.settled_to(0));
        }
        while keep_searching
            invariant
                self.wf(),
                self.same_task(old(self)),
                improves(old(self).lowest(), self.lowest()),
                old(self).dependable_within(max_rounds) ==> self.dependable_within(max_rounds),
                self.owns(root),
                net == self.network(),
                limit == net.routes.len(),
                faithful == self.stores_faithful(),
                root.settled_to(rounds as nat),
                faithful && keep_searching ==> rounds <= limit + 1,
                rounds <= max_rounds,
                !keep_searching ==> root.settled(),
            decreases max_rounds - rounds,
        {
            if rounds >= max_rounds {
                return Err(
                    ErrorV2::internal_str(
                        ErrorCode::InternalError,
                        "the search did not come to an end",
                    ),
                );
            }
            self.expanded_during_this_turn = false;
            let start_id = self.start_id;
            let mut previous_stops: Vec<i64> = Vec::new();
            previous_stops.push(start_id);
            let input = DoExpandInput { previous_stops, previous_routes: Vec::new() };
            proof {
                assert(input.previous_stops@ =~= stops(self.start(), input.previous_routes@));
                assert(input.previous_routes@ =~= Seq::<Route>::empty());
                if faithful && rounds == limit + 1 {
                    lemma_deep_enough_is_settled(
                        *root,
                        net,
                        self.start(),
                        self.destination(),
                        Seq::<Route>::empty(),
                        self.lowest(),
                        rounds as nat,
                    );
                }
            }
            match self.do_expand(root, input) {
                Ok(()) => {
                    keep_searching = self.expanded_during_this_turn;
                },
                Err(err) => {
                    return Err(err);
                },
            }
            rounds += 1;
        }
        proof {
            if faithful {
                assert forall|journey: Seq<Route>| #[trigger]
                    net.reaches(self.start(), self.destination(), journey) implies self.lowest() is Some
                    && (net.prices_non_negative() ==> self.lowest().unwrap() <= total_price(
                    journey,
                )) by {
                    assert(journey.take(0) =~= Seq::<Route>::empty());
                    lemma_settled_tree_bounds(
                        *root,
                        net,
                        self.start(),
                        self.destination(),
                        Seq::<Route>::empty(),
                        self.lowest(),
                        journey,
                    );
                }
                if self.lowest() is Some {
                    lemma_journey_stops_distinct(net, self.start(), self.best_legs());
                }
            }
        }
        match &self.best_path {
            Some(path) => Ok(Some(copy_ids(path))),
            None => Ok(None),
        }
    }

    /// Searches for the cheapest journey with as many rounds as it takes,
    /// up to `MAX_ROUNDS`. See `search_within` for what is found.
    pub fn search_for_best_path(&mut self, root: &mut Stop) -> (r: Result<Option<Vec<i64>>, ErrorV2>)
        requires
            old(self).wf(),
            old(self).owns(old(root)),
        ensures
            final(self).wf(),
            final(self).same_task(old(self)),
            improves(old(self).lowest(), final(self).lowest()),
            r is Ok ==> final(self).owns(final(root)),
            r is Ok ==> final(root).settled(),
            r matches Ok(found) ==> match found {
                Some(path) => final(self).best_stops() == Some(path@),
                None => final(self).best_stops() is None,
            },
            final(self).stores_faithful() ==> (r matches Ok(Some(path)) ==> {
                &&& final(self).lowest() is Some
                &&& final(self).network().reaches(
                    final(self).start(),
                    final(self).destination(),
                    final(self).best_legs(),
                )
                &&& path@ == stops(final(self).start(), final(self).best_legs())
                &&& total_price(final(self).best_legs()) == final(self).lowest().unwrap()
                &&& path@.no_duplicates()
            }),
            final(self).stores_faithful() ==> (r matches Ok(None) ==> !final(self).connected()),
            final(self).stores_faithful() && final(self).network().prices_non_negative() ==> (r matches Ok(
                Some(path),
            ) ==> final(self).holds_cheapest()),
            old(self).dependable() ==> r is Ok,
            old(self).dependable() && !old(self).connected() ==> r matches Ok(None),
    {
        self.search_within(root, MAX_ROUNDS)
    }

    /// The price of the best journey found so far.
    pub fn lowest_price(&self) -> (price: Option<i64>)
        ensures
            price == self.lowest(),
    {
        self.lowest_price
    }

    /// The flights of the best journey found so far, in order.
    pub fn best_routes(&self) -> (legs: Vec<Route>)
        ensures
            legs@ == self.best_legs(),
    {
        copy_routes(&self.best_routes)
    }

    fn get_possible_destinations(&self, start_points: Vec<i64>, ids_to_exclude: Vec<i64>) -> (r:
        Result<Vec<Route>, ErrorV2>)
        ensures
            self.route_repo.always_answers() ==> r is Ok,
            self.route_repo.faithful() ==> (r matches Ok(found) ==> forall|e: Route| #[trigger]
                found@.contains(e) <==> self.route_repo.routes().contains(e)
                    && start_points@.contains(e.start) && !ids_to_exclude@.contains(e.finish)),
    {
        self.route_repo.find_by_start(start_points, Some(ids_to_exclude))
    }

    fn extend_id_vec(&self, route_starts: Vec<i64>) -> (r: Result<Vec<i64>, ErrorV2>)
        ensures
            self.airport_repo.always_answers() ==> r is Ok,
            self.airport_repo.faithful() ==> (r matches Ok(found) ==> forall|a: i64| #[trigger]
                found@.contains(a) <==> self.airport_repo.ground_reach(route_starts@).contains(a)),
    {
        self.airport_repo.get_ids_by_city_ids(route_starts)
    }

    /// Visits a stop of the tree: `input` tells how the traveller got there.
    ///
    /// A stop at a destination that beats the best price becomes the best
    /// journey and is pruned. A stop that cannot beat the best price is
    /// pruned. Of a stop not looked at before, the flights that leave from
    /// it are fetched, and each gets a stop of its own, to be visited in a
    /// later round. Below an expanded stop the visit goes on.
    fn do_expand(&mut self, stop: &mut Stop, input: DoExpandInput) -> (r: Result<(), ErrorV2>)
        requires
            old(self).wf(),
            input.previous_stops@ == stops(old(self).start(), input.previous_routes@),
            old(self).stores_faithful() ==> old(stop).tree_ok(
                old(self).network(),
                old(self).start(),
                old(self).destination(),
                input.previous_routes@,
                old(self).lowest(),
            ),
        ensures
            final(self).wf(),
            final(self).same_task(old(self)),
            improves(old(self).lowest(), final(self).lowest()),
            old(self).expanded() ==> final(self).expanded(),
            final(stop).route() == old(stop).route(),
            final(stop).price() == old(stop).price(),
            r is Ok && final(self).stores_faithful() ==> final(stop).tree_ok(
                final(self).network(),
                final(self).start(),
                final(self).destination(),
                input.previous_routes@,
                final(self).lowest(),
            ),
            r is Ok ==> forall|depth: nat| #[trigger]
                old(stop).settled_to(depth) ==> final(stop).settled_to(depth + 1),
            r is Ok && !final(self).expanded() ==> final(stop).settled(),
            old(stop).settled() ==> r is Ok && final(self).expanded() == old(self).expanded(),
            old(self).stores_faithful() && old(self).stores_answer() && old(self).prices_fit()
                ==> r is Ok,
            old(self).lowest() matches Some(best) && best <= old(stop).price() ==> {
                &&& r is Ok
                &&& final(stop).status() == StopStatus::Pruned
                &&& final(stop).next() == old(stop).next()
                &&& final(self).expanded() == old(self).expanded()
                &&& final(self).lowest() == old(self).lowest()
            },
            match visit_of(
                old(stop).status(),
                old(self).destination().contains(old(stop).airport()),
                old(stop).accumulated_price,
                old(self).lowest(),
            ) {
                Visit::Skip => r is Ok && *final(stop) == *old(stop) && *final(self) == *old(self),
                Visit::Record => {
                    &&& r is Ok
                    &&& final(stop).status() == StopStatus::Pruned
                    &&& final(stop).next() == old(stop).next()
                    &&& final(self).lowest() == Some(old(stop).accumulated_price)
                    &&& final(self).best_stops() == Some(input.previous_stops@)
                    &&& final(self).best_legs() == input.previous_routes@
                    &&& final(self).expanded() == old(self).expanded()
                },
                Visit::Prune => {
                    &&& r is Ok
                    &&& final(stop).status() == StopStatus::Pruned
                    &&& final(stop).next() == old(stop).next()
                    &&& *final(self) == *old(self)
                },
                Visit::Expand => r is Ok ==> {
                    &&& final(self).lowest() == old(self).lowest()
                    &&& final(self).best_stops() == old(self).best_stops()
                    &&& final(stop).status() != StopStatus::Unexpanded
                    &&& final(self).expanded() == (old(self).expanded() || final(stop).status()
                        == StopStatus::Expanded)
                },
                Visit::Descend => r is Ok ==> final(stop).status() == StopStatus::Expanded
                    && final(stop).next().len() == old(stop).next().len(),
            },
        decreases *old(stop),
    {
        let airport = stop.incomming_route.finish;
        let price = stop.accumulated_price;
        let arrived = contains_id(&self.destination, airport);
        let visit = decide_visit(stop.status, arrived, price, self.lowest_price);
        match visit {
            Visit::Skip => {
                return Ok(());
            },
            Visit::Record => {
                self.lowest_price = Some(price);
                self.best_path = Some(input.previous_stops);
                self.best_routes = input.previous_routes;
                stop.status = StopStatus::Pruned;
                return Ok(());
            },
            Visit::Prune => {
                stop.status = StopStatus::Pruned;
                return Ok(());
            },
            _ => {},
        }
        let ghost net = self.network();
        let ghost legs = input.previous_routes@;
        let ghost faithful = self.stores_faithful();
        if visit == Visit::Expand {
            let mut from: Vec<i64> = Vec::new();
            from.push(airport);
            assert(from@ =~= seq![airport]);
            let start_points = match self.extend_id_vec(from) {
                Ok(ids) => ids,
                Err(err) => {
                    return Err(err);
                },
            };
            let routes = match self.get_possible_destinations(start_points, input.previous_stops) {
                Ok(found) => found,
                Err(err) => {
                    return Err(err);
                },
            };
            proof {
                if faithful {
                    assert forall|e: Route| #[trigger] routes@.contains(e) <==> net.can_fly(
                        airport,
                        stops(self.start(), legs),
                        e,
                    ) by {
                        assert(start_points@.contains(e.start) <==> (net.transfers)(
                            airport,
                        ).contains(e.start));
                    }
                    assert forall|i: int| 0 <= i < routes.len() implies #[trigger] net.is_journey(
                        self.start(),
                        legs.push(routes[i]),
                    ) by {
                        assert(routes@.contains(routes[i]));
                        lemma_stops_push(self.start(), legs, routes[i]);
                        assert(net.can_fly(
                            last_stop(self.start(), legs),
                            stops(self.start(), legs),
                            routes[i],
                        ));
                    }
                    assert forall|i: int| 0 <= i < routes.len() implies stop.price() + (
                    #[trigger] routes[i]).price == total_price(legs.push(routes[i])) by {
                        lemma_stops_push(self.start(), legs, routes[i]);
                    }
                    if self.prices_fit() {
                        assert forall|i: int| 0 <= i < routes.len() implies price_fits(
                            stop.price() + (#[trigger] routes[i]).price,
                        ) by {
                            assert(net.is_journey(self.start(), legs.push(routes[i])));
                        }
                    }
                }
            }
            let grew = match stop.expand(routes) {
                Ok(grew) => grew,
                Err(err) => {
                    return Err(err);
                },
            };
            if grew {
                self.expanded_during_this_turn = true;
            }
            proof {
                if grew {
                    assert forall|j: int| 0 <= j < stop.destinations.len() implies (
                    #[trigger] stop.destinations[j]).settled_to(0) by {}
                    assert(stop.settled_to(1));
                }
                if faithful {
                    if grew {
                        assert forall|r: Route| #[trigger]
                            net.can_fly(airport, stops(self.start(), legs), r) implies exists|
                            j: int,
                        |
                            0 <= j < stop.destinations.len() && (
                            #[trigger] stop.destinations[j]).incomming_route == r by {
                            assert(routes@.contains(r));
                            let j = choose|j: int| 0 <= j < routes.len() && routes[j] == r;
                            assert(stop.next()[j].is_fresh(old(stop).price(), routes[j]));
                        }
                        assert forall|j: int| 0 <= j < stop.destinations.len() implies (
                        #[trigger] stop.destinations[j]).tree_ok(
                            net,
                            self.start(),
                            self.destination(),
                            legs.push(stop.destinations[j].incomming_route),
                            self.lowest(),
                        ) by {
                            assert(stop.next()[j].is_fresh(old(stop).price(), routes[j]));
                            assert(net.is_journey(self.start(), legs.push(routes[j])));
                            lemma_stops_push(self.start(), legs, routes[j]);
                        }
                    } else {
                        assert forall|r: Route| !#[trigger] net.can_fly(
                            airport,
                            stops(self.start(), legs),
                            r,
                        ) by {
                            assert(!routes@.contains(r));
                        }
                    }
                    assert(stop.tree_ok(net, self.start(), self.destination(), legs, self.lowest()));
                }
                assert forall|depth: nat| #[trigger] old(stop).settled_to(depth) implies stop.settled_to(
                    depth + 1,
                ) by {
                    assert(depth == 0);
                }
            }
            Ok(())
        } else {
            let count = stop.destinations.len();
            let mut i: usize = 0;
            while i < count
                invariant
                    i <= count,
                    stop.destinations.len() == count,
                    old(stop).destinations.len() == count,
                    stop.status == StopStatus::Expanded,
                    stop.incomming_route == old(stop).incomming_route,
                    stop.accumulated_price == old(stop).accumulated_price,
                    self.wf(),
                    self.same_task(old(self)),
                    net == self.network(),
                    faithful == self.stores_faithful(),
                    legs == input.previous_routes@,
                    input.previous_stops@ == stops(self.start(), legs),
                    improves(old(self).lowest(), self.lowest()),
                    old(self).expanded() ==> self.expanded(),
                    old(self).stores_faithful() && old(self).stores_answer() && old(
                        self,
                    ).prices_fit() ==> self.stores_answer() && self.prices_fit(),
                    forall|j: int|
                        0 <= j < count ==> (#[trigger] stop.destinations[j]).incomming_route == old(
                            stop,
                        ).destinations[j].incomming_route,
                    faithful ==> forall|j: int|
                        0 <= j < count ==> (#[trigger] stop.destinations[j]).tree_ok(
                            net,
                            self.start(),
                            self.destination(),
                            legs.push(stop.destinations[j].incomming_route),
                            self.lowest(),
                        ),
                    forall|j: int|
                        i <= j < count ==> #[trigger] stop.destinations[j] == old(
                            stop,
                        ).destinations[j],
                    forall|j: int, depth: nat|
                        0 <= j < i && #[trigger] old(stop).destinations[j].settled_to(depth)
                            ==> stop.destinations[j].settled_to(depth + 1),
                    !self.expanded() ==> forall|j: int|
                        0 <= j < i ==> (#[trigger] stop.destinations[j]).settled(),
                    old(stop).settled() ==> self.expanded() == old(self).expanded(),
                    old(stop).status == StopStatus::Expanded,
                    faithful ==> old(stop).tree_ok(
                        net,
                        self.start(),
                        self.destination(),
                        legs,
                        old(self).lowest(),
                    ),
                    !(old(self).lowest() matches Some(best) && best <= old(stop).price()),
                    visit_of(
                        old(stop).status(),
                        old(self).destination().contains(old(stop).airport()),
                        old(stop).accumulated_price,
                        old(self).lowest(),
                    ) == Visit::Descend,
                decreases count - i,
            {
                let next_input = input.extended(stop.destinations[i].incomming_route);
                let ghost before = self.lowest();
                let ghost children = stop.destinations@;
                proof {
                    lemma_stops_push(self.start(), legs, stop.destinations[i as int].incomming_route);
                }
                match self.do_expand(&mut stop.destinations[i], next_input) {
                    Ok(()) => {},
                    Err(err) => {
                        return Err(err);
                    },
                }
                proof {
                    if faithful {
                        assert forall|j: int| 0 <= j < count implies (
                        #[trigger] stop.destinations[j]).tree_ok(
                            net,
                            self.start(),
                            self.destination(),
                            legs.push(stop.destinations[j].incomming_route),
                            self.lowest(),
                        ) by {
                            if j != i {
                                assert(stop.destinations[j] == children[j]);
                                lemma_tree_ok_improves(
                                    children[j],
                                    net,
                                    self.start(),
                                    self.destination(),
                                    legs.push(children[j].incomming_route),
                                    before,
                                    self.lowest(),
                                );
                            }
                        }
                    }
                }
                i += 1;
            }
            proof {
                if faithful {
                    assert forall|r: Route| #[trigger]
                        net.can_fly(
                            stop.incomming_route.finish,
                            stops(self.start(), legs),
                            r,
                        ) implies exists|j: int|
                        0 <= j < stop.destinations.len() && (
                        #[trigger] stop.destinations[j]).incomming_route == r by {
                        let j = choose|j: int|
                            0 <= j < old(stop).destinations.len() && (#[trigger] old(
                                stop,
                            ).destinations[j]).incomming_route == r;
                        assert(stop.destinations[j].incomming_route == r);
                    }
                }
                assert forall|depth: nat| #[trigger] old(stop).settled_to(depth) implies stop.settled_to(
                    depth + 1,
                ) by {
                    assert forall|j: int| 0 <= j < count implies (
                    #[trigger] stop.destinations[j]).settled_to(depth) by {
                        if depth > 0 {
                            assert(old(stop).destinations[j].settled_to((depth - 1) as nat));
                        }
                    }
                }
            }
            Ok(())
        }
    }
}

} // verus!
