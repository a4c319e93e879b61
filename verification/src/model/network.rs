//! The mathematics of journeys: what the route search is measured against.
//!
//! A network is a finite list of flights and, for every airport, the set of
//! airports that can be reached from it on the ground. A journey leaves a
//! start airport and takes flights in turn; before each flight the
//! traveller may change on the ground to another airport, and no flight may
//! arrive at an airport that the journey has already visited.

use vstd::prelude::*;
use vstd::set_lib::lemma_len_subset;
use crate::model::route::Route;

verus! {

/// The airports of a journey in the order of arrival: the start, then the
/// arrival airport of each flight.
pub open spec fn stops(start: i64, legs: Seq<Route>) -> Seq<i64> {
    seq![start] + legs.map_values(|r: Route| r.finish)
}

/// Where a journey stands after its last flight.
pub open spec fn last_stop(start: i64, legs: Seq<Route>) -> i64 {
    if legs.len() == 0 {
        start
    } else {
        legs.last().finish
    }
}

/// The sum of the prices of the flights.
pub open spec fn total_price(legs: Seq<Route>) -> int
    decreases legs.len(),
{
    if legs.len() == 0 {
        0
    } else {
        total_price(legs.drop_last()) + legs.last().price
    }
}

/// The flights on offer and the changes on the ground that go with them.
pub struct Network {
    /// Every flight on offer.
    pub routes: Seq<Route>,
    /// For an airport, the airports from which the traveller may depart once
    /// arrived there.
    pub transfers: spec_fn(i64) -> Set<i64>,
}

impl Network {
    /// `r` may be taken next by a traveller who stands at `at` and has
    /// visited `seen`.
    pub open spec fn can_fly(self, at: i64, seen: Seq<i64>, r: Route) -> bool {
        &&& self.routes.contains(r)
        &&& (self.transfers)(at).contains(r.start)
        &&& !seen.contains(r.finish)
    }

    /// `legs` can be flown in this order from `start`.
    pub open spec fn is_journey(self, start: i64, legs: Seq<Route>) -> bool
        decreases legs.len(),
    {
        legs.len() == 0 || {
            let before = legs.drop_last();
            &&& self.is_journey(start, before)
            &&& self.can_fly(last_stop(start, before), stops(start, before), legs.last())
        }
    }

    /// `legs` is a journey from `start` that ends at one of `destination`.
    pub open spec fn reaches(self, start: i64, destination: Set<i64>, legs: Seq<Route>) -> bool {
        &&& self.is_journey(start, legs)
        &&& destination.contains(last_stop(start, legs))
    }

    /// There is a journey from `start` to one of `destination`.
    pub open spec fn connected(self, start: i64, destination: Set<i64>) -> bool {
        exists|legs: Seq<Route>| self.reaches(start, destination, legs)
    }

    /// No flight has a negative price.
    pub open spec fn prices_non_negative(self) -> bool {
        forall|i: int| 0 <= i < self.routes.len() ==> (#[trigger] self.routes[i]).price >= 0
    }

    /// No journey from `start` to `destination` costs less than `price`.
    pub open spec fn nothing_cheaper(self, start: i64, destination: Set<i64>, price: int) -> bool {
        forall|legs: Seq<Route>| #[trigger]
            self.reaches(start, destination, legs) ==> price <= total_price(legs)
    }

    /// `price` is what the cheapest journey from `start` to `destination`
    /// costs.
    pub open spec fn is_cheapest(self, start: i64, destination: Set<i64>, price: int) -> bool {
        &&& exists|legs: Seq<Route>| #[trigger]
            self.reaches(start, destination, legs) && total_price(legs) == price
        &&& self.nothing_cheaper(start, destination, price)
    }
}

/// What one more flight adds to a journey: its arrival to the stops, its
/// price to the total.
pub proof fn lemma_stops_push(start: i64, legs: Seq<Route>, r: Route)
    ensures
        stops(start, legs.push(r)) == stops(start, legs).push(r.finish),
        last_stop(start, legs.push(r)) == r.finish,
        stops(start, legs).len() == legs.len() + 1,
        stops(start, legs).last() == last_stop(start, legs),
        legs.push(r).drop_last() == legs,
        total_price(legs.push(r)) == total_price(legs) + r.price,
{
    assert(legs.push(r).drop_last() =~= legs);
    assert(stops(start, legs.push(r)) =~= stops(start, legs).push(r.finish));
}

/// A journey can be cut short after any of its flights, and the flight
/// after the cut was one that could be taken there.
pub proof fn lemma_journey_prefix(net: Network, start: i64, legs: Seq<Route>, k: int)
    requires
        net.is_journey(start, legs),
        0 <= k <= legs.len(),
    ensures
        net.is_journey(start, legs.take(k)),
        k < legs.len() ==> net.can_fly(
            last_stop(start, legs.take(k)),
            stops(start, legs.take(k)),
            legs[k],
        ),
        k < legs.len() ==> legs.take(k + 1) == legs.take(k).push(legs[k]),
    decreases legs.len(),
{
    if k == legs.len() {
        assert(legs.take(k) =~= legs);
    } else {
        let before = legs.drop_last();
        assert(legs.take(k + 1) =~= legs.take(k).push(legs[k]));
        if k == legs.len() - 1 {
            assert(legs.take(k) =~= before);
        } else {
            lemma_journey_prefix(net, start, before, k);
            assert(before.take(k) =~= legs.take(k));
        }
    }
}

/// Every flight of a journey is on offer.
pub proof fn lemma_journey_flights_on_offer(net: Network, start: i64, legs: Seq<Route>, i: int)
    requires
        net.is_journey(start, legs),
        0 <= i < legs.len(),
    ensures
        net.routes.contains(legs[i]),
    decreases legs.len(),
{
    if i < legs.len() - 1 {
        lemma_journey_flights_on_offer(net, start, legs.drop_last(), i);
    }
}

/// A journey visits no airport twice.
pub proof fn lemma_journey_stops_distinct(net: Network, start: i64, legs: Seq<Route>)
    requires
        net.is_journey(start, legs),
    ensures
        stops(start, legs).no_duplicates(),
    decreases legs.len(),
{
    if legs.len() > 0 {
        let before = legs.drop_last();
        lemma_journey_stops_distinct(net, start, before);
        lemma_stops_push(start, before, legs.last());
        assert(before.push(legs.last()) =~= legs);
        let s = stops(start, before);
        assert forall|i: int, j: int|
            0 <= i < s.len() + 1 && 0 <= j < s.len() + 1 && i != j implies s.push(
            legs.last().finish,
        )[i] != s.push(legs.last().finish)[j] by {
            if i < s.len() && j < s.len() {
            } else if i < s.len() {
                assert(s.contains(s[i]));
            } else {
                assert(s.contains(s[j]));
            }
        }
    }
}

/// A journey takes no more flights than there are on offer.
pub proof fn lemma_journey_length(net: Network, start: i64, legs: Seq<Route>)
    requires
        net.is_journey(start, legs),
    ensures
        legs.len() <= net.routes.len(),
{
    lemma_journey_stops_distinct(net, start, legs);
    let s = stops(start, legs);
    assert forall|i: int, j: int| 0 <= i < legs.len() && 0 <= j < legs.len() && i != j implies legs[i]
        != legs[j] by {
        assert(s[i + 1] == legs[i].finish);
        assert(s[j + 1] == legs[j].finish);
    }
    assert(legs.no_duplicates());
    legs.unique_seq_to_set();
    assert forall|r: Route| legs.to_set().contains(r) implies net.routes.to_set().contains(r) by {
        let i = choose|i: int| 0 <= i < legs.len() && legs[i] == r;
        lemma_journey_flights_on_offer(net, start, legs, i);
    }
    vstd::seq_lib::seq_to_set_is_finite(net.routes);
    lemma_len_subset(legs.to_set(), net.routes.to_set());
    net.routes.lemma_cardinality_of_set();
}

/// Where no price is negative, flying on never makes a journey cheaper.
pub proof fn lemma_prefix_costs_no_more(net: Network, start: i64, legs: Seq<Route>, k: int)
    requires
        net.prices_non_negative(),
        net.is_journey(start, legs),
        0 <= k <= legs.len(),
    ensures
        total_price(legs.take(k)) <= total_price(legs),
    decreases legs.len(),
{
    if k == legs.len() {
        assert(legs.take(k) =~= legs);
    } else {
        let before = legs.drop_last();
        lemma_prefix_costs_no_more(net, start, before, k);
        assert(before.take(k) =~= legs.take(k));
        lemma_journey_flights_on_offer(net, start, legs, legs.len() - 1);
        let i = choose|i: int| 0 <= i < net.routes.len() && net.routes[i] == legs.last();
        assert(net.routes[i].price >= 0);
    }
}

/// What the cheapest journey costs is fixed by the network, the start and
/// the destination: two answers to the same question agree.
pub proof fn lemma_cheapest_price_is_unique(
    net: Network,
    start: i64,
    destination: Set<i64>,
    first: int,
    second: int,
)
    requires
        net.is_cheapest(start, destination, first),
        net.is_cheapest(start, destination, second),
    ensures
        first == second,
{
    let a = choose|legs: Seq<Route>| #[trigger]
        net.reaches(start, destination, legs) && total_price(legs) == first;
    let b = choose|legs: Seq<Route>| #[trigger]
        net.reaches(start, destination, legs) && total_price(legs) == second;
    assert(first <= total_price(b));
    assert(second <= total_price(a));
}

/// The price of a journey is the price of its beginning and the price of
/// the rest.
pub proof fn lemma_price_splits(legs: Seq<Route>, k: int)
    requires
        0 <= k <= legs.len(),
    ensures
        total_price(legs) == total_price(legs.take(k)) + total_price(legs.skip(k)),
    decreases legs.len(),
{
    if k == legs.len() {
        assert(legs.take(k) =~= legs);
        assert(legs.skip(k) =~= Seq::<Route>::empty());
    } else {
        let before = legs.drop_last();
        lemma_price_splits(before, k);
        assert(before.take(k) =~= legs.take(k));
        assert(legs.skip(k).drop_last() =~= before.skip(k));
    }
}

/// Where no price is negative, no journey costs less than nothing.
pub proof fn lemma_price_is_not_negative(net: Network, start: i64, legs: Seq<Route>)
    requires
        net.prices_non_negative(),
        net.is_journey(start, legs),
    ensures
        0 <= total_price(legs),
{
    lemma_prefix_costs_no_more(net, start, legs, 0);
    assert(legs.take(0) =~= Seq::<Route>::empty());
}

/// What is left of a journey after some of its flights is a journey from
/// where those flights led to.
pub proof fn lemma_journey_rest(net: Network, start: i64, legs: Seq<Route>, k: int)
    requires
        net.is_journey(start, legs),
        0 <= k <= legs.len(),
    ensures
        net.is_journey(last_stop(start, legs.take(k)), legs.skip(k)),
        last_stop(last_stop(start, legs.take(k)), legs.skip(k)) == last_stop(start, legs),
        forall|x: i64| #[trigger]
            stops(last_stop(start, legs.take(k)), legs.skip(k)).contains(x) ==> stops(
                start,
                legs,
            ).contains(x),
    decreases legs.len(),
{
    let from = last_stop(start, legs.take(k));
    let rest = legs.skip(k);
    if k == legs.len() {
        assert(rest =~= Seq::<Route>::empty());
        assert(legs.take(k) =~= legs);
        assert forall|x: i64| #[trigger] stops(from, rest).contains(x) implies stops(
            start,
            legs,
        ).contains(x) by {
            assert(stops(from, rest) =~= seq![from]);
            let i = choose|i: int| 0 <= i < stops(from, rest).len() && stops(from, rest)[i] == x;
            assert(x == from);
            lemma_stops_push(start, legs, legs[0]);
            assert(stops(start, legs).last() == x);
        }
    } else {
        let before = legs.drop_last();
        lemma_journey_rest(net, start, before, k);
        assert(before.take(k) =~= legs.take(k));
        assert(rest.drop_last() =~= before.skip(k));
        assert(rest.last() == legs.last());
        lemma_stops_push(start, before, legs.last());
        assert(before.push(legs.last()) =~= legs);
        lemma_stops_push(from, before.skip(k), legs.last());
        assert(before.skip(k).push(legs.last()) =~= rest);
        assert forall|x: i64| #[trigger] stops(from, rest).contains(x) implies stops(
            start,
            legs,
        ).contains(x) by {
            crate::util::seqs::lemma_push_contains(
                stops(from, before.skip(k)),
                legs.last().finish,
                x,
            );
            crate::util::seqs::lemma_push_contains(stops(start, before), legs.last().finish, x);
        }
        assert(!stops(from, before.skip(k)).contains(legs.last().finish)) by {
            if stops(from, before.skip(k)).contains(legs.last().finish) {
                assert(stops(start, before).contains(legs.last().finish));
            }
        }
    }
}

/// A journey can be taken as it is from another airport, where the
/// traveller may depart there from the same airports as at its start and
/// the journey does not land at that airport.
pub proof fn lemma_journey_from_sibling(
    net: Network,
    start: i64,
    sibling: i64,
    legs: Seq<Route>,
)
    requires
        net.is_journey(start, legs),
        (net.transfers)(sibling) == (net.transfers)(start),
        forall|i: int| 0 <= i < legs.len() ==> (#[trigger] legs[i]).finish != sibling,
    ensures
        net.is_journey(sibling, legs),
        forall|x: i64| #[trigger]
            stops(sibling, legs).contains(x) ==> x == sibling || stops(start, legs).contains(x),
    decreases legs.len(),
{
    if legs.len() == 0 {
        assert forall|x: i64| #[trigger] stops(sibling, legs).contains(x) implies x
            == sibling by {
            assert(stops(sibling, legs) =~= seq![sibling]);
            let i = choose|i: int|
                0 <= i < stops(sibling, legs).len() && stops(sibling, legs)[i] == x;
        }
    } else {
        let before = legs.drop_last();
        lemma_journey_from_sibling(net, start, sibling, before);
        lemma_stops_push(start, before, legs.last());
        lemma_stops_push(sibling, before, legs.last());
        assert(before.push(legs.last()) =~= legs);
        assert(legs.last() == legs[legs.len() - 1]);
        assert forall|x: i64| #[trigger] stops(sibling, legs).contains(x) implies x == sibling
            || stops(start, legs).contains(x) by {
            crate::util::seqs::lemma_push_contains(stops(sibling, before), legs.last().finish, x);
            crate::util::seqs::lemma_push_contains(stops(start, before), legs.last().finish, x);
        }
        assert(!stops(sibling, before).contains(legs.last().finish)) by {
            if stops(sibling, before).contains(legs.last().finish) {
                assert(stops(start, before).contains(legs.last().finish));
            }
        }
    }
}

/// The first flight of a journey that lands at `airport`, if one does.
pub open spec fn landing_at(legs: Seq<Route>, airport: i64) -> Option<int>
    decreases legs.len(),
{
    if legs.len() == 0 {
        None
    } else {
        match landing_at(legs.drop_last(), airport) {
            Some(i) => Some(i),
            None => if legs.last().finish == airport {
                Some(legs.len() - 1)
            } else {
                None
            },
        }
    }
}

/// `landing_at` finds a flight that lands at the airport, or there is
/// none.
pub proof fn lemma_landing_at(legs: Seq<Route>, airport: i64)
    ensures
        match landing_at(legs, airport) {
            Some(i) => 0 <= i < legs.len() && legs[i].finish == airport,
            None => forall|i: int| 0 <= i < legs.len() ==> (#[trigger] legs[i]).finish != airport,
        },
    decreases legs.len(),
{
    if legs.len() > 0 {
        lemma_landing_at(legs.drop_last(), airport);
        if landing_at(legs, airport) is None {
            assert forall|i: int| 0 <= i < legs.len() implies (#[trigger] legs[i]).finish
                != airport by {
                if i < legs.len() - 1 {
                    assert(legs.drop_last()[i] == legs[i]);
                }
            }
        } else if landing_at(legs.drop_last(), airport) is Some {
            let i = landing_at(legs.drop_last(), airport).unwrap();
            assert(legs.drop_last()[i] == legs[i]);
        }
    }
}

/// Which airport of a city the traveller starts from makes no
/// difference to the cheapest price. Where no price is negative and the
/// traveller may depart from the same airports at `other` as at `start`,
/// every journey from `other` to the destination has one from `start`
/// that costs no more.
pub proof fn lemma_sibling_start_is_no_cheaper(
    net: Network,
    start: i64,
    other: i64,
    destination: Set<i64>,
    legs: Seq<Route>,
) -> (mine: Seq<Route>)
    requires
        net.prices_non_negative(),
        (net.transfers)(start) == (net.transfers)(other),
        destination.contains(other) ==> destination.contains(start),
        net.reaches(other, destination, legs),
    ensures
        net.reaches(start, destination, mine),
        total_price(mine) <= total_price(legs),
{
    lemma_landing_at(legs, start);
    match landing_at(legs, start) {
        Some(i) => {
            lemma_journey_rest(net, other, legs, i + 1);
            lemma_price_splits(legs, i + 1);
            lemma_journey_prefix(net, other, legs, i + 1);
            lemma_price_is_not_negative(net, other, legs.take(i + 1));
            assert(legs.take(i + 1).last() == legs[i]);
            legs.skip(i + 1)
        },
        None => {
            lemma_journey_from_sibling(net, other, start, legs);
            legs
        },
    }
}

/// A price that no journey from `start` undercuts is undercut by none
/// from an airport at which the traveller may depart from the same
/// airports.
pub proof fn lemma_cheapest_from_every_sibling(
    net: Network,
    start: i64,
    other: i64,
    destination: Set<i64>,
    price: int,
)
    requires
        net.prices_non_negative(),
        (net.transfers)(start) == (net.transfers)(other),
        destination.contains(other) ==> destination.contains(start),
        net.nothing_cheaper(start, destination, price),
    ensures
        net.nothing_cheaper(other, destination, price),
{
    assert forall|legs: Seq<Route>| #[trigger]
        net.reaches(other, destination, legs) implies price <= total_price(legs) by {
        let mine = lemma_sibling_start_is_no_cheaper(net, start, other, destination, legs);
        assert(net.reaches(start, destination, mine));
    }
}

} // verus!
