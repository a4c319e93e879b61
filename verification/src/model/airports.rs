//! A list of airports with operators for filling it and taking from it.

use vstd::prelude::*;
use std::ops::{Index, Shl, ShlAssign, SubAssign};
use crate::model::airport::Airport;

verus! {

/// Airports in the order in which they were added.
pub struct Airports(Vec<Airport>);

/// The position of the first airport with the id `id`, if there is one.
pub open spec fn first_with_id(airports: Seq<Airport>, id: i64) -> Option<int>
    decreases airports.len(),
{
    if airports.len() == 0 {
        None
    } else if airports[0].id == id {
        Some(0)
    } else {
        match first_with_id(airports.skip(1), id) {
            Some(i) => Some(i + 1),
            None => None,
        }
    }
}

impl View for Airports {
    type V = Seq<Airport>;

    closed spec fn view(&self) -> Seq<Airport> {
        self.0@
    }
}

impl Airports {
    pub fn new() -> (list: Airports)
        ensures
            list@.len() == 0,
    {
        Airports(Vec::new())
    }

    pub fn len(&self) -> (n: usize)
        ensures
            n == self@.len(),
    {
        self.0.len()
    }
}

impl Airports {
    /// Goes through the airports in order.
    pub fn iter(&self) -> (it: std::slice::Iter<'_, Airport>)
        ensures
            vstd::std_specs::slice::into_iter_elts(it) == self@,
    {
        self.0.iter()
    }
}

impl<'a> Shl<Airport> for &'a mut Airports {
    type Output = Self;

    fn shl(self, rhs: Airport) -> (out: Self)
        ensures
            out@ == old(self)@.push(rhs),
            *final(self) == *final(out),
    {
        self.0.push(rhs);
        self
    }
}

impl<'a> vstd::std_specs::ops::ShlSpecImpl<Airport> for &'a mut Airports {
    /// Nothing is said of the reference that comes back: what counts is
    /// what the list holds afterwards.
    open spec fn obeys_shl_spec() -> bool {
        false
    }

    open spec fn shl_req(self, rhs: Airport) -> bool {
        true
    }

    open spec fn shl_spec(self, rhs: Airport) -> Self {
        self
    }
}

impl Index<usize> for Airports {
    type Output = Airport;

    fn index(&self, index: usize) -> (found: &Airport)
        ensures
            *found == self@[index as int],
    {
        &self.0[index]
    }
}

impl vstd::std_specs::core::IndexSpecImpl<usize> for Airports {
    /// Only a position that the list has can be asked for.
    open spec fn index_req(&self, index: &usize) -> bool {
        *index < self@.len()
    }
}

impl SubAssign<i64> for Airports {
    fn sub_assign(&mut self, rhs: i64)
        ensures
            match first_with_id(old(self)@, rhs) {
                Some(i) => final(self)@ == old(self)@.remove(i),
                None => final(self)@ == old(self)@,
            },
    {
        let mut i: usize = 0;
        proof {
            assert(self.0@.skip(0) =~= self.0@);
        }
        while i < self.0.len()
            invariant
                i <= self.0.len(),
                self.0@ == old(self).0@,
                first_with_id(self.0@.skip(i as int), rhs) matches Some(k) ==> first_with_id(
                    self.0@,
                    rhs,
                ) == Some(k + i),
                first_with_id(self.0@.skip(i as int), rhs) is None ==> first_with_id(
                    self.0@,
                    rhs,
                ) is None,
            decreases self.0.len() - i,
        {
            if self.0[i].id == rhs {
                let _ = self.0.remove(i);
                return ;
            }
            proof {
                assert(self.0@.skip(i as int).skip(1) =~= self.0@.skip(i + 1));
            }
            i += 1;
        }
    }
}

impl ShlAssign<Airport> for Airports {
    fn shl_assign(&mut self, rhs: Airport)
        ensures
            final(self)@ == old(self)@.push(rhs),
    {
        self.0.push(rhs);
    }
}

} // verus!
