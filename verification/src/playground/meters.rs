//! A length in metres that adds and compares, with its own kind and with
//! plain numbers.

use vstd::prelude::*;
use std::cmp::Ordering;
use std::ops::Add;
use vstd::std_specs::cmp::{PartialEqSpecImpl, PartialOrdSpecImpl};
use vstd::std_specs::ops::AddSpecImpl;

verus! {

/// A length in whole metres.
pub struct Meters(pub i32);

/// How two numbers stand to each other.
pub open spec fn order_of(a: i32, b: i32) -> Ordering {
    if a < b {
        Ordering::Less
    } else if a == b {
        Ordering::Equal
    } else {
        Ordering::Greater
    }
}

impl Add<Meters> for Meters {
    type Output = Self;

    fn add(self, rhs: Self) -> (sum: Self) {
        Meters(self.0 + rhs.0)
    }
}

impl AddSpecImpl<Meters> for Meters {
    open spec fn obeys_add_spec() -> bool {
        true
    }

    /// The sum has to fit.
    open spec fn add_req(self, rhs: Meters) -> bool {
        i32::MIN <= self.0 + rhs.0 <= i32::MAX
    }

    open spec fn add_spec(self, rhs: Meters) -> Meters {
        Meters((self.0 + rhs.0) as i32)
    }
}

impl Add<i32> for Meters {
    type Output = Self;

    fn add(self, rhs: i32) -> (sum: Self) {
        Meters(self.0 + rhs)
    }
}

impl AddSpecImpl<i32> for Meters {
    open spec fn obeys_add_spec() -> bool {
        true
    }

    /// The sum has to fit.
    open spec fn add_req(self, rhs: i32) -> bool {
        i32::MIN <= self.0 + rhs <= i32::MAX
    }

    open spec fn add_spec(self, rhs: i32) -> Meters {
        Meters((self.0 + rhs) as i32)
    }
}

impl PartialEq<i32> for Meters {
    fn eq(&self, other: &i32) -> (r: bool) {
        self.0 == *other
    }

    fn ne(&self, other: &i32) -> (r: bool) {
        self.0 != *other
    }
}

impl PartialEqSpecImpl<i32> for Meters {
    open spec fn obeys_eq_spec() -> bool {
        true
    }

    open spec fn eq_spec(&self, other: &i32) -> bool {
        self.0 == *other
    }
}

impl PartialOrd<i32> for Meters {
    fn ge(&self, other: &i32) -> (r: bool) {
        self.0 >= *other
    }

    fn gt(&self, other: &i32) -> (r: bool) {
        self.0 > *other
    }

    fn le(&self, other: &i32) -> (r: bool) {
        self.0 <= *other
    }

    fn lt(&self, other: &i32) -> (r: bool) {
        self.0 < *other
    }

    fn partial_cmp(&self, other: &i32) -> (r: Option<Ordering>) {
        if self.0 < *other {
            Some(Ordering::Less)
        } else if self.0 == *other {
            Some(Ordering::Equal)
        } else {
            Some(Ordering::Greater)
        }
    }
}

impl PartialOrdSpecImpl<i32> for Meters {
    open spec fn obeys_partial_cmp_spec() -> bool {
        true
    }

    open spec fn partial_cmp_spec(&self, other: &i32) -> Option<Ordering> {
        Some(order_of(self.0, *other))
    }
}

impl PartialEq<Meters> for Meters {
    fn eq(&self, other: &Meters) -> (r: bool) {
        self.0 == other.0
    }

    fn ne(&self, other: &Meters) -> (r: bool) {
        self.0 != other.0
    }
}

impl PartialEqSpecImpl<Meters> for Meters {
    open spec fn obeys_eq_spec() -> bool {
        true
    }

    open spec fn eq_spec(&self, other: &Meters) -> bool {
        self.0 == other.0
    }
}

impl PartialOrd<Meters> for Meters {
    fn ge(&self, other: &Meters) -> (r: bool) {
        self.0 >= other.0
    }

    fn gt(&self, other: &Meters) -> (r: bool) {
        self.0 > other.0
    }

    fn le(&self, other: &Meters) -> (r: bool) {
        self.0 <= other.0
    }

    fn lt(&self, other: &Meters) -> (r: bool) {
        self.0 < other.0
    }

    fn partial_cmp(&self, other: &Meters) -> (r: Option<Ordering>) {
        if self.0 < other.0 {
            Some(Ordering::Less)
        } else if self.0 == other.0 {
            Some(Ordering::Equal)
        } else {
            Some(Ordering::Greater)
        }
    }
}

impl PartialOrdSpecImpl<Meters> for Meters {
    open spec fn obeys_partial_cmp_spec() -> bool {
        true
    }

    open spec fn partial_cmp_spec(&self, other: &Meters) -> Option<Ordering> {
        Some(order_of(self.0, other.0))
    }
}

} // verus!
