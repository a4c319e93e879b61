//! A list of numbers that is filled with `<<` and read with `[]`.

use vstd::prelude::*;
use std::ops::{Index, Range, Shl};

verus! {

/// Numbers in the order in which they were added.
pub struct Items(pub Vec<i32>);

impl View for Items {
    type V = Seq<i32>;

    open spec fn view(&self) -> Seq<i32> {
        self.0@
    }
}

impl Shl<i32> for Items {
    type Output = Self;

    fn shl(self, rhs: i32) -> (out: Self)
        ensures
            out@ == self@.push(rhs),
    {
        let mut items = self;
        items.0.push(rhs);
        items
    }
}

impl vstd::std_specs::ops::ShlSpecImpl<i32> for Items {
    open spec fn obeys_shl_spec() -> bool {
        false
    }

    open spec fn shl_req(self, rhs: i32) -> bool {
        true
    }

    open spec fn shl_spec(self, rhs: i32) -> Self {
        self
    }
}

impl Index<Range<usize>> for Items {
    type Output = [i32];

    fn index(&self, index: Range<usize>) -> (found: &[i32])
        ensures
            found@ == self@.subrange(index.start as int, index.end as int),
    {
        &self.0[index]
    }
}

impl vstd::std_specs::core::IndexSpecImpl<Range<usize>> for Items {
    open spec fn index_req(&self, index: &Range<usize>) -> bool {
        index.start <= index.end <= self@.len()
    }
}

impl Index<usize> for Items {
    type Output = i32;

    fn index(&self, index: usize) -> (found: &i32)
        ensures
            *found == self@[index as int],
    {
        &self.0[index]
    }
}

impl vstd::std_specs::core::IndexSpecImpl<usize> for Items {
    open spec fn index_req(&self, index: &usize) -> bool {
        *index < self@.len()
    }
}

} // verus!
