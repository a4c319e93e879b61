//! Something that greets.

use vstd::prelude::*;

verus! {

/// Something that can say hello in someone's name.
pub trait Greeter {
    fn say_hello(&self, your_name: &str);
}

} // verus!
