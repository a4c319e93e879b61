//! What a user wrote about a city.

use vstd::prelude::*;
use std::time::SystemTime;

verus! {

/// A point in time as the standard library keeps it. Nothing is said about
/// what is inside: the library only carries such values along.
#[verifier::external_type_specification]
#[verifier::external_body]
pub struct ExSystemTime(SystemTime);

/// What a user wrote about a city, and when.
pub struct Comment {
    pub id: i64,
    pub user_id: i64,
    pub city_id: i64,
    pub content: String,
    pub created_at: SystemTime,
    pub updated_at: SystemTime,
}

impl Clone for Comment {
    fn clone(&self) -> (copy: Self)
        ensures
            copy == *self,
    {
        Comment {
            id: self.id,
            user_id: self.user_id,
            city_id: self.city_id,
            content: self.content.clone(),
            created_at: self.created_at,
            updated_at: self.updated_at,
        }
    }
}

} // verus!
