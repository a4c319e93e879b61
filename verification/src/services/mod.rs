//! The services between the interface and the stores.

use vstd::prelude::*;

pub mod auth;
pub mod comment_service;
pub mod route_service;
pub mod traits;

verus! {

/// A user who logged in, with the token that says so.
pub struct UserData {
    pub jwt: String,
    pub user_id: i64,
    pub user_email: String,
}

} // verus!
