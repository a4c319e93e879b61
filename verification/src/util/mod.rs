//! Error types shared by every layer, helpers for text and lists, and
//! what a token says of its bearer.

use vstd::prelude::*;

pub mod errors;
pub mod errors_v2;
pub mod seqs;
pub mod text;

pub use errors as app_errors;
pub use errors_v2::ErrorCode;
pub use errors_v2::ErrorV2 as Error;
pub use errors_v2::ErrorV2Payload;

verus! {

/// The bearer of a token, as a request carries it along.
pub struct JwtExtension {
    pub user_id: i64,
    pub user_name: String,
    pub roles: Vec<String>,
}

} // verus!
