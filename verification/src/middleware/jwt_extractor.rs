//! What becomes of a request that brings a token: the bearer is attached
//! to it, or the request is turned away.

use vstd::prelude::*;
use vstd::string::StringExecFns;
use crate::model::common::copy_fields;
use crate::model::user::User;
use crate::util::errors_v2::ErrorV2;
use crate::util::JwtExtension;

verus! {

/// The status with which a request is turned away whose bearer could not
/// be made out: an unknown bearer and a token that does not hold are the
/// client's fault, all else the server's.
pub open spec fn rejection_status(err: ErrorV2) -> u16 {
    match err {
        ErrorV2::NotFound(_) => 401,
        ErrorV2::Unauthorized(_) => 401,
        _ => 500,
    }
}

/// The body that goes with the status: the payload of the error, read as
/// text, or a fixed word for an error that was not foreseen here.
pub open spec fn rejection_body(err: ErrorV2) -> Seq<char> {
    match err {
        ErrorV2::NotFound(_) => "error"@,
        ErrorV2::Unauthorized(_) => "error"@,
        ErrorV2::Internal(_) => "error"@,
        _ => "UNFORSEEN_ERROR"@,
    }
}

/// The status and body with which a request is turned away.
pub fn rejection(err: &ErrorV2) -> (r: (u16, String))
    ensures
        r.0 == rejection_status(*err),
        r.1@ == rejection_body(*err),
{
    match err {
        ErrorV2::NotFound(e) => (401, e.to_string()),
        ErrorV2::Unauthorized(e) => (401, e.to_string()),
        ErrorV2::Internal(e) => (500, e.to_string()),
        _ => (500, String::from_str("UNFORSEEN_ERROR")),
    }
}

/// What is attached to the request of a user who was made out.
pub fn extension_of(user: &User) -> (extension: JwtExtension)
    ensures
        extension.user_id == user.id,
        extension.user_name == user.email,
        extension.roles@ == user.roles@,
{
    JwtExtension {
        user_id: user.id,
        user_name: user.email.clone(),
        roles: copy_fields(&user.roles),
    }
}

} // verus!
