//! Who may change or remove a comment.

use vstd::prelude::*;
use crate::model::comment::Comment;
use crate::model::user::User;
use crate::util::errors_v2::{ErrorCode, ErrorV2};

verus! {

/// Whether the user `user_id` may change `comment`: only who wrote it may.
pub fn check_may_update(user_id: i64, comment: &Comment) -> (r: Result<(), ErrorV2>)
    ensures
        r is Ok <==> user_id == comment.user_id,
        r matches Err(e) ==> e is Forbidden && e.payload().code() == ErrorCode::ForbiddenResource
            && e.payload().description() == "forbidden"@,
{
    if user_id != comment.user_id {
        return Err(ErrorV2::forbidden_str("forbidden"));
    }
    Ok(())
}

/// Whether `user` may remove `comment`: an administrator may, and who
/// wrote it.
pub fn check_may_delete(user: &User, comment: &Comment) -> (r: Result<(), ErrorV2>)
    ensures
        r is Ok <==> user.has_admin_role() || user.id == comment.user_id,
        r matches Err(e) ==> e is Forbidden && e.payload().code() == ErrorCode::ForbiddenResource
            && e.payload().description() == "forbidden"@,
{
    let allowed = user.is_admin();
    if !allowed && comment.user_id != user.id {
        return Err(ErrorV2::forbidden_str("forbidden"));
    }
    Ok(())
}

} // verus!
