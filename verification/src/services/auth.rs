//! The checks around a token: where it stands in a header, for how long
//! it holds, and which roles open a door.

use vstd::prelude::*;
use vstd::string::StringExecFns;
use vstd::string::StrSliceExecFns;
use crate::util::errors_v2::{ErrorCode, ErrorV2};

verus! {

/// For how long a token holds, in milliseconds: an hour.
pub const TOKEN_LIFETIME: u64 = 3600 * 1000;

/// What an authorization header has to begin with.
pub open spec fn bearer_prefix() -> Seq<char> {
    "Bearer "@
}

/// Whether `text` begins with `prefix`.
pub open spec fn begins_with(text: Seq<char>, prefix: Seq<char>) -> bool {
    prefix.len() <= text.len() && text.subrange(0, prefix.len() as int) == prefix
}

/// The header of a request as the server hands it on: absent, not
/// readable as text, or a text.
pub enum HeaderValue {
    Absent,
    Unreadable,
    Text(String),
}

/// What stands in an authorization header after the word `Bearer`,
/// beginning with the blank that follows the word.
pub fn bearer_token(header: &HeaderValue) -> (r: Result<String, ErrorV2>)
    ensures
        match r {
            Ok(token) => header matches HeaderValue::Text(text) && begins_with(
                text@,
                bearer_prefix(),
            ) && token@ == text@.skip(6),
            Err(e) => {
                &&& e is Internal
                &&& match header {
                    HeaderValue::Absent => e.payload().code() == ErrorCode::NoAuthorizationHeader
                        && e.payload().description() == "no Authorization header found"@,
                    HeaderValue::Unreadable => e.payload().code()
                        == ErrorCode::NoAuthorizationHeader && e.payload().description()
                        == "Authorization header is not a string"@,
                    HeaderValue::Text(text) => !begins_with(text@, bearer_prefix())
                        && e.payload().code() == ErrorCode::JwtMalformed
                        && e.payload().description() == "Authorization header is not a JWT token"@,
                }
            },
        },
{
    let text = match header {
        HeaderValue::Text(text) => text,
        HeaderValue::Unreadable => {
            return Err(
                ErrorV2::internal_str(
                    ErrorCode::NoAuthorizationHeader,
                    "Authorization header is not a string",
                ),
            );
        },
        HeaderValue::Absent => {
            return Err(
                ErrorV2::internal_str(
                    ErrorCode::NoAuthorizationHeader,
                    "no Authorization header found",
                ),
            );
        },
    };
    let prefix = "Bearer ";
    proof {
        reveal_strlit("Bearer ");
    }
    let n = text.as_str().unicode_len();
    if n < 7 {
        return Err(
            ErrorV2::internal_str(ErrorCode::JwtMalformed, "Authorization header is not a JWT token"),
        );
    }
    let mut i: usize = 0;
    while i < 7
        invariant
            i <= 7 <= n,
            n == text@.len(),
            *header == HeaderValue::Text(*text),
            prefix@.len() == 7,
            prefix@ == bearer_prefix(),
            forall|k: int| 0 <= k < i ==> text@[k] == prefix@[k],
        decreases 7 - i,
    {
        if text.as_str().get_char(i) != prefix.get_char(i) {
            proof {
                assert(text@.subrange(0, 7)[i as int] == text@[i as int]);
            }
            return Err(
                ErrorV2::internal_str(
                    ErrorCode::JwtMalformed,
                    "Authorization header is not a JWT token",
                ),
            );
        }
        i += 1;
    }
    proof {
        assert(text@.subrange(0, 7) =~= prefix@);
        assert(text@.subrange(6, n as int) =~= text@.skip(6));
    }
    Ok(String::from_str(text.as_str().substring_char(6, n)))
}

/// Whether a token that holds from `issued_at` to `expires_at` holds at
/// `now`; all three are times in milliseconds.
pub fn check_validity(now: u64, issued_at: u64, expires_at: u64) -> (r: Result<(), ErrorV2>)
    ensures
        r is Ok <==> issued_at <= now <= expires_at,
        r matches Err(e) ==> {
            &&& e is Unauthorized
            &&& e.payload().code() == ErrorCode::Unauthorized
            &&& e.payload().description() == if now > expires_at {
                "token expired"@
            } else {
                "token not valid yet"@
            }
        },
{
    if now > expires_at {
        return Err(ErrorV2::unauthorized_str("token expired"));
    }
    if now < issued_at {
        return Err(ErrorV2::unauthorized_str("token not valid yet"));
    }
    Ok(())
}

/// The time until which a token issued at `now` holds, where that time
/// can still be written down.
pub fn expiry(now: u64) -> (until: Option<u64>)
    ensures
        match until {
            Some(t) => t == now + TOKEN_LIFETIME,
            None => now + TOKEN_LIFETIME > u64::MAX,
        },
{
    now.checked_add(TOKEN_LIFETIME)
}

/// Whether the user has one of the roles asked for.
pub open spec fn shares_role(user_roles: Seq<String>, roles: Seq<String>) -> bool {
    exists|i: int, j: int|
        0 <= i < roles.len() && 0 <= j < user_roles.len() && (#[trigger] roles[i])@ == (
        #[trigger] user_roles[j])@
}

fn has_role(user_roles: &Vec<String>, role: &String) -> (yes: bool)
    ensures
        yes == exists|j: int| 0 <= j < user_roles@.len() && (#[trigger] user_roles@[j])@ == role@,
{
    let mut j: usize = 0;
    while j < user_roles.len()
        invariant
            j <= user_roles.len(),
            forall|k: int| 0 <= k < j ==> (#[trigger] user_roles@[k])@ != role@,
        decreases user_roles.len() - j,
    {
        if user_roles[j] == *role {
            return true;
        }
        j += 1;
    }
    false
}

/// Whether one of `roles` is among `user_roles`.
pub fn has_any_role(user_roles: &Vec<String>, roles: &Vec<String>) -> (yes: bool)
    ensures
        yes == shares_role(user_roles@, roles@),
{
    let mut i: usize = 0;
    while i < roles.len()
        invariant
            i <= roles.len(),
            forall|k: int, j: int|
                0 <= k < i && 0 <= j < user_roles@.len() ==> (#[trigger] roles@[k])@ != (
                #[trigger] user_roles@[j])@,
        decreases roles.len() - i,
    {
        if has_role(user_roles, &roles[i]) {
            return true;
        }
        i += 1;
    }
    false
}

} // verus!
