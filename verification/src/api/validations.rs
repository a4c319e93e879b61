//! Reading numbers out of what a request brings along.

use vstd::prelude::*;
use vstd::string::StringExecFns;
use crate::model::route::{field_number, number_view, parsed_i64};
use crate::util::errors_v2::{ErrorCode, ErrorV2};

verus! {

/// The number that was read if it will do, or why it will not: a text
/// that is no number does not, and where the number has to be positive,
/// neither does one that is not.
pub open spec fn checked_number(read: Result<i64, Seq<char>>, must_be_positive: bool) -> Result<
    i64,
    Seq<char>,
> {
    match read {
        Ok(number) => if must_be_positive && number <= 0 {
            Err("must be a positive number"@)
        } else {
            Ok(number)
        },
        Err(problem) => Err(problem),
    }
}

/// Decides on a number that was read from a request.
pub fn check_number(read: Result<i64, String>, must_be_positive: bool) -> (r: Result<i64, ErrorV2>)
    ensures
        match r {
            Ok(number) => checked_number(number_view(read), must_be_positive) == Ok::<
                i64,
                Seq<char>,
            >(number),
            Err(e) => {
                &&& e is BadRequest
                &&& e.payload().code() == ErrorCode::ValidationError
                &&& checked_number(number_view(read), must_be_positive) == Err::<i64, Seq<char>>(
                    e.payload().description(),
                )
            },
        },
{
    match read {
        Ok(number) => {
            if must_be_positive && number <= 0 {
                return Err(ErrorV2::bad_request(String::from_str("must be a positive number")));
            }
            Ok(number)
        },
        Err(problem) => Err(ErrorV2::bad_request(problem)),
    }
}

/// The number written in `val`, for a request: what cannot be used is a
/// bad request.
pub fn get_number(val: &str, must_be_positive: bool) -> (r: Result<i64, ErrorV2>)
    ensures
        match r {
            Ok(number) => checked_number(parsed_i64(val@), must_be_positive) == Ok::<
                i64,
                Seq<char>,
            >(number),
            Err(e) => {
                &&& e is BadRequest
                &&& e.payload().code() == ErrorCode::ValidationError
                &&& checked_number(parsed_i64(val@), must_be_positive) == Err::<i64, Seq<char>>(
                    e.payload().description(),
                )
            },
        },
{
    let mut one: Vec<String> = Vec::new();
    one.push(String::from_str(val));
    proof {
        assert(one@.map_values(|f: String| f@)[0] == val@);
    }
    check_number(field_number(&one, 0), must_be_positive)
}

} // verus!
