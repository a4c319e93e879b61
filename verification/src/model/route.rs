//! A flight on offer, and how one is read from a row of text.

use vstd::prelude::*;
use vstd::string::StringExecFns;
use crate::model::common::FromStringRecord;
use crate::util::errors_v2::{ErrorCode, ErrorV2};

verus! {

/// A directed flight from the airport `start` to the airport `finish` at a
/// price. The search for the cheapest journey is exact only where no price
/// is negative.
#[derive(Debug, Clone, Copy, PartialEq, Eq, Structural)]
pub struct Route {
    pub id: i64,
    pub start: i64,
    pub finish: i64,
    pub price: i64,
}

/// What `str::parse::<i64>` makes of a text: the number written in it, or
/// the message of why there is none.
pub uninterp spec fn parsed_i64(text: Seq<char>) -> Result<i64, Seq<char>>;

/// `str::parse::<i64>` of the standard library. What comes back is named
/// `parsed_i64`, an error as its message; nothing more is claimed of it.
#[verifier::external_body]
fn parse_i64(text: &str) -> (r: Result<i64, String>)
    ensures
        number_view(r) == parsed_i64(text@),
{
    match text.parse::<i64>() {
        Ok(number) => Ok(number),
        Err(problem) => Err(problem.to_string()),
    }
}

/// A number read or the message of why not, without regard to where the
/// message is kept.
pub open spec fn number_view(r: Result<i64, String>) -> Result<i64, Seq<char>> {
    match r {
        Ok(number) => Ok(number),
        Err(problem) => Err(problem@),
    }
}

/// What is said of a field that the row does not have.
pub open spec fn field_missing() -> Seq<char> {
    "the field is missing"@
}

/// The number in the field at position `i` of a row.
pub open spec fn number_at(fields: Seq<Seq<char>>, i: int) -> Result<i64, Seq<char>> {
    if 0 <= i < fields.len() {
        parsed_i64(fields[i])
    } else {
        Err(field_missing())
    }
}

/// The flight that three fields describe, or which of them does not hold
/// a number and why: the start is looked at first, then the finish, then
/// the price. The flight has no id yet.
pub open spec fn route_of_numbers(
    start: Result<i64, Seq<char>>,
    finish: Result<i64, Seq<char>>,
    price: Result<i64, Seq<char>>,
) -> Result<Route, Seq<char>> {
    match start {
        Err(problem) => Err("bad start city ID: "@ + problem),
        Ok(start) => match finish {
            Err(problem) => Err("bad finish city ID: "@ + problem),
            Ok(finish) => match price {
                Err(problem) => Err("bad price: "@ + problem),
                Ok(price) => Ok(Route { id: 0, start: start, finish: finish, price: price }),
            },
        },
    }
}

/// The flight that a row describes by its first three fields.
pub open spec fn route_of_fields(fields: Seq<Seq<char>>) -> Result<Route, Seq<char>> {
    route_of_numbers(number_at(fields, 0), number_at(fields, 1), number_at(fields, 2))
}

/// The number in the field at position `i` of a row.
pub fn field_number(record: &Vec<String>, i: usize) -> (r: Result<i64, String>)
    ensures
        number_view(r) == number_at(record@.map_values(|f: String| f@), i as int),
{
    if i < record.len() {
        parse_i64(record[i].as_str())
    } else {
        Err(String::from_str("the field is missing"))
    }
}

fn bad_field(what: &str, problem: String) -> (e: ErrorV2)
    ensures
        e is Internal,
        e.payload().code() == ErrorCode::TextRowParse,
        e.payload().description() == what@ + problem@,
{
    let mut message = String::from_str(what);
    message.append(problem.as_str());
    ErrorV2::internal(ErrorCode::TextRowParse, message)
}

/// The flight that three numbers describe, or an error that names the
/// first of them that is none.
pub fn route_from_numbers(
    start: Result<i64, String>,
    finish: Result<i64, String>,
    price: Result<i64, String>,
) -> (r: Result<Route, ErrorV2>)
    ensures
        match r {
            Ok(route) => route_of_numbers(
                number_view(start),
                number_view(finish),
                number_view(price),
            ) == Ok::<Route, Seq<char>>(route),
            Err(e) => {
                &&& e is Internal
                &&& e.payload().code() == ErrorCode::TextRowParse
                &&& route_of_numbers(number_view(start), number_view(finish), number_view(price))
                    == Err::<Route, Seq<char>>(e.payload().description())
            },
        },
{
    let start = match start {
        Ok(v) => v,
        Err(problem) => {
            return Err(bad_field("bad start city ID: ", problem));
        },
    };
    let finish = match finish {
        Ok(v) => v,
        Err(problem) => {
            return Err(bad_field("bad finish city ID: ", problem));
        },
    };
    let price = match price {
        Ok(v) => v,
        Err(problem) => {
            return Err(bad_field("bad price: ", problem));
        },
    };
    Ok(Route { id: 0, start: start, finish: finish, price: price })
}

impl FromStringRecord for Route {
    type Output = Route;

    /// The flight that a row describes: its first three fields are the
    /// start, the finish and the price.
    fn from_string_record(record: Vec<String>) -> (r: Result<Route, ErrorV2>)
        ensures
            match r {
                Ok(route) => route_of_fields(record@.map_values(|f: String| f@)) == Ok::<
                    Route,
                    Seq<char>,
                >(route),
                Err(e) => {
                    &&& e is Internal
                    &&& e.payload().code() == ErrorCode::TextRowParse
                    &&& route_of_fields(record@.map_values(|f: String| f@)) == Err::<
                        Route,
                        Seq<char>,
                    >(e.payload().description())
                },
            },
    {
        route_from_numbers(
            field_number(&record, 0),
            field_number(&record, 1),
            field_number(&record, 2),
        )
    }
}

} // verus!
