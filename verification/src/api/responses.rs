//! How an error is answered: with which status and which body.

use vstd::prelude::*;
use vstd::string::StringExecFns;
use crate::util::errors::{Error, Reason};

verus! {

/// The kinds of error bodies.
#[derive(Debug, Clone, Copy, PartialEq, Eq, Structural)]
pub enum ErrorType {
    BadRequest,
    NotFound,
    Forbidden,
    Base,
}

impl ErrorType {
    /// The code under which the kind travels to clients.
    pub open spec fn text(self) -> Seq<char> {
        match self {
            ErrorType::BadRequest => "BAD_REQUEST"@,
            ErrorType::NotFound => "NOT_FOUND"@,
            ErrorType::Forbidden => "FORBIDDEN"@,
            ErrorType::Base => "BASE_ERROR"@,
        }
    }

    pub fn to_string(&self) -> (s: String)
        ensures
            s@ == self.text(),
    {
        match self {
            ErrorType::BadRequest => String::from_str("BAD_REQUEST"),
            ErrorType::NotFound => String::from_str("NOT_FOUND"),
            ErrorType::Forbidden => String::from_str("FORBIDDEN"),
            ErrorType::Base => String::from_str("BASE_ERROR"),
        }
    }
}

/// The body of an error response.
pub struct ErrorPayload {
    pub code: String,
    pub message: String,
}

impl ErrorPayload {
    pub fn new(error_type: ErrorType, message: String) -> (payload: ErrorPayload)
        ensures
            payload.code@ == error_type.text(),
            payload.message == message,
    {
        ErrorPayload { code: error_type.to_string(), message: message }
    }
}

/// The status and the kind of body with which `err` is answered: a
/// forbidden error anywhere in its chain decides first, then one that says
/// not found; anything else is the server's fault.
pub open spec fn resolved_kind(err: Error) -> (u16, ErrorType) {
    if err.message_of(Reason::Forbidden) is Some {
        (403, ErrorType::Forbidden)
    } else if err.message_of(Reason::NotFound) is Some {
        (404, ErrorType::NotFound)
    } else {
        (500, ErrorType::Base)
    }
}

/// The message of the body with which `err` is answered: the message of
/// the error in its chain that decided or, for the server's own fault, the
/// whole chain, behind `msg` where one is given.
pub open spec fn resolved_message(err: Error, msg: Option<Seq<char>>) -> Seq<char> {
    if err.message_of(Reason::Forbidden) is Some {
        err.message_of(Reason::Forbidden).unwrap()
    } else if err.message_of(Reason::NotFound) is Some {
        err.message_of(Reason::NotFound).unwrap()
    } else {
        match msg {
            Some(context) => context + ": "@ + err.text(),
            None => err.text(),
        }
    }
}

/// The status and the body with which `err` is answered.
pub fn resolve_error(err: Error, msg: Option<&str>) -> (r: (u16, ErrorPayload))
    ensures
        r.0 == resolved_kind(err).0,
        r.1.code@ == resolved_kind(err).1.text(),
        r.1.message@ == resolved_message(
            err,
            match msg {
                Some(context) => Some(context@),
                None => None,
            },
        ),
{
    match err.type_message(Reason::Forbidden) {
        Some(text) => {
            return (403, ErrorPayload::new(ErrorType::Forbidden, text));
        },
        None => {},
    }
    match err.type_message(Reason::NotFound) {
        Some(text) => {
            return (404, ErrorPayload::new(ErrorType::NotFound, text));
        },
        None => {},
    }
    let message = match msg {
        Some(context) => {
            let mut message = String::from_str(context);
            message.append(": ");
            message.append(err.to_string().as_str());
            message
        },
        None => err.to_string(),
    };
    (500, ErrorPayload::new(ErrorType::Base, message))
}

} // verus!
