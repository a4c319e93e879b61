//! Errors that keep what caused them: a chain of messages, each with the
//! reason it was raised for.

use vstd::prelude::*;
use vstd::string::StringExecFns;

verus! {

/// Why an error was raised.
#[derive(Debug, Clone, Copy, PartialEq, Eq, Structural)]
pub enum Reason {
    Wrapped,
    NotFound,
    Forbidden,
    Underlying,
}

impl Reason {
    /// The name under which the reason travels to clients.
    pub open spec fn text(self) -> Seq<char> {
        match self {
            Reason::Forbidden => "FORBIDDEN"@,
            Reason::NotFound => "NOT_FOUND"@,
            Reason::Underlying => "INTERNAL_ERROR"@,
            Reason::Wrapped => "UNSUPPORTED_ERROR"@,
        }
    }

    pub fn to_string(&self) -> (s: String)
        ensures
            s@ == self.text(),
    {
        let text = match self {
            Reason::Forbidden => "FORBIDDEN",
            Reason::NotFound => "NOT_FOUND",
            Reason::Underlying => "INTERNAL_ERROR",
            _ => "UNSUPPORTED_ERROR",
        };
        String::from_str(text)
    }
}

/// An error and, where it wraps another, the error behind it.
#[derive(Debug)]
pub struct Error {
    reason: Reason,
    msg: String,
    cause: Option<Box<Error>>,
}

impl Error {
    pub closed spec fn reason(&self) -> Reason {
        self.reason
    }

    pub closed spec fn msg(&self) -> Seq<char> {
        self.msg@
    }

    /// The error behind this one.
    pub closed spec fn cause(&self) -> Option<Error> {
        match self.cause {
            Some(inner) => Some(*inner),
            None => None,
        }
    }

    /// The messages of the chain from this error inwards, each parted from
    /// the next by a colon and a space.
    pub closed spec fn text(&self) -> Seq<char>
        decreases self,
    {
        match self.cause {
            Some(inner) => self.msg@ + ": "@ + inner.text(),
            None => self.msg@,
        }
    }

    /// The message of the first error of the chain, from this one inwards,
    /// that was raised for `reason`.
    pub closed spec fn message_of(&self, reason: Reason) -> Option<Seq<char>>
        decreases self,
    {
        if self.reason == reason {
            Some(self.msg@)
        } else {
            match self.cause {
                Some(inner) => inner.message_of(reason),
                None => None,
            }
        }
    }

    /// How `text` and `message_of` go through the chain.
    pub proof fn lemma_chain(&self, reason: Reason)
        ensures
            self.text() == match self.cause() {
                Some(inner) => self.msg() + ": "@ + inner.text(),
                None => self.msg(),
            },
            self.message_of(reason) == if self.reason() == reason {
                Some(self.msg())
            } else {
                match self.cause() {
                    Some(inner) => inner.message_of(reason),
                    None => None,
                }
            },
    {
    }

    pub fn not_found() -> (e: Self)
        ensures
            e.reason() == Reason::NotFound,
            e.msg() == "not found"@,
            e.cause() is None,
    {
        Error { reason: Reason::NotFound, msg: String::from_str("not found"), cause: None }
    }

    pub fn underlying(msg: String) -> (e: Self)
        ensures
            e.reason() == Reason::Underlying,
            e.msg() == msg@,
            e.cause() is None,
    {
        Error { reason: Reason::Underlying, msg: msg, cause: None }
    }

    pub fn forbidden() -> (e: Self)
        ensures
            e.reason() == Reason::Forbidden,
            e.msg() == "forbidden"@,
            e.cause() is None,
    {
        Error { reason: Reason::Forbidden, msg: String::from_str("forbidden"), cause: None }
    }

    pub fn from_str(msg: &str) -> (e: Self)
        ensures
            e.reason() == Reason::Underlying,
            e.msg() == msg@,
            e.cause() is None,
    {
        Error { reason: Reason::Underlying, msg: String::from_str(msg), cause: None }
    }

    /// `err` with `msg` as the context in which it came up.
    pub fn wrap(err: Error, msg: String) -> (e: Self)
        ensures
            e.reason() == Reason::Wrapped,
            e.msg() == msg@,
            e.cause() == Some(err),
    {
        Error { reason: Reason::Wrapped, msg: msg, cause: Some(Box::new(err)) }
    }

    pub fn wrap_str(err: Error, msg: &str) -> (e: Self)
        ensures
            e.reason() == Reason::Wrapped,
            e.msg() == msg@,
            e.cause() == Some(err),
    {
        Error { reason: Reason::Wrapped, msg: String::from_str(msg), cause: Some(Box::new(err)) }
    }

    /// The message of the first error of the chain that was raised for
    /// `reason`, if there is one.
    pub fn type_message(&self, reason: Reason) -> (found: Option<String>)
        ensures
            match found {
                Some(m) => self.message_of(reason) == Some(m@),
                None => self.message_of(reason) is None,
            },
        decreases self,
    {
        if self.reason == reason {
            Some(self.msg.clone())
        } else {
            match &self.cause {
                Some(inner) => inner.type_message(reason),
                None => None,
            }
        }
    }

    pub fn message(&self) -> (m: String)
        ensures
            m@ == self.msg(),
    {
        self.msg.clone()
    }

    /// The whole chain as one line.
    pub fn to_string(&self) -> (s: String)
        ensures
            s@ == self.text(),
        decreases self,
    {
        match &self.cause {
            Some(inner) => {
                let mut s = self.msg.clone();
                s.append(": ");
                let rest = inner.to_string();
                s.append(rest.as_str());
                s
            },
            None => self.msg.clone(),
        }
    }
}

} // verus!
