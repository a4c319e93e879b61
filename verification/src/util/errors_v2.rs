//! The error type of the services and of the route search: a kind, a stable
//! machine-readable code and a description for people.

use vstd::prelude::*;
use vstd::string::StringExecFns;

verus! {

/// Machine-readable cause of an error.
#[derive(Debug, Clone, Copy, PartialEq, Eq, Structural)]
pub enum ErrorCode {
    InternalError,
    EntityNotFound,
    DbRead,
    DbSave,
    DbDelete,
    GetDbConnection,
    SerializeError,
    ForbiddenResource,
    Unauthorized,
    NoAuthorizationHeader,
    JwtExpired,
    JwtNotActive,
    JwtMalformed,
    TextRowParse,
    ValidationError,
    SerializationError,
}

impl ErrorCode {
    /// The text under which the code travels to clients.
    pub open spec fn text(self) -> Seq<char> {
        match self {
            ErrorCode::InternalError => "INTERNAL_ERROR"@,
            ErrorCode::EntityNotFound => "ENTITY_NOT_FOUND"@,
            ErrorCode::DbRead => "DB_READ_ERROR"@,
            ErrorCode::DbSave => "DB_SAVE_ERROR"@,
            ErrorCode::DbDelete => "DB_DELETE_ERROR"@,
            ErrorCode::GetDbConnection => "GET_DB_CONNECTIONS"@,
            ErrorCode::SerializeError => "SERIALIZATION_ERROR"@,
            ErrorCode::ForbiddenResource => "FORBIDDEN_RESOURCE"@,
            ErrorCode::Unauthorized => "UNAUTHORIZED"@,
            ErrorCode::NoAuthorizationHeader => "NO_AUTHORIZATION_HEADER"@,
            ErrorCode::JwtExpired => "JWT_EXPIRED"@,
            ErrorCode::JwtNotActive => "JWT_NOT_ACTIVE"@,
            ErrorCode::JwtMalformed => "JWT_MALFORMED"@,
            ErrorCode::TextRowParse => "TEXT_ROW_PARSE"@,
            ErrorCode::ValidationError => "VALIDATION_ERROR"@,
            ErrorCode::SerializationError => "SERIALIZATION_ERROR"@,
        }
    }

    pub fn to_string(&self) -> (s: String)
        ensures
            s@ == self.text(),
    {
        let text = match self {
            ErrorCode::InternalError => "INTERNAL_ERROR",
            ErrorCode::EntityNotFound => "ENTITY_NOT_FOUND",
            ErrorCode::DbRead => "DB_READ_ERROR",
            ErrorCode::DbSave => "DB_SAVE_ERROR",
            ErrorCode::DbDelete => "DB_DELETE_ERROR",
            ErrorCode::GetDbConnection => "GET_DB_CONNECTIONS",
            ErrorCode::SerializeError => "SERIALIZATION_ERROR",
            ErrorCode::ForbiddenResource => "FORBIDDEN_RESOURCE",
            ErrorCode::Unauthorized => "UNAUTHORIZED",
            ErrorCode::NoAuthorizationHeader => "NO_AUTHORIZATION_HEADER",
            ErrorCode::JwtExpired => "JWT_EXPIRED",
            ErrorCode::JwtNotActive => "JWT_NOT_ACTIVE",
            ErrorCode::JwtMalformed => "JWT_MALFORMED",
            ErrorCode::TextRowParse => "TEXT_ROW_PARSE",
            ErrorCode::ValidationError => "VALIDATION_ERROR",
            ErrorCode::SerializationError => "SERIALIZATION_ERROR",
        };
        String::from_str(text)
    }
}

/// What every error carries, whatever its kind.
#[derive(Debug)]
pub struct ErrorV2Payload {
    code: ErrorCode,
    description: String,
}

impl ErrorV2Payload {
    pub closed spec fn code(&self) -> ErrorCode {
        self.code
    }

    pub closed spec fn description(&self) -> Seq<char> {
        self.description@
    }

    pub fn get_code(&self) -> (c: ErrorCode)
        ensures
            c == self.code(),
    {
        self.code
    }

    pub fn get_description(&self) -> (d: String)
        ensures
            d@ == self.description(),
    {
        self.description.clone()
    }

    /// A payload reads as the fixed word `error`; the description is for
    /// the response body.
    pub fn to_string(&self) -> (s: String)
        ensures
            s@ == "error"@,
    {
        String::from_str("error")
    }
}

impl Clone for ErrorV2Payload {
    fn clone(&self) -> (c: Self)
        ensures
            c.code() == self.code(),
            c.description() == self.description(),
    {
        ErrorV2Payload { code: self.code, description: self.description.clone() }
    }
}

/// The description of an error that was wrapped in context: the context,
/// a colon and a space, then the description it had.
pub open spec fn wrapped_description(msg: Seq<char>, inner: Seq<char>) -> Seq<char> {
    msg + ": "@ + inner
}

/// Whether a description is that of an error that was wrapped in the
/// context `context`.
pub open spec fn has_context(description: Seq<char>, context: Seq<char>) -> bool {
    exists|inner: Seq<char>| description == #[trigger] wrapped_description(context, inner)
}

/// The payload with `msg` put in front of its description.
pub fn do_wrap(msg: String, p: ErrorV2Payload) -> (w: ErrorV2Payload)
    ensures
        w.code() == p.code(),
        w.description() == wrapped_description(msg@, p.description()),
        has_context(w.description(), msg@),
{
    let mut description = msg;
    description.append(": ");
    description.append(p.description.as_str());
    ErrorV2Payload { code: p.code, description }
}

/// An error by its kind; the kind decides how it is answered.
#[derive(Debug)]
pub enum ErrorV2 {
    Internal(ErrorV2Payload),
    NotFound(ErrorV2Payload),
    Forbidden(ErrorV2Payload),
    BadRequest(ErrorV2Payload),
    Unauthorized(ErrorV2Payload),
}

impl ErrorV2 {
    /// What the error carries.
    pub open spec fn payload(&self) -> ErrorV2Payload {
        match self {
            ErrorV2::Internal(p) => *p,
            ErrorV2::NotFound(p) => *p,
            ErrorV2::Forbidden(p) => *p,
            ErrorV2::BadRequest(p) => *p,
            ErrorV2::Unauthorized(p) => *p,
        }
    }

    /// The kind of the error in words.
    pub open spec fn kind_text(&self) -> Seq<char> {
        match self {
            ErrorV2::Internal(_) => "internal"@,
            ErrorV2::NotFound(_) => "not found"@,
            ErrorV2::Forbidden(_) => "forbidden"@,
            ErrorV2::BadRequest(_) => "bad request"@,
            ErrorV2::Unauthorized(_) => "unauthorized"@,
        }
    }

    /// An error reads as its kind; the description is for the response
    /// body.
    pub fn to_string(&self) -> (s: String)
        ensures
            s@ == self.kind_text(),
    {
        match self {
            ErrorV2::Internal(_) => String::from_str("internal"),
            ErrorV2::NotFound(_) => String::from_str("not found"),
            ErrorV2::Forbidden(_) => String::from_str("forbidden"),
            ErrorV2::BadRequest(_) => String::from_str("bad request"),
            ErrorV2::Unauthorized(_) => String::from_str("unauthorized"),
        }
    }

    /// The status with which the error is answered over HTTP.
    pub open spec fn status(&self) -> u16 {
        match self {
            ErrorV2::Internal(_) => 500,
            ErrorV2::NotFound(_) => 404,
            ErrorV2::Forbidden(_) => 403,
            ErrorV2::BadRequest(_) => 400,
            ErrorV2::Unauthorized(_) => 401,
        }
    }

    /// The status with which the error is answered over HTTP.
    pub fn status_code(&self) -> (code: u16)
        ensures
            code == self.status(),
    {
        match self {
            ErrorV2::Internal(_) => 500,
            ErrorV2::NotFound(_) => 404,
            ErrorV2::Forbidden(_) => 403,
            ErrorV2::BadRequest(_) => 400,
            ErrorV2::Unauthorized(_) => 401,
        }
    }

    /// Two errors are of one kind when they are the same variant.
    pub open spec fn same_kind(&self, other: &ErrorV2) -> bool {
        match self {
            ErrorV2::Internal(_) => other is Internal,
            ErrorV2::NotFound(_) => other is NotFound,
            ErrorV2::Forbidden(_) => other is Forbidden,
            ErrorV2::BadRequest(_) => other is BadRequest,
            ErrorV2::Unauthorized(_) => other is Unauthorized,
        }
    }

    pub fn internal(code: ErrorCode, msg: String) -> (e: Self)
        ensures
            e is Internal,
            e.payload().code() == code,
            e.payload().description() == msg@,
    {
        ErrorV2::Internal(ErrorV2Payload { code: code, description: msg })
    }

    pub fn internal_str(code: ErrorCode, msg: &str) -> (e: Self)
        ensures
            e is Internal,
            e.payload().code() == code,
            e.payload().description() == msg@,
    {
        ErrorV2::Internal(ErrorV2Payload { code: code, description: String::from_str(msg) })
    }

    pub fn not_found(msg: String) -> (e: Self)
        ensures
            e is NotFound,
            e.payload().code() == ErrorCode::EntityNotFound,
            e.payload().description() == msg@,
    {
        ErrorV2::NotFound(ErrorV2Payload { code: ErrorCode::EntityNotFound, description: msg })
    }

    pub fn forbidden(msg: String) -> (e: Self)
        ensures
            e is Forbidden,
            e.payload().code() == ErrorCode::ForbiddenResource,
            e.payload().description() == msg@,
    {
        ErrorV2::Forbidden(ErrorV2Payload { code: ErrorCode::ForbiddenResource, description: msg })
    }

    pub fn forbidden_str(msg: &str) -> (e: Self)
        ensures
            e is Forbidden,
            e.payload().code() == ErrorCode::ForbiddenResource,
            e.payload().description() == msg@,
    {
        Self::forbidden(String::from_str(msg))
    }

    pub fn unauthorized(msg: String) -> (e: Self)
        ensures
            e is Unauthorized,
            e.payload().code() == ErrorCode::Unauthorized,
            e.payload().description() == msg@,
    {
        ErrorV2::Unauthorized(ErrorV2Payload { code: ErrorCode::Unauthorized, description: msg })
    }

    pub fn unauthorized_str(msg: &str) -> (e: Self)
        ensures
            e is Unauthorized,
            e.payload().code() == ErrorCode::Unauthorized,
            e.payload().description() == msg@,
    {
        ErrorV2::Unauthorized(
            ErrorV2Payload { code: ErrorCode::Unauthorized, description: String::from_str(msg) },
        )
    }

    pub fn bad_request(msg: String) -> (e: Self)
        ensures
            e is BadRequest,
            e.payload().code() == ErrorCode::ValidationError,
            e.payload().description() == msg@,
    {
        ErrorV2::BadRequest(ErrorV2Payload { code: ErrorCode::ValidationError, description: msg })
    }

    /// The same kind and code, with `msg` put in front of the description.
    pub fn wrap(&self, msg: String) -> (e: Self)
        ensures
            e.same_kind(self),
            e.payload().code() == self.payload().code(),
            e.payload().description() == wrapped_description(
                msg@,
                self.payload().description(),
            ),
            has_context(e.payload().description(), msg@),
    {
        match self {
            ErrorV2::Internal(p) => ErrorV2::Internal(do_wrap(msg, p.clone())),
            ErrorV2::NotFound(p) => ErrorV2::NotFound(do_wrap(msg, p.clone())),
            ErrorV2::Forbidden(p) => ErrorV2::Forbidden(do_wrap(msg, p.clone())),
            ErrorV2::BadRequest(p) => ErrorV2::BadRequest(do_wrap(msg, p.clone())),
            ErrorV2::Unauthorized(p) => ErrorV2::Unauthorized(do_wrap(msg, p.clone())),
        }
    }

    pub fn wrap_str(&self, msg: &str) -> (e: Self)
        ensures
            e.same_kind(self),
            e.payload().code() == self.payload().code(),
            e.payload().description() == wrapped_description(
                msg@,
                self.payload().description(),
            ),
            has_context(e.payload().description(), msg@),
    {
        self.wrap(String::from_str(msg))
    }
}

} // verus!
