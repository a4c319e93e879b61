use travel_advisor::util::app_errors::{Error, Reason};
use travel_advisor::util::errors_v2::{do_wrap, ErrorCode, ErrorV2};

#[test]
fn test_errors() {
    let nfe = Error::not_found();
    let we = Error::wrap(nfe, "some error".to_string());

    let mut msg = we.type_message(Reason::NotFound);
    assert_eq!(true, msg.is_some());
    assert_eq!("not found", msg.unwrap());

    msg = we.type_message(Reason::Underlying);
    assert_eq!(true, msg.is_none());

    assert_eq!("some error", we.message());
    assert_eq!("some error: not found", we.to_string());
}

#[test]
fn reasons_have_their_names() {
    assert_eq!("FORBIDDEN", Reason::Forbidden.to_string());
    assert_eq!("NOT_FOUND", Reason::NotFound.to_string());
    assert_eq!("INTERNAL_ERROR", Reason::Underlying.to_string());
    assert_eq!("UNSUPPORTED_ERROR", Reason::Wrapped.to_string());
}

#[test]
fn chain_is_searched_from_the_outside_in() {
    let inner = Error::from_str("disk full");
    let middle = Error::wrap_str(inner, "cannot save");
    let outer = Error::wrap(middle, "request failed".to_string());
    assert_eq!("request failed: cannot save: disk full", outer.to_string());
    assert_eq!(Some("request failed".to_string()), outer.type_message(Reason::Wrapped));
    assert_eq!(Some("disk full".to_string()), outer.type_message(Reason::Underlying));
    assert_eq!(None, outer.type_message(Reason::Forbidden));
    assert_eq!("forbidden", Error::forbidden().message());
    assert_eq!("broken", Error::underlying("broken".to_string()).to_string());
}

fn parts(e: &ErrorV2) -> (&'static str, ErrorCode, String) {
    match e {
        ErrorV2::Internal(p) => ("internal", p.get_code(), p.get_description()),
        ErrorV2::NotFound(p) => ("not found", p.get_code(), p.get_description()),
        ErrorV2::Forbidden(p) => ("forbidden", p.get_code(), p.get_description()),
        ErrorV2::BadRequest(p) => ("bad request", p.get_code(), p.get_description()),
        ErrorV2::Unauthorized(p) => ("unauthorized", p.get_code(), p.get_description()),
    }
}

#[test]
fn each_kind_has_its_code() {
    assert_eq!(
        ("internal", ErrorCode::DbRead, "a".to_string()),
        parts(&ErrorV2::internal(ErrorCode::DbRead, "a".to_string()))
    );
    assert_eq!(
        ("internal", ErrorCode::JwtExpired, "b".to_string()),
        parts(&ErrorV2::internal_str(ErrorCode::JwtExpired, "b"))
    );
    assert_eq!(
        ("not found", ErrorCode::EntityNotFound, "c".to_string()),
        parts(&ErrorV2::not_found("c".to_string()))
    );
    assert_eq!(
        ("forbidden", ErrorCode::ForbiddenResource, "d".to_string()),
        parts(&ErrorV2::forbidden("d".to_string()))
    );
    assert_eq!(
        ("forbidden", ErrorCode::ForbiddenResource, "e".to_string()),
        parts(&ErrorV2::forbidden_str("e"))
    );
    assert_eq!(
        ("unauthorized", ErrorCode::Unauthorized, "f".to_string()),
        parts(&ErrorV2::unauthorized("f".to_string()))
    );
    assert_eq!(
        ("unauthorized", ErrorCode::Unauthorized, "g".to_string()),
        parts(&ErrorV2::unauthorized_str("g"))
    );
    assert_eq!(
        ("bad request", ErrorCode::ValidationError, "h".to_string()),
        parts(&ErrorV2::bad_request("h".to_string()))
    );
}

#[test]
fn wrapping_keeps_kind_and_code_and_puts_the_context_first() {
    let e = ErrorV2::internal(ErrorCode::DbSave, "no space".to_string());
    let w = e.wrap("saving route".to_string()).wrap_str("upload");
    assert_eq!(("internal", ErrorCode::DbSave, "upload: saving route: no space".to_string()), parts(&w));
    let n = ErrorV2::not_found("gone".to_string()).wrap_str("lookup");
    assert_eq!(("not found", ErrorCode::EntityNotFound, "lookup: gone".to_string()), parts(&n));
    if let ErrorV2::NotFound(p) = n {
        let again = do_wrap("outer".to_string(), p);
        assert_eq!("outer: lookup: gone", again.get_description());
        assert_eq!(ErrorCode::EntityNotFound, again.get_code());
        assert_eq!("error", again.to_string());
    } else {
        panic!("wrapping changed the kind");
    }
}

#[test]
fn codes_have_their_texts() {
    assert_eq!("INTERNAL_ERROR", ErrorCode::InternalError.to_string());
    assert_eq!("ENTITY_NOT_FOUND", ErrorCode::EntityNotFound.to_string());
    assert_eq!("DB_READ_ERROR", ErrorCode::DbRead.to_string());
    assert_eq!("DB_SAVE_ERROR", ErrorCode::DbSave.to_string());
    assert_eq!("DB_DELETE_ERROR", ErrorCode::DbDelete.to_string());
    assert_eq!("GET_DB_CONNECTIONS", ErrorCode::GetDbConnection.to_string());
    assert_eq!("SERIALIZATION_ERROR", ErrorCode::SerializeError.to_string());
    assert_eq!("FORBIDDEN_RESOURCE", ErrorCode::ForbiddenResource.to_string());
    assert_eq!("UNAUTHORIZED", ErrorCode::Unauthorized.to_string());
    assert_eq!("NO_AUTHORIZATION_HEADER", ErrorCode::NoAuthorizationHeader.to_string());
    assert_eq!("JWT_EXPIRED", ErrorCode::JwtExpired.to_string());
    assert_eq!("JWT_NOT_ACTIVE", ErrorCode::JwtNotActive.to_string());
    assert_eq!("JWT_MALFORMED", ErrorCode::JwtMalformed.to_string());
    assert_eq!("TEXT_ROW_PARSE", ErrorCode::TextRowParse.to_string());
    assert_eq!("VALIDATION_ERROR", ErrorCode::ValidationError.to_string());
    assert_eq!("SERIALIZATION_ERROR", ErrorCode::SerializationError.to_string());
}
