use travel_advisor::api::responses::{resolve_error, ErrorPayload, ErrorType};
use travel_advisor::model::user::{User, UserDB};
use travel_advisor::storage::entities::{AirportDB, CityDB};
use travel_advisor::util::app_errors::Error;
use travel_advisor::util::seqs::insert_sorted;
use travel_advisor::util::text::{i64_to_string, ids_to_string, split_on};

#[test]
fn text_is_cut_at_every_separator() {
    assert_eq!(vec!["admin", "user"], split_on("admin,user", ','));
    assert_eq!(vec![""], split_on("", ','));
    assert_eq!(vec!["alone"], split_on("alone", ','));
    assert_eq!(vec!["", "a", "", "b", ""], split_on(",a,,b,", ','));
    assert_eq!(vec!["über", "straße"], split_on("über;straße", ';'));
}

#[test]
fn split_agrees_with_the_standard_library() {
    for text in ["", ",", "a", "a,b", ",,", "ab,cd,ef", "x,", ",y", "é,ü,"] {
        let expected: Vec<String> = text.split(',').map(|s| s.to_string()).collect();
        assert_eq!(expected, split_on(text, ','));
    }
}

#[test]
fn numbers_are_written_in_decimal() {
    assert_eq!("0", i64_to_string(0));
    assert_eq!("7", i64_to_string(7));
    assert_eq!("10", i64_to_string(10));
    assert_eq!("-1", i64_to_string(-1));
    assert_eq!("1234567890", i64_to_string(1234567890));
    assert_eq!("9223372036854775807", i64_to_string(i64::MAX));
    assert_eq!("-9223372036854775808", i64_to_string(i64::MIN));
    for n in [-1000, -999, -10, -9, 9, 99, 100, 101, 4096] {
        assert_eq!(n.to_string(), i64_to_string(n));
    }
}

#[test]
fn lists_are_written_in_brackets() {
    assert_eq!("[]", ids_to_string(&vec![]));
    assert_eq!("[5]", ids_to_string(&vec![5]));
    assert_eq!("[1, -2, 30]", ids_to_string(&vec![1, -2, 30]));
    assert_eq!(format!("{:?}", vec![3i64, 2, 1]), ids_to_string(&vec![3, 2, 1]));
}

#[test]
fn sorted_insertion_keeps_order_and_skips_what_is_there() {
    let mut list = vec![];
    for x in [5, 1, 3, 5, 2, 1, 4, -7] {
        insert_sorted(&mut list, x);
    }
    assert_eq!(vec![-7, 1, 2, 3, 4, 5], list);
}

#[test]
fn roles_of_a_stored_user_are_the_pieces_between_commas() {
    let record = UserDB {
        id: 4,
        email: "a@b.c".to_string(),
        pass: "hash".to_string(),
        roles: "user,admin".to_string(),
    };
    let user = User::from_db(&record);
    assert_eq!((4, "a@b.c", "hash"), (user.id, user.email.as_str(), user.pass.as_str()));
    assert_eq!(vec!["user", "admin"], user.roles);
    assert!(user.is_admin());

    let plain = User::from_db(&UserDB { roles: "user".to_string(), ..record });
    assert!(!plain.is_admin());
}

#[test]
fn only_the_exact_role_makes_an_admin() {
    let user = |roles: &[&str]| User {
        id: 1,
        email: String::new(),
        pass: String::new(),
        roles: roles.iter().map(|r| r.to_string()).collect(),
    };
    assert!(!user(&[]).is_admin());
    assert!(!user(&["Admin", "administrator", " admin"]).is_admin());
    assert!(user(&["guest", "admin"]).is_admin());
}

#[test]
fn stored_records_become_models() {
    let city = CityDB { id: 3, name: "Ctown".to_string() }.to_city();
    assert_eq!((3, "Ctown", 0, 0), (city.id, city.name.as_str(), city.airports.len(), city.comments.len()));
    let airport = AirportDB { id: 1, city_id: 3, name: "C1".to_string() }.to_model();
    assert_eq!((1, 3, "C1"), (airport.id, airport.city_id, airport.name.as_str()));
}

fn resolved(err: Error, msg: Option<&str>) -> (u16, String, String) {
    let (status, payload) = resolve_error(err, msg);
    (status, payload.code, payload.message)
}

#[test]
fn forbidden_decides_before_not_found() {
    let both = Error::wrap_str(Error::wrap_str(Error::forbidden(), "inner"), "outer");
    assert_eq!((403, "FORBIDDEN".to_string(), "forbidden".to_string()), resolved(both, Some("ctx")));
    let missing = Error::wrap_str(Error::not_found(), "lookup");
    assert_eq!((404, "NOT_FOUND".to_string(), "not found".to_string()), resolved(missing, None));
}

#[test]
fn anything_else_is_the_servers_fault_with_the_whole_chain() {
    let broken = Error::wrap_str(Error::from_str("disk full"), "save");
    assert_eq!(
        (500, "BASE_ERROR".to_string(), "save: disk full".to_string()),
        resolved(broken, None)
    );
    let broken = Error::wrap_str(Error::from_str("disk full"), "save");
    assert_eq!(
        (500, "BASE_ERROR".to_string(), "upload: save: disk full".to_string()),
        resolved(broken, Some("upload"))
    );
}

#[test]
fn error_bodies_carry_the_code_of_their_kind() {
    assert_eq!("BAD_REQUEST", ErrorType::BadRequest.to_string());
    assert_eq!("NOT_FOUND", ErrorType::NotFound.to_string());
    assert_eq!("FORBIDDEN", ErrorType::Forbidden.to_string());
    assert_eq!("BASE_ERROR", ErrorType::Base.to_string());
    let payload = ErrorPayload::new(ErrorType::BadRequest, "no".to_string());
    assert_eq!(("BAD_REQUEST", "no"), (payload.code.as_str(), payload.message.as_str()));
}
