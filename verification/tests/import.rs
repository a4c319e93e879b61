use travel_advisor::model::common::{leading_rows, read_rows, FromStringRecord};
use travel_advisor::model::route::{field_number, route_from_numbers, Route};
use travel_advisor::services::route_service::read_routes;
use travel_advisor::storage::user::{password_hash, to_hex};
use travel_advisor::util::errors_v2::{ErrorCode, ErrorV2};

#[test]
fn test_md5() {
    let password = "admin_pass".to_string();
    assert_eq!("7adc785be4a31eff6783871ff63e18f1".to_string(), password_hash(password.as_str()));
}

#[test]
fn digest_of_the_empty_text() {
    assert_eq!("d41d8cd98f00b204e9800998ecf8427e", password_hash(""));
    assert_eq!(32, password_hash("any other").len());
}

#[test]
fn bytes_in_hexadecimal() {
    assert_eq!("", to_hex(&vec![]));
    assert_eq!("00", to_hex(&vec![0]));
    assert_eq!("0a", to_hex(&vec![10]));
    assert_eq!("ff", to_hex(&vec![255]));
    assert_eq!("0123456789abcdef", to_hex(&vec![0x01, 0x23, 0x45, 0x67, 0x89, 0xab, 0xcd, 0xef]));
    assert_eq!("10f0", to_hex(&vec![16, 240]));
}

fn fields(row: &[&str]) -> Vec<String> {
    row.iter().map(|f| f.to_string()).collect()
}

fn text_row_error(e: &ErrorV2) -> String {
    match e {
        ErrorV2::Internal(payload) => {
            assert_eq!(ErrorCode::TextRowParse, payload.get_code());
            payload.get_description()
        }
        other => panic!("expected an internal error, got {:?}", other),
    }
}

#[test]
fn rows_after_the_header_are_read() {
    let read = read_rows(b"start,finish,price\n1,2,30\n 4 ,5,\"6,7\"\n");
    assert_eq!(vec![fields(&["1", "2", "30"]), fields(&[" 4 ", "5", "6,7"])], read.rows);
    assert_eq!(None, read.problem);
    let none = read_rows(b"only,a,header\n");
    assert!(none.rows.is_empty());
    assert_eq!(None, none.problem);
    let nothing = read_rows(b"");
    assert!(nothing.rows.is_empty());
    assert_eq!(None, nothing.problem);
}

#[test]
fn reading_stops_at_the_first_row_that_cannot_be_read() {
    let read = read_rows(b"a,b,c\n1,2,3\n4,5\n6,7,8\n");
    assert_eq!(vec![fields(&["1", "2", "3"])], read.rows);
    let problem = read.problem.expect("the second row is too short");
    assert!(problem.contains("found record with 2 fields"), "{}", problem);
}

#[test]
fn rows_are_taken_up_to_the_first_problem() {
    let rows = vec![
        Ok(fields(&["a"])),
        Ok(fields(&["b", "c"])),
        Err("broken".to_string()),
        Ok(fields(&["d"])),
        Err("broken again".to_string()),
    ];
    let read = leading_rows(&rows);
    assert_eq!(vec![fields(&["a"]), fields(&["b", "c"])], read.rows);
    assert_eq!(Some("broken".to_string()), read.problem);
    let read = leading_rows(&vec![Ok(fields(&["x"]))]);
    assert_eq!(vec![fields(&["x"])], read.rows);
    assert_eq!(None, read.problem);
    let read = leading_rows(&vec![]);
    assert!(read.rows.is_empty());
    assert_eq!(None, read.problem);
}

#[test]
fn row_of_three_numbers_is_a_flight_without_id() {
    let route = Route::from_string_record(fields(&["3", "-4", "150", "ignored"])).unwrap();
    assert_eq!(Route { id: 0, start: 3, finish: -4, price: 150 }, route);
}

#[test]
fn first_bad_field_of_a_row_is_named() {
    let e = Route::from_string_record(fields(&["x", "y", "z"])).unwrap_err();
    assert_eq!("bad start city ID: invalid digit found in string", text_row_error(&e));
    let e = Route::from_string_record(fields(&["1", "", "z"])).unwrap_err();
    assert_eq!("bad finish city ID: cannot parse integer from empty string", text_row_error(&e));
    let e = Route::from_string_record(fields(&["1", "2", "9223372036854775808"])).unwrap_err();
    assert_eq!("bad price: number too large to fit in target type", text_row_error(&e));
    let e = Route::from_string_record(fields(&["1", " 2", "3"])).unwrap_err();
    assert_eq!("bad finish city ID: invalid digit found in string", text_row_error(&e));
}

#[test]
fn missing_field_of_a_row_is_an_error() {
    let e = Route::from_string_record(fields(&["1", "2"])).unwrap_err();
    assert_eq!("bad price: the field is missing", text_row_error(&e));
    let e = Route::from_string_record(vec![]).unwrap_err();
    assert_eq!("bad start city ID: the field is missing", text_row_error(&e));
    assert_eq!(Err("the field is missing".to_string()), field_number(&fields(&["7"]), 1));
    assert_eq!(Ok(7), field_number(&fields(&["7"]), 0));
    assert_eq!(Ok(-7), field_number(&fields(&["+1", "-7"]), 1));
}

#[test]
fn numbers_decide_in_the_order_start_finish_price() {
    let bad = |m: &str| Err(m.to_string());
    assert_eq!(
        Route { id: 0, start: 1, finish: 2, price: 3 },
        route_from_numbers(Ok(1), Ok(2), Ok(3)).unwrap()
    );
    let e = route_from_numbers(bad("s"), bad("f"), bad("p")).unwrap_err();
    assert_eq!("bad start city ID: s", text_row_error(&e));
    let e = route_from_numbers(Ok(1), bad("f"), bad("p")).unwrap_err();
    assert_eq!("bad finish city ID: f", text_row_error(&e));
    let e = route_from_numbers(Ok(1), Ok(2), bad("p")).unwrap_err();
    assert_eq!("bad price: p", text_row_error(&e));
}

#[test]
fn flights_are_read_from_a_text() {
    let read = read_routes(b"start,finish,price\n1,2,30\n2,3,45\n");
    assert_eq!(
        vec![
            Route { id: 0, start: 1, finish: 2, price: 30 },
            Route { id: 0, start: 2, finish: 3, price: 45 }
        ],
        read.routes
    );
    assert!(read.failure.is_none());
}

#[test]
fn reading_of_flights_stops_at_a_row_that_is_no_flight() {
    let read = read_routes(b"start,finish,price\n1,2,30\n2,x,45\n3,4,5\n");
    assert_eq!(vec![Route { id: 0, start: 1, finish: 2, price: 30 }], read.routes);
    let e = read.failure.expect("the second row is no flight");
    assert_eq!("only pocessed 1: malformed CSV: internal", text_row_error(&e));
}

#[test]
fn reading_of_flights_stops_at_a_row_that_cannot_be_read() {
    let read = read_routes(b"start,finish,price\n1,2,30\n2,3,45\n3,4\n5,6,7\n");
    assert_eq!(2, read.routes.len());
    let e = read.failure.expect("the third row is too short");
    let message = text_row_error(&e);
    assert!(message.starts_with("only pocessed 2: malformed CSV: CSV error:"), "{}", message);
}

#[test]
fn errors_read_as_their_kind_and_have_their_status() {
    let all = [
        (ErrorV2::internal_str(ErrorCode::DbRead, "x"), "internal", 500),
        (ErrorV2::not_found("x".to_string()), "not found", 404),
        (ErrorV2::forbidden_str("x"), "forbidden", 403),
        (ErrorV2::bad_request("x".to_string()), "bad request", 400),
        (ErrorV2::unauthorized_str("x"), "unauthorized", 401),
    ];
    for (e, kind, status) in all {
        assert_eq!(kind, e.to_string());
        assert_eq!(status, e.status_code());
    }
}
