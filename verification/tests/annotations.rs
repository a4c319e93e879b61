use travel_advisor::annotations::{
    get_param_name_by_type, roles, roles_with, untrimmed_param_name, with_first_statement,
};

#[test]
fn lib_it_works() {
    println!("{}", "strale");
}

#[test]
fn test_auth_macro() {
    let func_str = "async fn upload_airpots(
            req: HttpRequest,
            payload: web::Bytes,
            airport_service: Data<Arc<dyn AirportService + Send + Sync>>,
            auth_service: Data<Arc<dyn AuthService + Send + Sync>>
        ) -> Result<impl Responder, Error> {
            // validate access right
            //get_user_if_has_roles!(req, auth_service, vec![\"admin\"]);
            // save airports
            match airport_service.into_inner().save_airports(payload.to_vec().as_slice()) {
                Ok(()) => Ok(HttpResponse::Ok().finish()),
                Err(err) => Err(err.wrap_str(\"failed to save all airports\")),
            }
        }".to_string();
    let roles = "\"admin\"".to_string();
    let auth_service_param = get_param_name_by_type("Data<Arc<dyn AuthService + Send + Sync>>", func_str.clone());
    let req_param = get_param_name_by_type("HttpRequest", func_str.clone());
    let (first, other) = func_str.split_at(func_str.find('(').expect("failed to split string") + 1);
    let (second, third) = other.split_at(other.find('{').expect("failed to get split string the second time") + 1);
    let validation_code = format!(
        "match {}.get_user_if_has_role(
                match {}.headers().get(actix_web::http::header::AUTHORIZATION) {{
                    Some(header) => Some(header.to_str()),
                    None => None,
                }},
                vec![{}]
            ) {{
                Err(err) => return Err(err),
                Ok(user_option) => match user_option {{
                    Some(user) => user,
                    None => return Err(Error::unauthorized_str(\"user has no rights for this operation\")),
                }}
            }};",
        match auth_service_param.clone() {
            Some(s) => s,
            None => "auth_service".to_string(),
        },
        match req_param.clone() {
            Some(s) => s,
            None => "req".to_string(),
        },
        roles,
    );
    let final_func = format!(
        "{}{}{}{}{}{}",
        first,
        match req_param {
            None => "req: actix_web::HttpRequest,",
            _ => "",
        },
        match auth_service_param {
            None => "auth_service: actix_web::web::Data<Arc<dyn AuthService + Send + Sync>>,",
            _ => "",
        },
        second,
        validation_code,
        third,
    );
    println!("{}", final_func);
}

#[test]
fn parameter_names_are_found_by_type() {
    let text = "fn handler(req: HttpRequest, auth_service: Data<AuthService>) -> u8 { 0 }";
    assert_eq!(Some("req".to_string()), get_param_name_by_type("HttpRequest", text.to_string()));
    assert_eq!(
        Some("auth_service".to_string()),
        get_param_name_by_type("Data<AuthService>", text.to_string())
    );
    assert_eq!(None, get_param_name_by_type("HttpResponse", text.to_string()));
}

#[test]
fn name_is_trimmed_only_by_the_trimming_step() {
    let text = "fn f(  a : A,\n\t b : B)";
    assert_eq!(Some("  a ".to_string()), untrimmed_param_name("A", text));
    assert_eq!(Some("a".to_string()), get_param_name_by_type("A", text.to_string()));
    assert_eq!(Some("\n\t b ".to_string()), untrimmed_param_name("B", text));
    assert_eq!(Some("b".to_string()), get_param_name_by_type("B", text.to_string()));
}

#[test]
fn type_without_a_separator_before_it_has_no_name() {
    assert_eq!(None, get_param_name_by_type("A", "a: A".to_string()));
    assert_eq!(None, untrimmed_param_name("A", "a: A"));
}

#[test]
fn last_comma_wins_over_an_earlier_parenthesis() {
    assert_eq!(Some("y".to_string()), get_param_name_by_type("Y", "f(x: X, y: Y)".to_string()));
    assert_eq!(Some("x".to_string()), get_param_name_by_type("X", "f(x: X, y: Y)".to_string()));
    // the first occurrence of the type decides
    assert_eq!(Some("a".to_string()), get_param_name_by_type("T", "f(a: T, b: T)".to_string()));
}

#[test]
fn statement_goes_right_behind_the_first_brace() {
    assert_eq!(
        Some("fn f() {println!(\"hi\"); g() }".to_string()),
        with_first_statement("fn f() { g() }", "println!(\"hi\");")
    );
    assert_eq!(Some("{x{}".to_string()), with_first_statement("{{}", "x"));
    assert_eq!(Some("a{".to_string()), with_first_statement("a{", ""));
    assert_eq!(None, with_first_statement("fn f();", "x"));
    assert_eq!(None, with_first_statement("", "x"));
}

/// The check of roles, put together the way a template would.
fn expected_check(auth: &str, req: &str, roles: &str) -> String {
    format!(
        "match {}.get_user_if_has_role(
            match {}.headers().get(actix_web::http::header::AUTHORIZATION) {{
                Some(header) => Some(header.to_str()),
                None => None,
            }},
            vec![{}]
        ) {{
            Err(err) => return Err(err),
            Ok(user_option) => match user_option {{
                Some(user) => user,
                None => return Err(Error::unauthorized_str(\"user has no rights for this operation\")),
            }}
        }};",
        auth, req, roles,
    )
}

#[test]
fn handler_with_both_parameters_gets_only_the_check() {
    let item = "async fn h(request: HttpRequest, auth: Data<Arc<dyn AuthService>>) -> R { body }";
    let expected = format!(
        "async fn h(request: HttpRequest, auth: Data<Arc<dyn AuthService>>) -> R {{{} body }}",
        expected_check("auth", "request", "\"admin\"")
    );
    assert_eq!(Some(expected), roles("\"admin\"", item));
}

#[test]
fn handler_without_parameters_gets_them_too() {
    let item = "async fn h(id: Path<String>) -> R { body }";
    let expected = format!(
        "async fn h({}{}id: Path<String>) -> R {{{} body }}",
        "req: actix_web::HttpRequest,",
        "auth_service: actix_web::web::Data<std::sync::Arc<dyn crate::services::traits::AuthService + std::marker::Send + std::marker::Sync>>,",
        expected_check("auth_service", "req", "\"admin\",\"user\"")
    );
    assert_eq!(Some(expected), roles("\"admin\",\"user\"", item));
}

#[test]
fn names_of_the_parameters_can_be_given() {
    let item = "fn h(a: A) { x }";
    let expected = format!("fn h(a: A) {{{} x }}", expected_check("svc", "r", "\"a\""));
    assert_eq!(
        Some(expected),
        roles_with("\"a\"", item, Some("svc".to_string()), Some("r".to_string()))
    );
    let expected = format!(
        "fn h(req: actix_web::HttpRequest,a: A) {{{} x }}",
        expected_check("svc", "req", "")
    );
    assert_eq!(Some(expected), roles_with("", item, Some("svc".to_string()), None));
}

#[test]
fn text_that_is_no_function_is_not_guarded() {
    assert_eq!(None, roles("\"admin\"", "struct S;"));
    assert_eq!(None, roles("\"admin\"", "fn f(a: A);"));
    assert_eq!(None, roles("\"admin\"", "{ fn f( }"));
}
