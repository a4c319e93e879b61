use travel_advisor::model::airport::Airport;
use travel_advisor::model::airports::Airports;

#[test]
fn test_index() {
    let mut q = Airports::new();
    q <<= Airport { id: 1, name: "1".to_string(), city_id: 1 };
    q <<= Airport { id: 2, name: "2".to_string(), city_id: 2 };
    assert_eq!(2, q.len());
    let a = &q[0];
    assert_eq!(1, a.id.clone());
    let a = q.iter().position(|x| x.id == 2);
    assert!(a.is_some());
    assert_eq!(1, a.unwrap());
    q -= 1;
    assert_eq!(1, q.len());
    let a = &q[0];
    assert_eq!(2, a.id);
}

#[test]
fn shift_on_a_borrowed_list_adds_in_order() {
    let mut q = Airports::new();
    {
        let r = &mut q;
        let _ = r << Airport { id: 7, name: "7".to_string(), city_id: 1 }
            << Airport { id: 8, name: "8".to_string(), city_id: 1 };
    }
    assert_eq!(2, q.len());
    assert_eq!(7, q[0].id);
    assert_eq!(8, q[1].id);
}

#[test]
fn removing_takes_only_the_first_with_the_id() {
    let mut q = Airports::new();
    q <<= Airport { id: 1, name: "first".to_string(), city_id: 1 };
    q <<= Airport { id: 2, name: "other".to_string(), city_id: 1 };
    q <<= Airport { id: 1, name: "second".to_string(), city_id: 1 };
    q -= 1;
    assert_eq!(2, q.len());
    assert_eq!("other", q[0].name);
    assert_eq!("second", q[1].name);
}

#[test]
fn removing_an_unknown_id_changes_nothing() {
    let mut q = Airports::new();
    q <<= Airport { id: 1, name: "1".to_string(), city_id: 1 };
    q -= 5;
    assert_eq!(1, q.len());
    assert_eq!(1, q[0].id);
}
