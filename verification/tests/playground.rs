use serde::ser::SerializeStruct;
use travel_advisor::playground::meters::Meters;
use travel_advisor::playground::usage::Greeter;
use travel_advisor::playground::wrapper::Items;

struct NumContent {
    num: i32,
}

#[test]
fn test_changing_boxed_contents() {
    let num = NumContent { num: 5 };
    let mut boxed = Box::new(num);
    {
        let refed = boxed.as_mut();
        refed.num += 1;
    }
    let _q = boxed.as_ref();
    let addr = &mut boxed;
    {
        let w = addr.as_mut();
        w.num += 1;
    }
    let _r = Box::new(addr.as_ref());
    let _ = addr.num;
    println!("{}", boxed.num.clone());
}

pub fn concat_strings(first: &String, second: String) -> String {
    format!("{first} {second}")
}

#[test]
fn test_ownership() {
    let rust = "Rust".to_string();
    let language = String::from("language");
    assert_eq!("Rust language", concat_strings(&rust, language));
}

enum Either<L, R> {
    Left(L),
    Right(R),
}

impl<L, R> Either<L, R> {
    fn is_left(&self) -> bool {
        match self {
            Either::Left(_) => true,
            Either::Right(_) => false,
        }
    }

    fn is_right(&self) -> bool {
        !self.is_left()
    }
}

fn get_some(get_left: bool) -> Either<i32, &'static str> {
    match get_left {
        true => Either::Left(-12),
        false => Either::Right("qwerty"),
    }
}

#[test]
fn test_enums() {
    let some_value = get_some(true);
    match some_value {
        Either::Left(num) => println!("Number {num}"),
        Either::Right(text) => println!("Text \"{text}\""),
    };
    if some_value.is_left() {
        println!("This is a left sided value");
    }
    if some_value.is_right() {
        println!("This is a right sided value");
    }
}

#[derive(Clone)]
struct Human {
    name: String,
    age: u16,
}

impl serde::Serialize for Human {
    fn serialize<S: serde::Serializer>(&self, serializer: S) -> Result<S::Ok, S::Error> {
        let mut state = serializer.serialize_struct("Human", 2)?;
        state.serialize_field("name", &self.name)?;
        state.serialize_field("age", &self.age)?;
        state.end()
    }
}

impl Greeter for Human {
    fn say_hello(&self, your_name: &str) {
        println!("Hello {}", your_name);
    }
}

fn print_json(payload: impl serde::Serialize) {
    match serde_json::to_string(&payload) {
        Ok(payload) => println!("{}", payload),
        Err(err) => println!("{}", err.to_string()),
    };
}

fn test_fn(i: i32, name: &str) {
    println!("Hello from the second line of function");
    println!("Hello from the beggining of function");
    println!("Number: {} - Name: {}", i, name)
}

#[test]
fn test_ok() {
    let human = Human { name: "Strale".to_string(), age: 39 };
    print_json(human.clone());
    human.say_hello("Strale");
}

#[test]
fn test_fn_attr_macro() {
    test_fn(1, "Strale");
}

#[test]
fn usage_it_works() {
    let temp = "fn test_fn (i : i32 , name : & str) {println ! (\"Number: {} - Name: {}\" , i , name)}";
    let index = temp.find("{").unwrap();
    let temp_str = temp.to_string();
    let (first, last) = temp_str.split_at(index + 1);
    println!("first >>> {}", first);
    println!("last >>> {}", last);
    let new = format!("{}{}{}", first, "println!(\"Hello from the beggining of function\");", last);
    println!("{}", new);
}

#[test]
fn test_items() {
    let mut items = Items(vec![]);
    items = items << 1 << 2 << 3;
    println!("{:?}", items.0.clone());
    let mut q: String = items[0..2]
        .iter()
        .enumerate()
        .map(|(i, v)| {
            let mut s = v.to_string();
            if i > 0 {
                s.insert_str(0, ", ");
            }
            s
        })
        .collect();
    println!("[{}]", q);
    q = items[1..3]
        .iter()
        .enumerate()
        .map(|(i, v)| {
            let mut s = v.to_string();
            if i > 0 {
                s.insert_str(0, ", ");
            }
            s
        })
        .collect();
    println!("[{}]", q);
}

#[test]
fn items_keep_their_order() {
    let items = Items(vec![]) << 4 << 5 << 6;
    assert_eq!(vec![4, 5, 6], items.0);
    assert_eq!(5, items[1]);
    assert_eq!(&[5, 6], &items[1..3]);
    assert!(items[0..0].is_empty());
}

#[test]
fn meters_add_and_compare() {
    assert!(Meters(2) + Meters(3) == Meters(5));
    assert!(Meters(2) + 3 == 5);
    assert!(Meters(2) != 3);
    assert!(Meters(2) < Meters(3));
    assert!(Meters(3) <= Meters(3));
    assert!(Meters(4) > 3);
    assert!(Meters(4) >= 4);
    assert!(!(Meters(4) < 4));
    assert_eq!(Some(std::cmp::Ordering::Less), Meters(1).partial_cmp(&2));
    assert_eq!(Some(std::cmp::Ordering::Equal), Meters(2).partial_cmp(&Meters(2)));
    assert_eq!(Some(std::cmp::Ordering::Greater), Meters(3).partial_cmp(&Meters(2)));
}
