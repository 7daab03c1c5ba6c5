use servio::Scope;
use std::borrow::Cow;

#[derive(Debug, PartialEq)]
struct Host(String);

#[test]
fn new_scope_has_protocol_and_no_values() {
    let s = Scope::new(Cow::Borrowed("x"));
    assert_eq!(s.protocol(), "x");
    assert!(s.get::<i32>().is_none());
}

#[test]
fn owned_protocol_is_kept() {
    let s = Scope::new(Cow::Owned("http".to_string()));
    assert_eq!(s.protocol(), "http");
}

#[test]
fn with_protocol_keeps_values() {
    let mut s = Scope::new(Cow::Borrowed("x"));
    assert!(s.insert(7i32).is_none());
    assert!(s.insert(Host("example.org".to_string())).is_none());
    let s = s.with_protocol(Cow::Borrowed("y"));
    assert_eq!(s.protocol(), "y");
    assert_eq!(*s.get::<i32>().unwrap(), 7);
    assert_eq!(*s.get::<Host>().unwrap(), Host("example.org".to_string()));
}

#[test]
fn inserting_one_type_leaves_another() {
    let mut s = Scope::new(Cow::Borrowed("http"));
    s.insert(1u8);
    assert!(s.get::<u16>().is_none());
    s.insert(2u16);
    assert_eq!(*s.get::<u8>().unwrap(), 1);
    assert_eq!(*s.get::<u16>().unwrap(), 2);
    assert!(s.get::<u32>().is_none());
}

#[test]
fn second_insert_returns_first_value() {
    let mut s = Scope::new(Cow::Borrowed("http"));
    assert!(s.insert(String::from("first")).is_none());
    let prev = s.insert(String::from("second"));
    assert_eq!(prev.as_deref().map(|v| v.as_str()), Some("first"));
    assert_eq!(s.get::<String>().unwrap().as_str(), "second");
}

#[test]
fn remove_twice_returns_value_then_none() {
    let mut s = Scope::new(Cow::Borrowed("ws"));
    s.insert(42i64);
    s.insert(true);
    assert_eq!(*s.remove::<i64>().unwrap(), 42);
    assert!(s.remove::<i64>().is_none());
    assert!(s.get::<i64>().is_none());
    assert!(*s.get::<bool>().unwrap());
}

#[test]
fn remove_of_absent_type_is_none() {
    let mut s = Scope::new(Cow::Borrowed("ws"));
    assert!(s.remove::<char>().is_none());
    assert_eq!(s.protocol(), "ws");
}

#[test]
fn with_scope_builds() {
    let s = Scope::new(Cow::Borrowed("http"))
        .with_scope(3u32)
        .with_scope(4u32)
        .with_scope('c');
    assert_eq!(*s.get::<u32>().unwrap(), 4);
    assert_eq!(*s.get::<char>().unwrap(), 'c');
}

#[test]
fn clone_keeps_protocol_and_values() {
    let s = Scope::new(Cow::Borrowed("http")).with_scope(9i32);
    let mut c = s.clone();
    c.insert(10i32);
    assert_eq!(c.protocol(), "http");
    assert_eq!(*c.get::<i32>().unwrap(), 10);
    assert_eq!(*s.get::<i32>().unwrap(), 9);
}

#[test]
fn values_of_distinct_types_stay_apart() {
    let mut s = Scope::new(Cow::Borrowed("http"));
    s.insert(5i32);
    s.insert(6u32);
    s.insert(String::from("text"));
    assert_eq!(*s.insert(7i32).unwrap(), 5);
    assert_eq!(*s.get::<u32>().unwrap(), 6);
    assert_eq!(s.get::<String>().unwrap().as_str(), "text");
    assert_eq!(*s.remove::<u32>().unwrap(), 6);
    assert_eq!(*s.get::<i32>().unwrap(), 7);
    assert!(s.get::<u32>().is_none());
    assert!(s.get::<u64>().is_none());
}
