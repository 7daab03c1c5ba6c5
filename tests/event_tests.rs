use servio::Event;
use std::borrow::Cow;

#[test]
fn event_get_returns_payload_of_its_type() {
    let e = Event::new::<i32>(Cow::Borrowed("num"), 5);
    assert_eq!(*e.get::<i32>().unwrap(), 5);
}

#[test]
fn event_get_of_other_type_is_none() {
    let e = Event::new::<i32>(Cow::Borrowed("num"), 5);
    assert!(e.get::<String>().is_none());
    assert!(e.get::<i64>().is_none());
}

#[test]
fn event_family_is_kept() {
    let e = Event::new(Cow::Owned("http.request.body".to_string()), vec![1u8, 2, 3]);
    assert_eq!(e.family(), "http.request.body");
    let c = e.clone();
    assert_eq!(c.family(), "http.request.body");
    assert_eq!(*c.get::<Vec<u8>>().unwrap(), vec![1u8, 2, 3]);
}
