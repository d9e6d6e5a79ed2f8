use durable_counter::profile::User;
use durable_counter::store::{Store, StoreError, StoreKey, StoreValue};

#[test]
fn put_get_round_trip_number() {
    let mut s = Store::new();
    let put = s.put(StoreKey::Counter, StoreValue::Number(7));
    assert!(matches!(put, Ok(())));
    match s.get(StoreKey::Counter) {
        Ok(StoreValue::Number(n)) => assert_eq!(n, 7),
        _ => panic!("expected the stored number back"),
    }
}

#[test]
fn put_get_round_trip_profile() {
    let mut s = Store::new();
    let u = User::new(String::from("Ada"), String::from("ada@somewhere.com"));
    let put = s.put(StoreKey::User, StoreValue::Profile(u));
    assert!(matches!(put, Ok(())));
    match s.get(StoreKey::User) {
        Ok(StoreValue::Profile(got)) => {
            assert_eq!(got.name(), "Ada");
            assert_eq!(got.email(), "ada@somewhere.com");
        }
        _ => panic!("expected the stored profile back"),
    }
}

#[test]
fn put_overwrites_atomically() {
    let mut s = Store::new();
    assert!(matches!(s.put(StoreKey::Counter, StoreValue::Number(1)), Ok(())));
    assert!(matches!(s.put(StoreKey::Counter, StoreValue::Number(2)), Ok(())));
    match s.get(StoreKey::Counter) {
        Ok(StoreValue::Number(n)) => assert_eq!(n, 2),
        _ => panic!("expected the overwritten number back"),
    }
    assert_eq!(s.writes(), 2);
}

#[test]
fn keys_are_independent() {
    let mut s = Store::new();
    assert!(matches!(s.put(StoreKey::Counter, StoreValue::Number(3)), Ok(())));
    assert!(matches!(s.get(StoreKey::User), Err(StoreError::NotFound)));
    match s.get(StoreKey::Counter) {
        Ok(StoreValue::Number(n)) => assert_eq!(n, 3),
        _ => panic!("expected the number under its own key"),
    }
}

#[test]
fn absent_key_is_not_found() {
    let s = Store::new();
    assert!(matches!(s.get(StoreKey::Counter), Err(StoreError::NotFound)));
    assert_eq!(s.writes(), 0);
}

#[test]
fn unavailable_store_fails_both_ways() {
    let mut s = Store::new();
    s.set_available(false);
    assert!(matches!(s.get(StoreKey::Counter), Err(StoreError::Unavailable)));
    assert!(matches!(
        s.put(StoreKey::Counter, StoreValue::Number(1)),
        Err(StoreError::Unavailable)
    ));
    assert_eq!(s.writes(), 0);
    s.set_available(true);
    assert!(matches!(s.get(StoreKey::Counter), Err(StoreError::NotFound)));
}
