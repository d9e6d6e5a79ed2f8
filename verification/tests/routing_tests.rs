use durable_counter::actor::Response;
use durable_counter::front_door::front_door;
use durable_counter::registry::{id_from_name, Registry};
use durable_counter::store::StoreError;

fn counter_of(r: Result<Response, StoreError>) -> i16 {
    match r {
        Ok(Response::Payload { counter, .. }) => counter,
        Ok(Response::RouteNotFound) => panic!("unexpected route rejection"),
        Err(_) => panic!("unexpected store failure"),
    }
}

fn calls_of(r: Result<Response, StoreError>) -> usize {
    match r {
        Ok(Response::Payload { calls, .. }) => calls,
        Ok(Response::RouteNotFound) => panic!("unexpected route rejection"),
        Err(_) => panic!("unexpected store failure"),
    }
}

#[test]
fn same_name_reaches_the_same_instance() {
    let mut reg = Registry::new();
    assert_eq!(counter_of(reg.resolve_and_dispatch("A", "/x/increment")), 1);
    assert_eq!(counter_of(reg.resolve_and_dispatch("A", "/x/increment")), 2);
    assert_eq!(calls_of(reg.resolve_and_dispatch("A", "/x/")), 3);
}

#[test]
fn distinct_names_have_independent_state() {
    let mut reg = Registry::new();
    assert_eq!(counter_of(reg.resolve_and_dispatch("A", "/x/increment")), 1);
    assert_eq!(counter_of(reg.resolve_and_dispatch("A", "/x/increment")), 2);
    // A fresh identity starts from zero...
    assert_eq!(counter_of(reg.resolve_and_dispatch("B", "/x/increment")), 1);
    // ...and the first identity keeps its own counter and call count.
    let r = reg.resolve_and_dispatch("A", "/x/");
    assert_eq!(counter_of(r), 2);
    assert_eq!(counter_of(reg.resolve_and_dispatch("B", "/x/")), 1);
}

#[test]
fn identities_derive_deterministically() {
    let a1 = id_from_name("A");
    let a2 = id_from_name("A");
    let b = id_from_name("B");
    assert_eq!(a1.as_str(), a2.as_str());
    assert_ne!(a1.as_str(), b.as_str());
}

#[test]
fn front_door_routes_counter_paths() {
    let mut reg = Registry::new();
    assert_eq!(counter_of(front_door(&mut reg, "/x/increment")), 1);
    assert_eq!(counter_of(front_door(&mut reg, "/x/increment")), 2);
    assert_eq!(counter_of(front_door(&mut reg, "/x/decrement")), 1);
    assert_eq!(counter_of(front_door(&mut reg, "/x/")), 1);
}

#[test]
fn front_door_forwards_unknown_suffixes_to_the_actor() {
    let mut reg = Registry::new();
    match front_door(&mut reg, "/x/unknown") {
        Ok(Response::RouteNotFound) => {}
        _ => panic!("expected the actor to reject the suffix"),
    }
    // The rejected request still reached the instance, so its call
    // counter moved on.
    assert_eq!(calls_of(front_door(&mut reg, "/x/")), 2);
}

#[test]
fn front_door_user_route_reaches_its_own_actor() {
    let mut reg = Registry::new();
    // The actor reached through the user route recognizes none of the
    // forwarded path, so the request is rejected without touching
    // durable state.
    match front_door(&mut reg, "/user") {
        Ok(Response::RouteNotFound) => {}
        _ => panic!("expected a route rejection"),
    }
    // The counter actor is unaffected by traffic to the profile actor.
    assert_eq!(counter_of(front_door(&mut reg, "/x/increment")), 1);
}

#[test]
fn front_door_rejects_unmatched_routes() {
    let mut reg = Registry::new();
    match front_door(&mut reg, "/nope") {
        Ok(Response::RouteNotFound) => {}
        _ => panic!("expected a generic rejection"),
    }
    match front_door(&mut reg, "") {
        Ok(Response::RouteNotFound) => {}
        _ => panic!("expected a generic rejection"),
    }
    // No actor was constructed for the unmatched route: the counter
    // still starts from a fresh store.
    assert_eq!(calls_of(front_door(&mut reg, "/x/")), 1);
}

#[test]
fn eviction_through_the_registry() {
    let mut reg = Registry::new();
    assert_eq!(counter_of(reg.resolve_and_dispatch("A", "/x/increment")), 1);
    assert_eq!(counter_of(reg.resolve_and_dispatch("A", "/x/increment")), 2);
    reg.evict("A");
    // The durable counter survived; the ephemeral call count did not.
    let r = reg.resolve_and_dispatch("A", "/x/increment");
    match r {
        Ok(Response::Payload { counter, calls, .. }) => {
            assert_eq!(counter, 3);
            assert_eq!(calls, 1);
        }
        _ => panic!("expected the reconstructed instance to answer"),
    }
    // Evicting an identity nobody has seen changes nothing.
    reg.evict("Z");
    assert_eq!(counter_of(reg.resolve_and_dispatch("A", "/x/")), 3);
}
