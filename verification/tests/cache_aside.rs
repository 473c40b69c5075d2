use order_cache::cache::BoundedCache;
use order_cache::data::{Order, OrderRequest};
use order_cache::db::{OrderRow, StorageFailure};
use order_cache::errors::OrderApiError;
use order_cache::handlers::{
    complete_get_order, create_order, get_order, not_found, read_from_cache, save_in_cache,
    AppState, ReadStep,
};
use order_cache::registry::KeyRegistry;
use order_cache::responses::OrderApiResponse;

fn order(uid: &str, payload: &str) -> Order {
    Order { order_uid: uid.to_string(), payload: payload.to_string() }
}

fn request(uid: &str) -> OrderRequest {
    OrderRequest { order_uid: uid.to_string() }
}

fn row(uid: &str, body: Order) -> Result<Option<OrderRow>, StorageFailure> {
    Ok(Some(OrderRow { order_uid: uid.to_string(), body: Ok(body) }))
}

#[test]
fn new_state_is_empty() {
    let mut state = AppState::new(100);
    assert_eq!(state.keys(), Vec::<String>::new());
    assert_eq!(get_order(&mut state, request("A")), ReadStep::Fetch(request("A")));
    let mut cache = BoundedCache::new(100);
    assert_eq!(cache.get(&"A".to_string()), None);
    let keys = KeyRegistry::new();
    assert_eq!(keys.len(), 0);
    assert_eq!(keys.keys(), Vec::<String>::new());
}

#[test]
fn hit_is_answered_from_cache_with_the_key_asked_for() {
    let mut state = AppState::new(100);
    create_order(&mut state, order("A", r#"{"x":1}"#), Ok("A".to_string())).unwrap();
    let step = get_order(&mut state, request("A"));
    assert_eq!(
        step,
        ReadStep::Respond(OrderApiResponse::DataFromCache(order("A", r#"{"x":1}"#)))
    );
    assert_eq!(state.keys(), vec!["A".to_string()]);
}

#[test]
fn hit_repairs_a_drifted_identifier() {
    let mut cache = BoundedCache::new(100);
    // The cached document was stamped with another identifier.
    cache.put("A".to_string(), order("drifted", r#"{"x":1}"#));
    assert_eq!(
        read_from_cache(&mut cache, "A".to_string()),
        Some(order("A", r#"{"x":1}"#))
    );
}

#[test]
fn miss_asks_for_the_same_request() {
    let mut state = AppState::new(100);
    let step = get_order(&mut state, request("A"));
    assert_eq!(step, ReadStep::Fetch(request("A")));
    assert_eq!(state.keys(), Vec::<String>::new());
    assert_eq!(get_order(&mut state, request("A")), ReadStep::Fetch(request("A")));
}

#[test]
fn miss_populates_once() {
    let mut state = AppState::new(100);
    assert_eq!(get_order(&mut state, request("A")), ReadStep::Fetch(request("A")));
    let answer = complete_get_order(&mut state, row("A", order("A", r#"{"x":1}"#)));
    assert_eq!(answer, Ok(OrderApiResponse::Data(order("A", r#"{"x":1}"#))));
    let again = get_order(&mut state, request("A"));
    assert_eq!(
        again,
        ReadStep::Respond(OrderApiResponse::DataFromCache(order("A", r#"{"x":1}"#)))
    );
    assert_eq!(state.keys(), vec!["A".to_string()]);
}

#[test]
fn fetched_document_is_stamped_with_the_row_identifier() {
    let mut state = AppState::new(100);
    let answer = complete_get_order(&mut state, row("A", order("other", "{}")));
    assert_eq!(answer, Ok(OrderApiResponse::Data(order("A", "{}"))));
    assert_eq!(
        get_order(&mut state, request("A")),
        ReadStep::Respond(OrderApiResponse::DataFromCache(order("A", "{}")))
    );
    assert_eq!(get_order(&mut state, request("other")), ReadStep::Fetch(request("other")));
    assert_eq!(state.keys(), vec!["A".to_string()]);
}

#[test]
fn not_found_is_propagated_and_changes_nothing() {
    let mut state = AppState::new(100);
    assert_eq!(get_order(&mut state, request("A")), ReadStep::Fetch(request("A")));
    let answer = complete_get_order(&mut state, Ok(None));
    assert_eq!(answer, Err(OrderApiError::NotFound));
    assert_eq!(state.keys(), Vec::<String>::new());
    assert_eq!(get_order(&mut state, request("A")), ReadStep::Fetch(request("A")));
}

#[test]
fn read_failures_of_the_store_are_internal() {
    let mut state = AppState::new(100);
    let answer = complete_get_order(&mut state, Err(StorageFailure::Pool("timed out".to_string())));
    assert_eq!(answer, Err(OrderApiError::InternalServerError));
    let answer = complete_get_order(&mut state, Err(StorageFailure::Query("closed".to_string())));
    assert_eq!(answer, Err(OrderApiError::InternalServerError));
    assert_eq!(state.keys(), Vec::<String>::new());
}

#[test]
fn undecodable_body_fails_the_read() {
    let mut state = AppState::new(100);
    let reply = Ok(Some(OrderRow {
        order_uid: "A".to_string(),
        body: Err("missing field".to_string()),
    }));
    let answer = complete_get_order(&mut state, reply);
    assert_eq!(answer, Err(OrderApiError::SerDeError("missing field".to_string())));
    assert_eq!(state.keys(), Vec::<String>::new());
    assert_eq!(get_order(&mut state, request("A")), ReadStep::Fetch(request("A")));
}

#[test]
fn write_then_read_is_a_hit() {
    let mut state = AppState::new(100);
    let answer = create_order(&mut state, order("A", r#"{"x":1}"#), Ok("A".to_string()));
    assert_eq!(answer, Ok(OrderApiResponse::Created("A".to_string())));
    let step = get_order(&mut state, request("A"));
    assert_eq!(
        step,
        ReadStep::Respond(OrderApiResponse::DataFromCache(order("A", r#"{"x":1}"#)))
    );
    assert_eq!(state.keys(), vec!["A".to_string()]);
}

#[test]
fn write_answers_with_the_identifier_of_the_store() {
    let mut state = AppState::new(100);
    let answer = create_order(&mut state, order("A", "{}"), Ok("stored".to_string()));
    assert_eq!(answer, Ok(OrderApiResponse::Created("stored".to_string())));
    assert_eq!(
        get_order(&mut state, request("A")),
        ReadStep::Respond(OrderApiResponse::DataFromCache(order("A", "{}")))
    );
    assert_eq!(get_order(&mut state, request("stored")), ReadStep::Fetch(request("stored")));
    assert_eq!(state.keys(), vec!["A".to_string()]);
}

#[test]
fn failed_write_is_internal_and_changes_nothing() {
    let mut state = AppState::new(100);
    let answer = create_order(
        &mut state,
        order("A", "{}"),
        Err(StorageFailure::Query("duplicate key".to_string())),
    );
    assert_eq!(answer, Err(OrderApiError::InternalServerError));
    let answer =
        create_order(&mut state, order("A", "{}"), Err(StorageFailure::Pool("busy".to_string())));
    assert_eq!(answer, Err(OrderApiError::InternalServerError));
    assert_eq!(state.keys(), Vec::<String>::new());
    assert_eq!(get_order(&mut state, request("A")), ReadStep::Fetch(request("A")));
}

#[test]
fn write_does_not_clobber_a_cached_document() {
    let mut state = AppState::new(100);
    create_order(&mut state, order("A", "first"), Ok("A".to_string())).unwrap();
    create_order(&mut state, order("A", "second"), Ok("A".to_string())).unwrap();
    assert_eq!(
        get_order(&mut state, request("A")),
        ReadStep::Respond(OrderApiResponse::DataFromCache(order("A", "first")))
    );
    assert_eq!(state.keys(), vec!["A".to_string()]);
}

#[test]
fn populate_twice_stores_and_records_once() {
    let mut cache = BoundedCache::new(100);
    let mut keys = KeyRegistry::new();
    save_in_cache(&mut cache, &mut keys, "A".to_string(), order("A", r#"{"x":1}"#));
    save_in_cache(&mut cache, &mut keys, "A".to_string(), order("A", r#"{"x":1}"#));
    assert_eq!(keys.keys(), vec!["A".to_string()]);
    assert_eq!(cache.get(&"A".to_string()), Some(order("A", r#"{"x":1}"#)));
}

#[test]
fn read_from_cache_stamps_the_key() {
    let mut cache = BoundedCache::new(100);
    cache.put("A".to_string(), order("B", "doc"));
    assert_eq!(read_from_cache(&mut cache, "A".to_string()), Some(order("A", "doc")));
    assert_eq!(read_from_cache(&mut cache, "B".to_string()), None);
    // The stored document itself is left as it was.
    assert_eq!(cache.get(&"A".to_string()), Some(order("B", "doc")));
}

#[test]
fn put_overwrites() {
    let mut cache = BoundedCache::new(100);
    cache.put("A".to_string(), order("A", "one"));
    cache.put("A".to_string(), order("A", "two"));
    assert_eq!(cache.get(&"A".to_string()), Some(order("A", "two")));
}

#[test]
fn cache_of_capacity_zero_stores_nothing() {
    let mut state = AppState::new(0);
    create_order(&mut state, order("A", "{}"), Ok("A".to_string())).unwrap();
    assert_eq!(get_order(&mut state, request("A")), ReadStep::Fetch(request("A")));
    // The second population does not find the key cached either, and the
    // registry still records it once.
    create_order(&mut state, order("A", "{}"), Ok("A".to_string())).unwrap();
    assert_eq!(state.keys(), vec!["A".to_string()]);
}

#[test]
fn eviction_under_capacity_pressure() {
    let mut cache = BoundedCache::new(3);
    for key in ["k1", "k2", "k3", "k4"] {
        cache.put(key.to_string(), order(key, key));
    }
    let present: Vec<&str> = ["k1", "k2", "k3", "k4"]
        .into_iter()
        .filter(|key| cache.get(&key.to_string()).is_some())
        .collect();
    // The least recently used entry is gone, and all the others remain.
    assert_eq!(present, vec!["k2", "k3", "k4"]);
    assert_eq!(cache.get(&"k4".to_string()), Some(order("k4", "k4")));
}

#[test]
fn maintenance_keeps_a_cache_within_capacity_as_it_is() {
    let mut cache = BoundedCache::new(3);
    for key in ["k1", "k2", "k3"] {
        cache.put(key.to_string(), order(key, key));
    }
    cache.run_pending_tasks();
    for key in ["k1", "k2", "k3"] {
        assert_eq!(cache.get(&key.to_string()), Some(order(key, key)));
    }
}

#[test]
fn maintenance_brings_the_cache_down_to_its_capacity() {
    let mut cache = BoundedCache::new(5);
    let keys: Vec<String> = (0..1000).map(|n| format!("k{}", n)).collect();
    for key in &keys {
        cache.put(key.clone(), order(key, key));
    }
    let present: Vec<&String> = keys.iter().filter(|key| cache.get(key).is_some()).collect();
    assert_eq!(present.len(), 5);
    // The most recently used entries are the ones that remain.
    assert_eq!(present, keys[995..].iter().collect::<Vec<&String>>());
    for key in present {
        assert_eq!(cache.get(key), Some(order(key, key)));
    }
}

#[test]
fn maintenance_through_the_state_keeps_the_registry() {
    let mut state = AppState::new(1);
    create_order(&mut state, order("A", "a"), Ok("A".to_string())).unwrap();
    create_order(&mut state, order("B", "b"), Ok("B".to_string())).unwrap();
    assert_eq!(get_order(&mut state, request("A")), ReadStep::Fetch(request("A")));
    state.run_pending_tasks();
    assert_eq!(state.keys(), vec!["A".to_string(), "B".to_string()]);
    assert_eq!(get_order(&mut state, request("A")), ReadStep::Fetch(request("A")));
    assert_eq!(
        get_order(&mut state, request("B")),
        ReadStep::Respond(OrderApiResponse::DataFromCache(order("B", "b")))
    );
}

#[test]
fn a_hit_counts_as_a_use() {
    let mut cache = BoundedCache::new(2);
    cache.put("A".to_string(), order("A", "a"));
    cache.put("B".to_string(), order("B", "b"));
    assert_eq!(cache.get(&"A".to_string()), Some(order("A", "a")));
    cache.put("C".to_string(), order("C", "c"));
    assert_eq!(cache.get(&"B".to_string()), None);
    assert_eq!(cache.get(&"A".to_string()), Some(order("A", "a")));
    assert_eq!(cache.get(&"C".to_string()), Some(order("C", "c")));
}

#[test]
fn a_miss_counts_as_no_use() {
    let mut cache = BoundedCache::new(2);
    cache.put("A".to_string(), order("A", "a"));
    cache.put("B".to_string(), order("B", "b"));
    assert_eq!(cache.get(&"Z".to_string()), None);
    cache.put("C".to_string(), order("C", "c"));
    assert_eq!(cache.get(&"A".to_string()), None);
    assert_eq!(cache.get(&"B".to_string()), Some(order("B", "b")));
    assert_eq!(cache.get(&"C".to_string()), Some(order("C", "c")));
}

#[test]
fn an_overwriting_put_counts_as_a_use_and_evicts_nothing() {
    let mut cache = BoundedCache::new(2);
    cache.put("A".to_string(), order("A", "a"));
    cache.put("B".to_string(), order("B", "b"));
    cache.put("A".to_string(), order("A", "a2"));
    assert_eq!(cache.get(&"B".to_string()), Some(order("B", "b")));
    assert_eq!(cache.get(&"A".to_string()), Some(order("A", "a2")));
    // B was looked up before A, so B is the one to leave.
    cache.put("C".to_string(), order("C", "c"));
    assert_eq!(cache.get(&"B".to_string()), None);
    assert_eq!(cache.get(&"A".to_string()), Some(order("A", "a2")));
    assert_eq!(cache.get(&"C".to_string()), Some(order("C", "c")));
}

#[test]
fn populating_a_resident_key_counts_as_a_use() {
    let mut cache = BoundedCache::new(2);
    let mut keys = KeyRegistry::new();
    save_in_cache(&mut cache, &mut keys, "A".to_string(), order("A", "a"));
    save_in_cache(&mut cache, &mut keys, "B".to_string(), order("B", "b"));
    save_in_cache(&mut cache, &mut keys, "A".to_string(), order("A", "other"));
    save_in_cache(&mut cache, &mut keys, "C".to_string(), order("C", "c"));
    assert_eq!(cache.get(&"B".to_string()), None);
    assert_eq!(cache.get(&"A".to_string()), Some(order("A", "a")));
    assert_eq!(cache.get(&"C".to_string()), Some(order("C", "c")));
    assert_eq!(keys.keys(), vec!["A".to_string(), "B".to_string(), "C".to_string()]);
}

#[test]
fn populations_with_room_commute() {
    let mut one = BoundedCache::new(100);
    let mut other = BoundedCache::new(100);
    let mut one_keys = KeyRegistry::new();
    let mut other_keys = KeyRegistry::new();
    for cache in [&mut one, &mut other] {
        cache.put("old".to_string(), order("old", "o"));
    }
    save_in_cache(&mut one, &mut one_keys, "k1".to_string(), order("k1", "d1"));
    save_in_cache(&mut one, &mut one_keys, "k2".to_string(), order("k2", "d2"));
    save_in_cache(&mut other, &mut other_keys, "k2".to_string(), order("k2", "d2"));
    save_in_cache(&mut other, &mut other_keys, "k1".to_string(), order("k1", "d1"));
    for key in ["old", "k1", "k2", "none"] {
        assert_eq!(one.get(&key.to_string()), other.get(&key.to_string()));
    }
    assert_eq!(one.get(&"old".to_string()), Some(order("old", "o")));
    assert_eq!(one.get(&"k1".to_string()), Some(order("k1", "d1")));
    assert_eq!(one.get(&"k2".to_string()), Some(order("k2", "d2")));
    assert_eq!(one_keys.keys(), vec!["k1".to_string(), "k2".to_string()]);
    assert_eq!(other_keys.keys(), vec!["k2".to_string(), "k1".to_string()]);
}

#[test]
fn maintenance_changes_nothing_in_a_cache_at_rest() {
    let mut cache = BoundedCache::new(2);
    cache.put("A".to_string(), order("A", "a"));
    cache.put("B".to_string(), order("B", "b"));
    cache.put("C".to_string(), order("C", "c"));
    cache.run_pending_tasks();
    cache.run_pending_tasks();
    assert_eq!(cache.get(&"A".to_string()), None);
    assert_eq!(cache.get(&"B".to_string()), Some(order("B", "b")));
    assert_eq!(cache.get(&"C".to_string()), Some(order("C", "c")));
    // The maintenance did not change the order of use either.
    cache.run_pending_tasks();
    cache.put("D".to_string(), order("D", "d"));
    assert_eq!(cache.get(&"B".to_string()), None);
    assert_eq!(cache.get(&"C".to_string()), Some(order("C", "c")));
}

#[test]
fn many_lookups_keep_their_order() {
    // More lookups than the cache logs before it applies them by itself.
    let mut cache = BoundedCache::new(3);
    cache.put("A".to_string(), order("A", "a"));
    cache.put("B".to_string(), order("B", "b"));
    cache.put("C".to_string(), order("C", "c"));
    for _ in 0..500 {
        assert!(cache.get(&"C".to_string()).is_some());
        assert!(cache.get(&"A".to_string()).is_some());
    }
    cache.put("D".to_string(), order("D", "d"));
    assert_eq!(cache.get(&"B".to_string()), None);
    cache.put("E".to_string(), order("E", "e"));
    assert_eq!(cache.get(&"C".to_string()), None);
    assert_eq!(cache.get(&"A".to_string()), Some(order("A", "a")));
    assert_eq!(cache.get(&"D".to_string()), Some(order("D", "d")));
    assert_eq!(cache.get(&"E".to_string()), Some(order("E", "e")));
}

#[test]
fn capacity_two_scenario() {
    let mut cache = BoundedCache::new(2);
    let mut keys = KeyRegistry::new();
    save_in_cache(&mut cache, &mut keys, "A".to_string(), order("A", r#"{"x":1}"#));
    save_in_cache(&mut cache, &mut keys, "B".to_string(), order("B", r#"{"x":2}"#));
    save_in_cache(&mut cache, &mut keys, "C".to_string(), order("C", r#"{"x":3}"#));
    let a = read_from_cache(&mut cache, "A".to_string());
    let b = read_from_cache(&mut cache, "B".to_string());
    let c = read_from_cache(&mut cache, "C".to_string());
    // One of the two oldest is evicted, and the other two remain.
    assert!(a.is_none() != b.is_none());
    // The policy evicts the one that was used least recently.
    assert_eq!(a, None);
    assert_eq!(b, Some(order("B", r#"{"x":2}"#)));
    assert_eq!(c, Some(order("C", r#"{"x":3}"#)));
    assert_eq!(keys.keys(), vec!["A".to_string(), "B".to_string(), "C".to_string()]);
}

#[test]
fn capacity_two_scenario_through_the_handlers() {
    let mut state = AppState::new(2);
    create_order(&mut state, order("A", r#"{"x":1}"#), Ok("A".to_string())).unwrap();
    create_order(&mut state, order("B", r#"{"x":2}"#), Ok("B".to_string())).unwrap();
    create_order(&mut state, order("C", r#"{"x":3}"#), Ok("C".to_string())).unwrap();
    let a = get_order(&mut state, request("A"));
    let b = get_order(&mut state, request("B"));
    let c = get_order(&mut state, request("C"));
    assert!((a == ReadStep::Fetch(request("A"))) != (b == ReadStep::Fetch(request("B"))));
    assert_eq!(a, ReadStep::Fetch(request("A")));
    assert_eq!(
        b,
        ReadStep::Respond(OrderApiResponse::DataFromCache(order("B", r#"{"x":2}"#)))
    );
    assert_eq!(
        c,
        ReadStep::Respond(OrderApiResponse::DataFromCache(order("C", r#"{"x":3}"#)))
    );
    assert_eq!(state.keys(), vec!["A".to_string(), "B".to_string(), "C".to_string()]);
}

#[test]
fn evicted_key_is_not_recorded_again_when_admitted_again() {
    let mut cache = BoundedCache::new(1);
    let mut keys = KeyRegistry::new();
    save_in_cache(&mut cache, &mut keys, "A".to_string(), order("A", "a"));
    save_in_cache(&mut cache, &mut keys, "B".to_string(), order("B", "b"));
    assert_eq!(cache.get(&"A".to_string()), None);
    save_in_cache(&mut cache, &mut keys, "A".to_string(), order("A", "a"));
    assert_eq!(cache.get(&"A".to_string()), Some(order("A", "a")));
    assert_eq!(keys.keys(), vec!["A".to_string(), "B".to_string()]);
}

#[test]
fn registry_appends_in_order() {
    let mut keys = KeyRegistry::new();
    keys.record_if_new("B".to_string());
    keys.record_if_new("A".to_string());
    keys.record_if_new("B".to_string());
    assert_eq!(keys.len(), 2);
    assert_eq!(keys.keys(), vec!["B".to_string(), "A".to_string()]);
    assert!(keys.contains(&"A".to_string()));
    assert!(keys.contains(&"B".to_string()));
    assert!(!keys.contains(&"C".to_string()));
    assert!(!keys.contains(&"".to_string()));
}

#[test]
fn unknown_route_is_not_found() {
    assert_eq!(not_found(), OrderApiError::NotFound);
}

#[test]
fn order_clone_and_stamp() {
    let original = order("A", "doc");
    assert_eq!(original.clone(), original);
    assert_eq!(original.stamped("B".to_string()), order("B", "doc"));
}
