use arcon_state::aggregator::XorAggregator;
use arcon_state::backend::{Backend, StorageConfig};
use arcon_state::bundle::Bundle;
use arcon_state::error::ArconStateError;
use arcon_state::handles::{
    AggregatorState, Handle, MapState, ReducerState, ValueState, VecState,
};
use arcon_state::in_memory::InMemory;
use arcon_state::ops::{plan_batch, AggregatorOps, MapOps, ReducerOps, ValueOps, VecOps};
use arcon_state::session::Session;

fn register<Bn: Bundle>(backend: &mut InMemory, bundle: &mut Bn) -> Result<(), ArconStateError> {
    let owned = std::mem::replace(backend, InMemory::new());
    let mut token = Session::new(owned).registration_token().ok().unwrap();
    let registered = bundle.register_states(&mut token);
    *backend = token.finish().close();
    registered
}

fn backend() -> InMemory {
    InMemory::create("test", &StorageConfig::default()).unwrap()
}

fn sum(a: &u64, b: &u64) -> u64 {
    a + b
}

#[test]
fn map_scenario_counts() {
    let mut backend = backend();
    let mut counts: Handle<MapState<Vec<u8>, Vec<u8>>, (), ()> =
        Handle::new("counts".to_string(), MapState::new());
    register(&mut backend, &mut counts).unwrap();
    backend.map_fast_insert(&counts, vec![1u8], b"a".to_vec()).unwrap();
    backend.map_fast_insert(&counts, vec![2u8], b"b".to_vec()).unwrap();
    assert_eq!(backend.map_get(&counts, &vec![1u8]).unwrap(), Some(b"a".to_vec()));
    assert_eq!(backend.map_len(&counts).unwrap(), 2);
    assert_eq!(backend.map_remove(&counts, &vec![1u8]).unwrap(), Some(b"a".to_vec()));
    assert_eq!(backend.map_len(&counts).unwrap(), 1);
}

#[test]
fn reducer_scenario_sum() {
    let mut backend = backend();
    let mut total: Handle<ReducerState<u64, fn(&u64, &u64) -> u64>, (), ()> =
        Handle::new("total".to_string(), ReducerState::new(sum as fn(&u64, &u64) -> u64));
    register(&mut backend, &mut total).unwrap();
    assert_eq!(backend.reducer_get(&total).unwrap(), None);
    backend.reducer_reduce(&total, 5).unwrap();
    backend.reducer_reduce(&total, 7).unwrap();
    assert_eq!(backend.reducer_get(&total).unwrap(), Some(12));
    backend.reducer_clear(&total).unwrap();
    assert_eq!(backend.reducer_get(&total).unwrap(), None);
}

#[test]
fn reducer_with_a_closure_keeps_the_order_of_its_arguments() {
    let mut backend = backend();
    let mut last = Handle::<_, (), ()>::new(
        "diff".to_string(),
        ReducerState::new(|stored: &u64, new: &u64| stored * 10 + new),
    );
    register(&mut backend, &mut last).unwrap();
    backend.reducer_reduce(&last, 1).unwrap();
    backend.reducer_reduce(&last, 2).unwrap();
    backend.reducer_reduce(&last, 3).unwrap();
    assert_eq!(backend.reducer_get(&last).unwrap(), Some(123));
}

#[test]
fn value_round_trip() {
    let mut backend = backend();
    let mut value: Handle<ValueState<u64>, (), ()> =
        Handle::new("value".to_string(), ValueState::new());
    register(&mut backend, &mut value).unwrap();
    assert_eq!(backend.value_get(&value).unwrap(), None);
    assert_eq!(backend.value_set(&value, 5).unwrap(), None);
    assert_eq!(backend.value_get(&value).unwrap(), Some(5));
    assert_eq!(backend.value_set(&value, 6).unwrap(), Some(5));
    backend.value_fast_set(&value, 7).unwrap();
    assert_eq!(backend.value_get(&value).unwrap(), Some(7));
    backend.value_clear(&value).unwrap();
    assert_eq!(backend.value_get(&value).unwrap(), None);
    backend.value_clear(&value).unwrap();
    assert_eq!(backend.value_get(&value).unwrap(), None);
}

#[test]
fn zero_is_a_value_like_any_other() {
    let mut backend = backend();
    let mut value: Handle<ValueState<u32>, (), ()> =
        Handle::new("zero".to_string(), ValueState::new());
    register(&mut backend, &mut value).unwrap();
    backend.value_fast_set(&value, 0).unwrap();
    assert_eq!(backend.value_get(&value).unwrap(), Some(0));
}

#[test]
fn map_round_trip() {
    let mut backend = backend();
    let mut map: Handle<MapState<u64, Vec<u8>>, (), ()> =
        Handle::new("map".to_string(), MapState::new());
    register(&mut backend, &mut map).unwrap();
    assert!(backend.map_is_empty(&map).unwrap());
    assert_eq!(backend.map_insert(&map, 1, vec![1]).unwrap(), None);
    assert_eq!(backend.map_insert(&map, 1, vec![2]).unwrap(), Some(vec![1]));
    assert_eq!(backend.map_get(&map, &1).unwrap(), Some(vec![2]));
    assert_eq!(backend.map_get(&map, &2).unwrap(), None);
    assert!(backend.map_contains(&map, &1).unwrap());
    assert!(!backend.map_contains(&map, &2).unwrap());
    assert!(!backend.map_is_empty(&map).unwrap());
    assert_eq!(backend.map_remove(&map, &2).unwrap(), None);
    assert_eq!(backend.map_remove(&map, &1).unwrap(), Some(vec![2]));
    assert_eq!(backend.map_get(&map, &1).unwrap(), None);
    assert!(backend.map_is_empty(&map).unwrap());
    backend.map_fast_insert(&map, 3, vec![3]).unwrap();
    backend.map_fast_remove(&map, &3).unwrap();
    backend.map_fast_remove(&map, &3).unwrap();
    assert_eq!(backend.map_len(&map).unwrap(), 0);
}

#[test]
fn bulk_insert_equals_inserting_one_at_a_time() {
    let pairs: Vec<(u64, u64)> = vec![(1, 10), (2, 20), (1, 11), (3, 30), (2, 21)];
    let mut bulk = backend();
    let mut single = backend();
    let mut map: Handle<MapState<u64, u64>, (), ()> =
        Handle::new("map".to_string(), MapState::new());
    register(&mut bulk, &mut map).unwrap();
    register(&mut single, &mut map).unwrap();
    bulk.map_fast_insert(&map, 9, 90).unwrap();
    single.map_fast_insert(&map, 9, 90).unwrap();
    bulk.map_insert_all(&map, pairs.clone()).unwrap();
    for (key, value) in pairs {
        single.map_fast_insert(&map, key, value).unwrap();
    }
    let mut from_bulk = bulk.map_iter(&map).unwrap();
    let mut from_single = single.map_iter(&map).unwrap();
    from_bulk.sort();
    from_single.sort();
    assert_eq!(from_bulk, vec![(1, 11), (2, 21), (3, 30), (9, 90)]);
    assert_eq!(from_bulk, from_single);
    assert_eq!(bulk.map_len(&map).unwrap(), 4);
}

#[test]
fn bulk_insert_of_nothing_changes_nothing() {
    let mut backend = backend();
    let mut map: Handle<MapState<u64, u64>, (), ()> =
        Handle::new("map".to_string(), MapState::new());
    register(&mut backend, &mut map).unwrap();
    backend.map_insert_all(&map, Vec::new()).unwrap();
    assert!(backend.map_is_empty(&map).unwrap());
}

#[test]
fn map_iteration_lists_every_entry_once() {
    let mut backend = backend();
    let mut map: Handle<MapState<u32, Vec<u8>>, (), ()> =
        Handle::new("map".to_string(), MapState::new());
    register(&mut backend, &mut map).unwrap();
    assert!(backend.map_iter(&map).unwrap().is_empty());
    assert!(backend.map_keys(&map).unwrap().is_empty());
    assert!(backend.map_values(&map).unwrap().is_empty());
    for key in 0..10u32 {
        backend.map_fast_insert(&map, key, vec![key as u8; 2]).unwrap();
    }
    backend.map_fast_remove(&map, &4).unwrap();
    let mut keys = backend.map_keys(&map).unwrap();
    keys.sort();
    assert_eq!(keys, vec![0, 1, 2, 3, 5, 6, 7, 8, 9]);
    let mut values = backend.map_values(&map).unwrap();
    values.sort();
    assert_eq!(values.len(), 9);
    assert_eq!(values[0], vec![0, 0]);
    assert_eq!(values[8], vec![9, 9]);
    let mut pairs = backend.map_iter(&map).unwrap();
    pairs.sort();
    assert_eq!(pairs[4], (5, vec![5, 5]));
    backend.map_clear(&map).unwrap();
    assert!(backend.map_iter(&map).unwrap().is_empty());
    assert_eq!(backend.map_len(&map).unwrap(), 0);
}

#[test]
fn vec_operations() {
    let mut backend = backend();
    let mut list: Handle<VecState<u64>, (), ()> = Handle::new("list".to_string(), VecState::new());
    register(&mut backend, &mut list).unwrap();
    assert!(backend.vec_is_empty(&list).unwrap());
    assert_eq!(backend.vec_get(&list).unwrap(), Vec::<u64>::new());
    backend.vec_append(&list, 1).unwrap();
    backend.vec_append(&list, 2).unwrap();
    assert_eq!(backend.vec_get(&list).unwrap(), vec![1, 2]);
    backend.vec_add_all(&list, vec![3, 4]).unwrap();
    assert_eq!(backend.vec_iter(&list).unwrap(), vec![1, 2, 3, 4]);
    assert_eq!(backend.vec_len(&list).unwrap(), 4);
    assert!(!backend.vec_is_empty(&list).unwrap());
    backend.vec_set(&list, vec![9, 8, 7]).unwrap();
    assert_eq!(backend.vec_get(&list).unwrap(), vec![9, 8, 7]);
    backend.vec_add_all(&list, Vec::new()).unwrap();
    assert_eq!(backend.vec_len(&list).unwrap(), 3);
    backend.vec_set(&list, Vec::new()).unwrap();
    assert!(backend.vec_is_empty(&list).unwrap());
    backend.vec_append(&list, 5).unwrap();
    backend.vec_clear(&list).unwrap();
    assert_eq!(backend.vec_len(&list).unwrap(), 0);
}

#[test]
fn aggregator_operations() {
    let mut backend = backend();
    let mut xor: Handle<AggregatorState<XorAggregator>, (), ()> =
        Handle::new("xor".to_string(), AggregatorState::new(XorAggregator));
    register(&mut backend, &mut xor).unwrap();
    assert_eq!(backend.aggregator_get(&xor).unwrap(), Vec::<u8>::new());
    backend.aggregator_aggregate(&xor, vec![0b1100, 0b1010]).unwrap();
    backend.aggregator_aggregate(&xor, vec![0b1010]).unwrap();
    assert_eq!(backend.aggregator_get(&xor).unwrap(), vec![0b0110, 0b1010]);
    assert_eq!(backend.aggregator_get(&xor).unwrap(), vec![0b0110, 0b1010]);
    backend.aggregator_aggregate(&xor, vec![0, 0, 7]).unwrap();
    assert_eq!(backend.aggregator_get(&xor).unwrap(), vec![0b0110, 0b1010, 7]);
    backend.aggregator_clear(&xor).unwrap();
    assert_eq!(backend.aggregator_get(&xor).unwrap(), Vec::<u8>::new());
}

#[test]
fn scopes_keep_states_apart() {
    let mut backend = backend();
    let mut value: Handle<ValueState<u64>, u32, u8> =
        Handle::new("scoped".to_string(), ValueState::new());
    register(&mut backend, &mut value).unwrap();
    value.set_item_key(1);
    value.set_namespace(1);
    backend.value_fast_set(&value, 11).unwrap();
    value.set_item_key(2);
    assert_eq!(backend.value_get(&value).unwrap(), None);
    backend.value_fast_set(&value, 21).unwrap();
    value.set_namespace(2);
    assert_eq!(backend.value_get(&value).unwrap(), None);
    value.set_namespace(1);
    assert_eq!(backend.value_get(&value).unwrap(), Some(21));
    value.set_item_key(1);
    assert_eq!(backend.value_get(&value).unwrap(), Some(11));
    assert_eq!(value.serialize_metakeys(), vec![1, 0, 0, 0, 1]);
}

#[test]
fn metakeys_and_key_are_concatenated() {
    let map: Handle<MapState<Vec<u8>, u64>, u16, u8> =
        Handle::new("m".to_string(), MapState::new()).with_item_key(0x0102).with_namespace(3);
    assert_eq!(map.serialize_metakeys(), vec![0x02, 0x01, 3]);
    assert_eq!(
        map.serialize_metakeys_and_key(&vec![7u8, 8]).unwrap(),
        vec![0x02, 0x01, 3, 0x0a, 0x02, 7, 8]
    );
    let bare: Handle<MapState<Vec<u8>, u64>, u16, u8> =
        Handle::new("m".to_string(), MapState::new());
    assert_eq!(bare.serialize_metakeys(), Vec::<u8>::new());
}

#[test]
fn a_state_of_another_kind_is_a_wrong_type() {
    let mut backend = backend();
    let mut as_value: Handle<ValueState<u64>, (), ()> =
        Handle::new("name".to_string(), ValueState::new());
    register(&mut backend, &mut as_value).unwrap();
    let mut as_map: Handle<MapState<u64, u64>, (), ()> =
        Handle::new("name".to_string(), MapState::new());
    assert!(matches!(
        register(&mut backend, &mut as_map),
        Err(ArconStateError::InMemoryWrongType)
    ));
    assert!(!as_map.is_registered());
    let mut elsewhere = InMemory::new();
    register(&mut elsewhere, &mut as_map).unwrap();
    assert!(as_map.is_registered());
    assert!(matches!(
        backend.map_get(&as_map, &1),
        Err(ArconStateError::InMemoryWrongType)
    ));
    assert!(matches!(
        backend.map_fast_insert(&as_map, 1, 1),
        Err(ArconStateError::InMemoryWrongType)
    ));
    assert!(matches!(backend.map_len(&as_map), Err(ArconStateError::InMemoryWrongType)));
    backend.value_fast_set(&as_value, 3).unwrap();
    assert_eq!(backend.value_get(&as_value).unwrap(), Some(3));
}

#[test]
fn a_state_that_the_backend_does_not_hold_is_a_wrong_type() {
    let mut first = backend();
    let mut second = backend();
    let mut list: Handle<VecState<u64>, (), ()> = Handle::new("list".to_string(), VecState::new());
    register(&mut first, &mut list).unwrap();
    assert!(matches!(
        second.vec_append(&list, 1),
        Err(ArconStateError::InMemoryWrongType)
    ));
    assert!(matches!(second.vec_get(&list), Err(ArconStateError::InMemoryWrongType)));
}

#[test]
fn bytes_of_another_type_are_a_decode_error() {
    let mut backend = backend();
    let mut as_bytes: Handle<ValueState<Vec<u8>>, (), ()> =
        Handle::new("v".to_string(), ValueState::new());
    register(&mut backend, &mut as_bytes).unwrap();
    backend.value_fast_set(&as_bytes, vec![1, 2, 3]).unwrap();
    let mut as_number: Handle<ValueState<u64>, (), ()> =
        Handle::new("v".to_string(), ValueState::new());
    register(&mut backend, &mut as_number).unwrap();
    assert!(matches!(
        backend.value_get(&as_number),
        Err(ArconStateError::ProtobufDecodeError { .. })
    ));
    assert!(matches!(
        backend.value_set(&as_number, 1),
        Err(ArconStateError::ProtobufDecodeError { .. })
    ));
    assert_eq!(backend.value_get(&as_bytes).unwrap(), Some(vec![1, 2, 3]));
}

#[test]
fn registering_again_keeps_what_is_stored() {
    let mut backend = backend();
    let mut first: Handle<ValueState<u64>, (), ()> =
        Handle::new("kept".to_string(), ValueState::new());
    register(&mut backend, &mut first).unwrap();
    backend.value_fast_set(&first, 4).unwrap();
    let mut second: Handle<ValueState<u64>, (), ()> =
        Handle::new("kept".to_string(), ValueState::new());
    assert!(!second.is_registered());
    register(&mut backend, &mut second).unwrap();
    assert!(second.is_registered());
    assert_eq!(backend.value_get(&second).unwrap(), Some(4));
}

#[test]
fn batch_plans() {
    assert_eq!(plan_batch(1000, 22), (46, 1012));
    assert_eq!(plan_batch(1, 22), (1, 22));
    assert_eq!(plan_batch(22, 22), (2, 44));
    assert_eq!(plan_batch(10 * 1024 * 1024, 1024), (2049, 2049 * 1024));
    assert_eq!(plan_batch(5, 4 * 1024 * 1024), (1, 4 * 1024 * 1024));
}

#[test]
fn fill_up_inserts_random_records() {
    let mut backend = backend();
    let mut map: Handle<MapState<Vec<u8>, Vec<u8>>, (), ()> =
        Handle::new("filled".to_string(), MapState::new());
    register(&mut backend, &mut map).unwrap();
    backend.fill_up(&map, 0, 8, 8).unwrap();
    assert!(backend.map_is_empty(&map).unwrap());
    backend.fill_up(&map, 1000, 8, 16).unwrap();
    assert_eq!(backend.map_len(&map).unwrap(), 1000 / 28 + 1);
    for (key, value) in backend.map_iter(&map).unwrap() {
        assert_eq!(key.len(), 8);
        assert_eq!(value.len(), 8);
    }
}

#[test]
fn fill_up_in_several_batches() {
    let mut backend = backend();
    let mut map: Handle<MapState<Vec<u8>, Vec<u8>>, (), ()> =
        Handle::new("filled".to_string(), MapState::new());
    register(&mut backend, &mut map).unwrap();
    backend.fill_up(&map, 5 * 1024 * 1024, 2048, 2048).unwrap();
    assert_eq!(backend.map_len(&map).unwrap(), 512 + 512 + 255);
}

#[test]
fn fill_up_needs_the_map_to_be_held() {
    let mut backend = backend();
    let mut elsewhere = InMemory::new();
    let mut map: Handle<MapState<Vec<u8>, Vec<u8>>, (), ()> =
        Handle::new("filled".to_string(), MapState::new());
    register(&mut elsewhere, &mut map).unwrap();
    assert!(matches!(
        backend.fill_up(&map, 100, 4, 4),
        Err(ArconStateError::InMemoryWrongType)
    ));
    assert!(backend.fill_up(&map, 0, 4, 4).is_ok());
}

#[test]
fn operations_before_registration_fail() {
    let mut backend = backend();
    let value: Handle<ValueState<u64>, (), ()> = Handle::new("v".to_string(), ValueState::new());
    let map: Handle<MapState<u64, u64>, (), ()> = Handle::new("m".to_string(), MapState::new());
    let list: Handle<VecState<u64>, (), ()> = Handle::new("l".to_string(), VecState::new());
    let total: Handle<ReducerState<u64, fn(&u64, &u64) -> u64>, (), ()> =
        Handle::new("r".to_string(), ReducerState::new(sum as fn(&u64, &u64) -> u64));
    let xor: Handle<AggregatorState<XorAggregator>, (), ()> =
        Handle::new("a".to_string(), AggregatorState::new(XorAggregator));
    assert!(!value.is_registered());
    assert!(matches!(backend.value_get(&value), Err(ArconStateError::InMemoryWrongType)));
    assert!(matches!(backend.value_set(&value, 1), Err(ArconStateError::InMemoryWrongType)));
    assert!(matches!(backend.value_fast_set(&value, 1), Err(ArconStateError::InMemoryWrongType)));
    assert!(matches!(backend.value_clear(&value), Err(ArconStateError::InMemoryWrongType)));
    assert!(matches!(backend.map_insert(&map, 1, 1), Err(ArconStateError::InMemoryWrongType)));
    assert!(matches!(
        backend.map_insert_all(&map, vec![(1, 1)]),
        Err(ArconStateError::InMemoryWrongType)
    ));
    assert!(matches!(backend.map_iter(&map), Err(ArconStateError::InMemoryWrongType)));
    assert!(matches!(backend.map_clear(&map), Err(ArconStateError::InMemoryWrongType)));
    assert!(matches!(backend.vec_append(&list, 1), Err(ArconStateError::InMemoryWrongType)));
    assert!(matches!(backend.vec_len(&list), Err(ArconStateError::InMemoryWrongType)));
    assert!(matches!(
        backend.reducer_reduce(&total, 1),
        Err(ArconStateError::InMemoryWrongType)
    ));
    assert!(matches!(backend.reducer_get(&total), Err(ArconStateError::InMemoryWrongType)));
    assert!(matches!(
        backend.aggregator_aggregate(&xor, vec![1]),
        Err(ArconStateError::InMemoryWrongType)
    ));
    assert!(matches!(backend.aggregator_get(&xor), Err(ArconStateError::InMemoryWrongType)));
    assert_eq!(backend.kind_of(&"v".to_string()), None);
}

#[test]
fn a_handle_that_is_not_registered_is_not_served() {
    let mut backend = backend();
    let mut registered: Handle<ValueState<u64>> =
        Handle::new("shared".to_string(), ValueState::new());
    register(&mut backend, &mut registered).unwrap();
    backend.value_fast_set(&registered, 1).unwrap();
    let other: Handle<ValueState<u64>> = Handle::new("shared".to_string(), ValueState::new());
    assert!(!other.is_registered());
    assert!(!backend.serves(&other));
    assert!(backend.serves(&registered));
    assert!(matches!(backend.value_get(&other), Err(ArconStateError::InMemoryWrongType)));
    assert!(matches!(
        backend.value_fast_set(&other, 2),
        Err(ArconStateError::InMemoryWrongType)
    ));
    assert_eq!(backend.value_get(&registered).unwrap(), Some(1));
}

#[test]
fn fill_up_with_nothing_to_fill_does_nothing() {
    let mut backend = backend();
    let mut map: Handle<MapState<Vec<u8>, Vec<u8>>> =
        Handle::new("filled".to_string(), MapState::new());
    assert!(backend.fill_up(&map, 0, 0, 0).is_ok());
    register(&mut backend, &mut map).unwrap();
    assert!(backend.fill_up(&map, 0, 0, 0).is_ok());
    assert!(backend.map_is_empty(&map).unwrap());
}

#[test]
fn fill_up_with_empty_keys_keeps_one_entry() {
    let mut backend = backend();
    let mut map: Handle<MapState<Vec<u8>, Vec<u8>>> =
        Handle::new("filled".to_string(), MapState::new());
    register(&mut backend, &mut map).unwrap();
    backend.fill_up(&map, 100, 0, 8).unwrap();
    assert_eq!(backend.map_len(&map).unwrap(), 1);
    assert_eq!(backend.map_get(&map, &Vec::new()).unwrap(), Some(Vec::new()));
}
