use arcon_state::backend::StorageConfig;
use arcon_state::handles::{
    AggregatorState, Handle, MapState, ReducerState, StateType, ValueState, VecState,
};
use arcon_state::in_memory::snapshot::{copy_names, is_known};
use arcon_state::model::StateKind;
use arcon_state::ops::MAX_BYTES_ONE_INSERT;

#[test]
fn a_new_handle_is_not_registered() {
    let handle: Handle<ValueState<u64>> = Handle::new("name".to_string(), ValueState::new());
    assert!(!handle.is_registered());
    assert_eq!(handle.id(), "name");
    assert_eq!(handle.kind(), StateKind::Value);
    assert_eq!(handle.serialize_metakeys(), Vec::<u8>::new());
}

#[test]
fn every_descriptor_has_its_kind() {
    assert_eq!(ValueState::<u64>::new().state_kind(), StateKind::Value);
    assert_eq!(MapState::<u64, u64>::new().state_kind(), StateKind::Mapping);
    assert_eq!(VecState::<u64>::new().state_kind(), StateKind::Sequence);
    assert_eq!(
        ReducerState::new(|a: &u64, b: &u64| a + b).state_kind(),
        StateKind::Reducer
    );
    assert_eq!(AggregatorState::new(0u8).state_kind(), StateKind::Aggregator);
}

#[test]
fn metakeys_are_set_and_replaced() {
    let handle: Handle<VecState<u64>, u64, u16> =
        Handle::new("scoped".to_string(), VecState::new());
    let handle = handle.with_namespace(0x0201);
    assert_eq!(handle.serialize_metakeys(), vec![0x01, 0x02]);
    let mut handle = handle.with_item_key(1);
    assert_eq!(handle.serialize_metakeys(), vec![1, 0, 0, 0, 0, 0, 0, 0, 0x01, 0x02]);
    handle.set_item_key(u64::MAX);
    handle.set_namespace(0);
    assert_eq!(
        handle.serialize_metakeys(),
        vec![0xff, 0xff, 0xff, 0xff, 0xff, 0xff, 0xff, 0xff, 0, 0]
    );
    assert_eq!(handle.id(), "scoped");
    assert!(!handle.is_registered());
}

#[test]
fn the_default_configuration_gives_no_hint() {
    assert_eq!(StorageConfig::default().mem_size_hint, None);
}

#[test]
fn known_names() {
    let names = vec!["a".to_string(), "bc".to_string()];
    assert!(is_known(&names, &"a".to_string()));
    assert!(is_known(&names, &"bc".to_string()));
    assert!(!is_known(&names, &"b".to_string()));
    assert!(!is_known(&Vec::new(), &"a".to_string()));
    assert_eq!(copy_names(&names), names);
}

#[test]
fn one_insert_takes_at_most_two_mebibytes() {
    assert_eq!(MAX_BYTES_ONE_INSERT, 2097152);
}
