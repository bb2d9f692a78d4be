use arcon_state::backend::{checkpoint_and_restore, restore_taken, Backend, StorageConfig};
use arcon_state::bundle::Bundle;
use arcon_state::error::ArconStateError;
use arcon_state::handles::{Handle, MapState, ValueState, VecState};
use arcon_state::in_memory::InMemory;
use arcon_state::ops::{MapOps, ValueOps, VecOps};
use arcon_state::session::Session;

type Counts = Handle<MapState<Vec<u8>, u64>, (), ()>;
type Last = Handle<ValueState<u64>, (), ()>;
type Log = Handle<VecState<u32>, (), ()>;

fn register<Bn: Bundle>(backend: &mut InMemory, bundle: &mut Bn) -> Result<(), ArconStateError> {
    let owned = std::mem::replace(backend, InMemory::new());
    let mut token = Session::new(owned).registration_token().ok().unwrap();
    let registered = bundle.register_states(&mut token);
    *backend = token.finish().close();
    registered
}

fn bundle() -> (Counts, (Last, Log)) {
    (
        Handle::new("counts".to_string(), MapState::new()),
        (
            Handle::new("last".to_string(), ValueState::new()),
            Handle::new("log".to_string(), VecState::new()),
        ),
    )
}

#[test]
fn handles_are_registered_through_the_token() {
    let session = Session::new(InMemory::new());
    assert!(!session.has_drawn_token());
    assert!(!session.is_activated());
    let mut token = session.registration_token().ok().unwrap();
    let mut states = bundle();
    assert!(!states.is_registered());
    assert!(!states.0.is_registered());
    states.register_states(&mut token).unwrap();
    assert!(states.is_registered());
    assert!(states.0.is_registered());
    assert!((states.1).0.is_registered());
    assert!((states.1).1.is_registered());
    let mut session = token.finish();
    assert!(session.has_drawn_token());
    assert!(!session.is_activated());
    assert!(states.activate(&mut session));
    assert!(session.is_activated());
    session.ops().map_fast_insert(&states.0, b"k".to_vec(), 1).unwrap();
    session.ops().value_fast_set(&(states.1).0, 2).unwrap();
    session.ops().vec_append(&(states.1).1, 3).unwrap();
    let backend = session.close();
    assert_eq!(backend.map_get(&states.0, &b"k".to_vec()).unwrap(), Some(1));
    assert_eq!(backend.value_get(&(states.1).0).unwrap(), Some(2));
    assert_eq!(backend.vec_get(&(states.1).1).unwrap(), vec![3]);
}

#[test]
fn the_token_is_drawn_once() {
    let session = Session::new(InMemory::new());
    let token = session.registration_token().ok().unwrap();
    let session = token.finish();
    let refused = session.registration_token();
    assert!(refused.is_err());
    let session = refused.err().unwrap();
    assert!(session.has_drawn_token());
    assert!(session.registration_token().is_err());
}

#[test]
fn no_token_after_an_activation() {
    let mut backend = InMemory::new();
    let mut last: Last = Handle::new("last".to_string(), ValueState::new());
    register(&mut backend, &mut last).unwrap();
    let mut session = Session::new(backend);
    assert!(last.activate(&mut session));
    assert!(session.registration_token().is_err());
}

#[test]
fn no_token_after_an_operation() {
    let mut backend = InMemory::new();
    let mut last: Last = Handle::new("last".to_string(), ValueState::new());
    register(&mut backend, &mut last).unwrap();
    let mut session = Session::new(backend);
    session.ops().value_fast_set(&last, 1).unwrap();
    assert!(session.is_activated());
    assert!(session.registration_token().is_err());
}

#[test]
fn a_bundle_that_is_not_registered_cannot_be_activated() {
    let mut session = Session::new(InMemory::new());
    let states = bundle();
    assert!(!states.activate(&mut session));
    assert!(!session.is_activated());
    let mut token = session.registration_token().ok().unwrap();
    let mut states = states;
    states.0.register_states(&mut token).unwrap();
    let mut session = token.finish();
    assert!(!states.activate(&mut session));
    assert!(states.0.activate(&mut session));
}

#[test]
fn a_new_session_on_the_same_backend_registers_again() {
    let session = Session::new(InMemory::new());
    let mut token = session.registration_token().ok().unwrap();
    let mut states = bundle();
    states.register_states(&mut token).unwrap();
    let mut session = token.finish();
    session.ops().value_fast_set(&(states.1).0, 9).unwrap();
    let backend = session.close();
    let session = Session::new(backend);
    let mut token = session.registration_token().ok().unwrap();
    let mut again = bundle();
    again.register_states(&mut token).unwrap();
    let session = token.finish();
    assert_eq!(session.peek().value_get(&(again.1).0).unwrap(), Some(9));
}

#[test]
fn a_conflicting_declaration_stops_the_registration() {
    let mut backend = InMemory::new();
    let mut taken: Handle<VecState<u64>, (), ()> =
        Handle::new("last".to_string(), VecState::new());
    register(&mut backend, &mut taken).unwrap();
    let session = Session::new(backend);
    let mut token = session.registration_token().ok().unwrap();
    let mut states = bundle();
    assert!(matches!(
        states.register_states(&mut token),
        Err(ArconStateError::InMemoryWrongType)
    ));
    assert!(states.0.is_registered());
    assert!(!(states.1).0.is_registered());
    assert!(!(states.1).1.is_registered());
    assert!(!states.is_registered());
    let backend = token.finish().close();
    assert!(backend.knows(&"counts".to_string(), arcon_state::model::StateKind::Mapping));
    assert!(backend.knows(&"last".to_string(), arcon_state::model::StateKind::Sequence));
    assert_eq!(backend.kind_of(&"log".to_string()), None);
}

#[test]
fn checkpoint_and_restore_keep_everything() {
    let mut backend = InMemory::create("live", &StorageConfig { mem_size_hint: Some(1024) }).unwrap();
    let mut states = bundle();
    register(&mut backend, &mut states.0).unwrap();
    register(&mut backend, &mut (states.1).0).unwrap();
    register(&mut backend, &mut (states.1).1).unwrap();
    backend.map_fast_insert(&states.0, b"a".to_vec(), 1).unwrap();
    backend.map_fast_insert(&states.0, b"b".to_vec(), 2).unwrap();
    backend.value_fast_set(&(states.1).0, 3).unwrap();
    backend.vec_add_all(&(states.1).1, vec![4, 5, 6]).unwrap();
    let checkpoint = backend.checkpoint("first".to_string()).unwrap();
    assert_eq!(checkpoint.name(), "first");
    backend.map_fast_insert(&states.0, b"a".to_vec(), 100).unwrap();
    backend.vec_clear(&(states.1).1).unwrap();
    let known = vec!["log".to_string(), "counts".to_string(), "last".to_string()];
    let restored = InMemory::restore(&checkpoint, &known).unwrap();
    let mut pairs = restored.map_iter(&states.0).unwrap();
    pairs.sort();
    assert_eq!(pairs, vec![(b"a".to_vec(), 1), (b"b".to_vec(), 2)]);
    assert_eq!(restored.value_get(&(states.1).0).unwrap(), Some(3));
    assert_eq!(restored.vec_get(&(states.1).1).unwrap(), vec![4, 5, 6]);
    assert_eq!(backend.map_get(&states.0, &b"a".to_vec()).unwrap(), Some(100));
    let again = checkpoint_and_restore(&restored, "second".to_string(), &known).unwrap();
    assert_eq!(again.value_get(&(states.1).0).unwrap(), Some(3));
    assert_eq!(again.map_len(&states.0).unwrap(), 2);
}

#[test]
fn restore_refuses_a_state_that_is_not_known() {
    let mut backend = InMemory::new();
    let mut states = bundle();
    register(&mut backend, &mut states.0).unwrap();
    register(&mut backend, &mut (states.1).0).unwrap();
    let checkpoint = backend.checkpoint("id".to_string()).unwrap();
    let known = vec!["counts".to_string(), "log".to_string()];
    match InMemory::restore(&checkpoint, &known) {
        Err(ArconStateError::UnknownNode { unknown_node, known_nodes }) => {
            assert_eq!(unknown_node, "last");
            assert_eq!(known_nodes, known);
        }
        other => panic!("unexpected: {:?}", other.is_ok()),
    }
    assert!(InMemory::restore(&checkpoint, &Vec::new()).is_err());
    let empty = InMemory::new().checkpoint("empty".to_string()).unwrap();
    assert!(InMemory::restore(&empty, &Vec::new()).is_ok());
}

#[test]
fn duplicates_do_not_share_state() {
    let mut backend = InMemory::new();
    let mut last: Last = Handle::new("last".to_string(), ValueState::new());
    register(&mut backend, &mut last).unwrap();
    backend.value_fast_set(&last, 1).unwrap();
    let mut copy = backend.duplicate();
    copy.value_fast_set(&last, 2).unwrap();
    assert_eq!(backend.value_get(&last).unwrap(), Some(1));
    assert_eq!(copy.value_get(&last).unwrap(), Some(2));
}

#[test]
fn a_failed_checkpoint_is_handed_on() {
    let failed = Err(ArconStateError::FasterCheckpointFailed);
    assert!(matches!(
        restore_taken::<InMemory>(failed, &Vec::new()),
        Err(ArconStateError::FasterCheckpointFailed)
    ));
    let late = Err(ArconStateError::FasterReceiveTimeout);
    assert!(matches!(
        restore_taken::<InMemory>(late, &vec!["last".to_string()]),
        Err(ArconStateError::FasterReceiveTimeout)
    ));
}

#[test]
fn a_taken_checkpoint_is_restored_where_its_states_are_known() {
    let mut backend = InMemory::new();
    let mut last: Last = Handle::new("last".to_string(), ValueState::new());
    register(&mut backend, &mut last).unwrap();
    backend.value_fast_set(&last, 7).unwrap();
    let known = vec!["last".to_string()];
    let restored =
        restore_taken::<InMemory>(backend.checkpoint("id".to_string()), &known).unwrap();
    assert_eq!(restored.value_get(&last).unwrap(), Some(7));
    match restore_taken::<InMemory>(backend.checkpoint("id".to_string()), &Vec::new()) {
        Err(ArconStateError::UnknownNode { unknown_node, known_nodes }) => {
            assert_eq!(unknown_node, "last");
            assert!(known_nodes.is_empty());
        }
        other => panic!("unexpected: {:?}", other.is_ok()),
    }
    match checkpoint_and_restore(&backend, "id".to_string(), &vec!["first".to_string()]) {
        Err(ArconStateError::UnknownNode { unknown_node, known_nodes }) => {
            assert_eq!(unknown_node, "last");
            assert_eq!(known_nodes, vec!["first".to_string()]);
        }
        other => panic!("unexpected: {:?}", other.is_ok()),
    }
    assert!(checkpoint_and_restore(&backend, "id".to_string(), &known).is_ok());
}
