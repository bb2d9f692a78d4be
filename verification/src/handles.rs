use vstd::prelude::*;
use core::marker::PhantomData;
use crate::error::ArconStateError;
use crate::model::StateKind;
use crate::serialization::fixed_bytes::{serialize_into, FixedBytes};
use crate::serialization::protobuf::{Key, Value};
use crate::session::RegistrationPermit;

verus! {

/// A scalar that scopes a handle: an item key or a namespace.
pub trait Metakey: FixedBytes {

}

impl Metakey for () {

}

impl Metakey for u8 {

}

impl Metakey for u16 {

}

impl Metakey for u32 {

}

impl Metakey for u64 {

}

/// Describes a state that holds one value of type `T`.
pub struct ValueState<T> {
    marker: PhantomData<T>,
}

/// Describes a state that maps keys of type `K` to values of type `V`.
pub struct MapState<K, V> {
    marker: PhantomData<(K, V)>,
}

/// Describes a state that holds a sequence of values of type `T`.
pub struct VecState<T> {
    marker: PhantomData<T>,
}

/// Describes a state that folds values of type `T` into one with `reducer`.
pub struct ReducerState<T, F> {
    pub reducer: F,
    pub marker: PhantomData<T>,
}

/// Describes a state that folds inputs into an accumulator of `aggregator`.
pub struct AggregatorState<A> {
    pub aggregator: A,
}

/// What all state descriptors have in common: their kind.
pub trait StateType {
    spec fn kind() -> StateKind;

    fn state_kind(&self) -> (kind: StateKind)
        ensures
            kind == Self::kind(),
    ;
}

impl<T> StateType for ValueState<T> {
    open spec fn kind() -> StateKind {
        StateKind::Value
    }

    fn state_kind(&self) -> (kind: StateKind) {
        StateKind::Value
    }
}

impl<K, V> StateType for MapState<K, V> {
    open spec fn kind() -> StateKind {
        StateKind::Mapping
    }

    fn state_kind(&self) -> (kind: StateKind) {
        StateKind::Mapping
    }
}

impl<T> StateType for VecState<T> {
    open spec fn kind() -> StateKind {
        StateKind::Sequence
    }

    fn state_kind(&self) -> (kind: StateKind) {
        StateKind::Sequence
    }
}

impl<T, F> StateType for ReducerState<T, F> {
    open spec fn kind() -> StateKind {
        StateKind::Reducer
    }

    fn state_kind(&self) -> (kind: StateKind) {
        StateKind::Reducer
    }
}

impl<A> StateType for AggregatorState<A> {
    open spec fn kind() -> StateKind {
        StateKind::Aggregator
    }

    fn state_kind(&self) -> (kind: StateKind) {
        StateKind::Aggregator
    }
}

/// The bytes that a metakey contributes to a scope: its encoding, or nothing
/// where it is not set.
pub open spec fn metakey_bytes<M: FixedBytes>(key: Option<M>) -> Seq<u8> {
    match key {
        Some(k) => k.fixed(),
        None => Seq::empty(),
    }
}

/// A named, typed reference to one piece of state. The name and the kind never
/// change; the item key and the namespace are set per record.
pub struct Handle<S, IK = (), N = ()> {
    name: String,
    item_key: Option<IK>,
    namespace: Option<N>,
    registered: bool,
    state: S,
}

impl<S: StateType, IK: Metakey, N: Metakey> Handle<S, IK, N> {
    pub closed spec fn name(&self) -> Seq<char> {
        self.name@
    }

    pub closed spec fn item_key(&self) -> Option<IK> {
        self.item_key
    }

    pub closed spec fn namespace(&self) -> Option<N> {
        self.namespace
    }

    pub closed spec fn registered(&self) -> bool {
        self.registered
    }

    pub closed spec fn state(&self) -> S {
        self.state
    }

    /// The scope that the handle points into: the encoding of its item key
    /// followed by that of its namespace.
    pub open spec fn scope(&self) -> Seq<u8> {
        metakey_bytes(self.item_key()) + metakey_bytes(self.namespace())
    }

    /// Where the handle's state lies in a store.
    pub open spec fn slot(&self) -> (Seq<char>, Seq<u8>) {
        (self.name(), self.scope())
    }

    /// A handle as it is declared: not registered, with no item key and no namespace.
    pub fn new(name: String, state: S) -> (handle: Self)
        ensures
            handle.name() == name@,
            handle.state() == state,
            handle.item_key() is None,
            handle.namespace() is None,
            !handle.registered(),
    {
        Handle { name, item_key: None, namespace: None, registered: false, state }
    }

    pub fn with_item_key(self, item_key: IK) -> (handle: Self)
        ensures
            handle.name() == self.name(),
            handle.state() == self.state(),
            handle.item_key() == Some(item_key),
            handle.namespace() == self.namespace(),
            handle.registered() == self.registered(),
    {
        let mut handle = self;
        handle.item_key = Some(item_key);
        handle
    }

    pub fn with_namespace(self, namespace: N) -> (handle: Self)
        ensures
            handle.name() == self.name(),
            handle.state() == self.state(),
            handle.item_key() == self.item_key(),
            handle.namespace() == Some(namespace),
            handle.registered() == self.registered(),
    {
        let mut handle = self;
        handle.namespace = Some(namespace);
        handle
    }

    pub fn set_item_key(&mut self, item_key: IK)
        ensures
            final(self).name() == old(self).name(),
            final(self).state() == old(self).state(),
            final(self).item_key() == Some(item_key),
            final(self).namespace() == old(self).namespace(),
            final(self).registered() == old(self).registered(),
    {
        self.item_key = Some(item_key);
    }

    pub fn set_namespace(&mut self, namespace: N)
        ensures
            final(self).name() == old(self).name(),
            final(self).state() == old(self).state(),
            final(self).item_key() == old(self).item_key(),
            final(self).namespace() == Some(namespace),
            final(self).registered() == old(self).registered(),
    {
        self.namespace = Some(namespace);
    }

    /// Records that a backend has materialised the state. For backends, which
    /// have a permit to show.
    pub fn mark_registered(&mut self, permit: &RegistrationPermit)
        ensures
            final(self).name() == old(self).name(),
            final(self).state() == old(self).state(),
            final(self).item_key() == old(self).item_key(),
            final(self).namespace() == old(self).namespace(),
            final(self).registered(),
    {
        self.registered = true;
    }

    pub fn is_registered(&self) -> (registered: bool)
        ensures
            registered == self.registered(),
    {
        self.registered
    }

    pub fn id(&self) -> (name: &String)
        ensures
            name@ == self.name(),
    {
        &self.name
    }

    pub fn kind(&self) -> (kind: StateKind)
        ensures
            kind == S::kind(),
    {
        self.state.state_kind()
    }

    pub fn descriptor(&self) -> (state: &S)
        ensures
            *state == self.state(),
    {
        &self.state
    }

    /// The encoding of the handle's scope.
    pub fn serialize_metakeys(&self) -> (bytes: Vec<u8>)
        ensures
            bytes@ == self.scope(),
    {
        let mut dest: Vec<u8> = Vec::new();
        match &self.item_key {
            Some(item_key) => {
                serialize_into(&mut dest, item_key);
            },
            None => {},
        }
        match &self.namespace {
            Some(namespace) => {
                serialize_into(&mut dest, namespace);
            },
            None => {},
        }
        assert(dest@ =~= self.scope());
        dest
    }
}

impl<T> ValueState<T> {
    pub fn new() -> Self {
        ValueState { marker: PhantomData }
    }
}

impl<K, V> MapState<K, V> {
    pub fn new() -> Self {
        MapState { marker: PhantomData }
    }
}

impl<T> VecState<T> {
    pub fn new() -> Self {
        VecState { marker: PhantomData }
    }
}

impl<T, F: Fn(&T, &T) -> T> ReducerState<T, F> {
    pub fn new(reducer: F) -> (state: Self)
        ensures
            state.reducer == reducer,
    {
        ReducerState { reducer, marker: PhantomData }
    }
}

impl<A> AggregatorState<A> {
    pub fn new(aggregator: A) -> (state: Self)
        ensures
            state.aggregator == aggregator,
    {
        AggregatorState { aggregator }
    }
}

impl<K: Key, V: Value, IK: Metakey, N: Metakey> Handle<MapState<K, V>, IK, N> {
    /// The encoding of the handle's scope followed by that of `key`.
    pub fn serialize_metakeys_and_key(&self, key: &K) -> (r: Result<Vec<u8>, ArconStateError>)
        ensures
            K::encodable(key@) ==> r is Ok,
            match r {
                Ok(bytes) => bytes@ == self.scope() + K::encoding(key@),
                Err(e) => e is ProtobufEncodeError,
            },
    {
        let mut dest = self.serialize_metakeys();
        let mut key_bytes = match key.serialize() {
            Ok(bytes) => bytes,
            Err(e) => { return Err(e); },
        };
        dest.append(&mut key_bytes);
        Ok(dest)
    }
}

} // verus!
