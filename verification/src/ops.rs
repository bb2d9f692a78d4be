use vstd::prelude::*;
use crate::error::ArconStateError;
use crate::aggregator::Aggregator;
use crate::handles::{
    AggregatorState, Handle, MapState, Metakey, ReducerState, StateType, ValueState, VecState,
};
use crate::model::Store;
use crate::random::{new_rng, random_bytes, random_records};
use crate::serialization::protobuf::{Key, Value};

verus! {

/// What every backend shows of itself to the contracts of the operations.
pub trait StateStore {
    /// What the backend holds.
    spec fn store(&self) -> Store;

    /// The backend's own consistency; every operation keeps it.
    spec fn inv(&self) -> bool;

    /// Whether `e` is the error with which this backend refuses an operation
    /// through a handle of the given name that it does not serve.
    spec fn refusal(e: ArconStateError, name: Seq<char>) -> bool;

    /// Whether `e` is a fault of the engine itself, such as a failure of its
    /// storage: an error that the arguments of an operation do not account
    /// for. An operation that ends in a fault changes nothing.
    spec fn fault(e: ArconStateError) -> bool;

    proof fn inv_gives_wf(&self)
        requires
            self.inv(),
        ensures
            self.store().wf(),
    ;
}

impl Store {
    /// Whether operations through the handle are served: the handle is
    /// registered, and the store holds its state under its kind.
    pub open spec fn serves<S: StateType, IK: Metakey, N: Metakey>(
        self,
        handle: &Handle<S, IK, N>,
    ) -> bool {
        handle.registered() && self.holds(handle.name(), S::kind())
    }

    /// `found` is what reading the value in `slot` as a `T` gives.
    pub open spec fn reads_single<T: Value>(self, slot: (Seq<char>, Seq<u8>), found: Option<T>) -> bool {
        match self.single(slot) {
            None => found is None,
            Some(bytes) => found matches Some(v) && T::decoding(bytes) == Some(v@),
        }
    }

    /// The slot holds a value that is no encoding of a `T`.
    pub open spec fn single_unreadable<T: Value>(self, slot: (Seq<char>, Seq<u8>)) -> bool {
        self.single(slot) matches Some(bytes) && T::decoding(bytes) is None
    }

    /// The accumulator that the slot stands for: the fresh one where nothing
    /// is stored, none where what is stored cannot be read.
    pub open spec fn accumulator<A: Aggregator>(self, slot: (Seq<char>, Seq<u8>)) -> Option<
        <A::Accumulator as View>::V,
    > {
        match self.single(slot) {
            None => Some(A::initial()),
            Some(bytes) => <A::Accumulator as Value>::decoding(bytes),
        }
    }

    /// The encodings of a sequence of values, in order.
    pub open spec fn encodings<T: Value>(values: Seq<T>) -> Seq<Seq<u8>> {
        Seq::new(values.len(), |i: int| T::encoding(values[i]@))
    }

    /// Each of the values is read back from its encoding.
    pub open spec fn decode_back<T: Value>(values: Seq<T>) -> bool {
        forall|i: int|
            0 <= i < values.len() ==> T::decoding(T::encoding(#[trigger] values[i]@)) == Some(
                values[i]@,
            )
    }

    /// Encoding one of the values may fail.
    pub open spec fn some_unencodable<T: Value>(values: Seq<T>) -> bool {
        exists|i: int| 0 <= i < values.len() && !T::encodable(#[trigger] values[i]@)
    }

    /// `values` is what reading the items as `T`s gives, in order.
    pub open spec fn decodes_items<T: Value>(items: Seq<Seq<u8>>, values: Seq<T>) -> bool {
        &&& items.len() == values.len()
        &&& forall|i: int|
            0 <= i < items.len() ==> T::decoding(#[trigger] items[i]) == Some(values[i]@)
    }

    /// One of the items is no encoding of a `T`.
    pub open spec fn some_item_unreadable<T: Value>(items: Seq<Seq<u8>>) -> bool {
        exists|i: int| 0 <= i < items.len() && T::decoding(#[trigger] items[i]) is None
    }

    /// `found` is what reading the entry under the encoded `key` as a `V` gives.
    pub open spec fn reads_entry<V: Value>(
        self,
        slot: (Seq<char>, Seq<u8>),
        key: Seq<u8>,
        found: Option<V>,
    ) -> bool {
        if self.entries(slot).contains_key(key) {
            found matches Some(v) && V::decoding(self.entries(slot)[key]) == Some(v@)
        } else {
            found is None
        }
    }

    /// The entry under the encoded `key` holds a value that is no encoding of a `V`.
    pub open spec fn entry_unreadable<V: Value>(
        self,
        slot: (Seq<char>, Seq<u8>),
        key: Seq<u8>,
    ) -> bool {
        self.entries(slot).contains_key(key) && V::decoding(self.entries(slot)[key]) is None
    }

    /// The encodings of a sequence of pairs, in order.
    pub open spec fn encoded_pairs<K: Value, V: Value>(pairs: Seq<(K, V)>) -> Seq<
        (Seq<u8>, Seq<u8>),
    > {
        Seq::new(pairs.len(), |i: int| (K::encoding(pairs[i].0@), V::encoding(pairs[i].1@)))
    }

    /// Each key and each value of the pairs is read back from its encoding.
    pub open spec fn pairs_decode_back<K: Value, V: Value>(pairs: Seq<(K, V)>) -> bool {
        forall|i: int|
            0 <= i < pairs.len() ==> {
                &&& K::decoding(K::encoding((#[trigger] pairs[i]).0@)) == Some(pairs[i].0@)
                &&& V::decoding(V::encoding(pairs[i].1@)) == Some(pairs[i].1@)
            }
    }

    /// Encoding a key or a value of one of the pairs may fail.
    pub open spec fn some_pair_unencodable<K: Value, V: Value>(pairs: Seq<(K, V)>) -> bool {
        exists|i: int|
            0 <= i < pairs.len() && (!K::encodable((#[trigger] pairs[i]).0@) || !V::encodable(
                pairs[i].1@,
            ))
    }

    /// The map after the pairs were inserted into `entries` one at a time, in
    /// their order.
    pub open spec fn insert_all(
        entries: Map<Seq<u8>, Seq<u8>>,
        pairs: Seq<(Seq<u8>, Seq<u8>)>,
    ) -> Map<Seq<u8>, Seq<u8>>
        decreases pairs.len(),
    {
        if pairs.len() == 0 {
            entries
        } else {
            Self::insert_all(entries, pairs.drop_last()).insert(pairs.last().0, pairs.last().1)
        }
    }

    /// `raw` lists each entry of the map once, in some order.
    pub open spec fn enumerates(raw: Seq<(Seq<u8>, Seq<u8>)>, entries: Map<Seq<u8>, Seq<u8>>) -> bool {
        &&& entries.dom().finite()
        &&& raw.len() == entries.dom().len()
        &&& forall|i: int|
            0 <= i < raw.len() ==> entries.contains_key((#[trigger] raw[i]).0) && entries[raw[i].0]
                == raw[i].1
        &&& forall|i: int, j: int|
            0 <= i < j < raw.len() ==> (#[trigger] raw[i]).0 != (#[trigger] raw[j]).0
    }

    /// `pairs` is what reading the raw entries as `K`s and `V`s gives, in order.
    pub open spec fn decodes_pairs<K: Value, V: Value>(
        raw: Seq<(Seq<u8>, Seq<u8>)>,
        pairs: Seq<(K, V)>,
    ) -> bool {
        &&& raw.len() == pairs.len()
        &&& forall|i: int|
            0 <= i < raw.len() ==> {
                &&& K::decoding((#[trigger] raw[i]).0) == Some(pairs[i].0@)
                &&& V::decoding(raw[i].1) == Some(pairs[i].1@)
            }
    }

    /// `keys` is what reading the keys of the raw entries as `K`s gives, in order.
    pub open spec fn decodes_keys<K: Value>(raw: Seq<(Seq<u8>, Seq<u8>)>, keys: Seq<K>) -> bool {
        &&& raw.len() == keys.len()
        &&& forall|i: int|
            0 <= i < raw.len() ==> K::decoding((#[trigger] raw[i]).0) == Some(keys[i]@)
    }

    /// `values` is what reading the values of the raw entries as `V`s gives, in order.
    pub open spec fn decodes_values<V: Value>(raw: Seq<(Seq<u8>, Seq<u8>)>, values: Seq<V>) -> bool {
        &&& raw.len() == values.len()
        &&& forall|i: int|
            0 <= i < raw.len() ==> V::decoding((#[trigger] raw[i]).1) == Some(values[i]@)
    }

    /// One of the map's keys is no encoding of a `K`.
    pub open spec fn some_key_unreadable<K: Value>(entries: Map<Seq<u8>, Seq<u8>>) -> bool {
        exists|k: Seq<u8>| #[trigger] entries.contains_key(k) && K::decoding(k) is None
    }

    /// One of the map's values is no encoding of a `V`.
    pub open spec fn some_value_unreadable<V: Value>(entries: Map<Seq<u8>, Seq<u8>>) -> bool {
        exists|k: Seq<u8>| #[trigger] entries.contains_key(k) && V::decoding(entries[k]) is None
    }
}

/// The operations on a state that holds one value.
///
/// An operation through a handle that is not registered, or on a state that
/// the backend does not hold under the handle's kind, is refused. Any other
/// is owed success, unless the engine has a fault of its own to report, a
/// stored value cannot be decoded, or a new one cannot be encoded. A failed
/// operation changes nothing.
pub trait ValueOps: StateStore {
    /// Removes the value.
    fn value_clear<T: Value, IK: Metakey, N: Metakey>(
        &mut self,
        handle: &Handle<ValueState<T>, IK, N>,
    ) -> (r: Result<(), ArconStateError>)
        requires
            old(self).inv(),
        ensures
            final(self).inv(),
            match r {
                Ok(()) => {
                    &&& old(self).store().serves(handle)
                    &&& final(self).store() == old(self).store().with_single(handle.slot(), None)
                },
                Err(e) => {
                    &&& final(self).store() == old(self).store()
                    &&& {
                        ||| Self::refusal(e, handle.name()) && !old(self).store().serves(handle)
                        ||| Self::fault(e)
                    }
                },
            },
    ;

    /// The value, or `None` where none was set.
    fn value_get<T: Value, IK: Metakey, N: Metakey>(
        &self,
        handle: &Handle<ValueState<T>, IK, N>,
    ) -> (r: Result<Option<T>, ArconStateError>)
        requires
            self.inv(),
        ensures
            match r {
                Ok(found) => {
                    &&& self.store().serves(handle)
                    &&& self.store().reads_single(handle.slot(), found)
                },
                Err(e) => {
                    ||| Self::refusal(e, handle.name()) && !self.store().serves(handle)
                    ||| Self::fault(e)
                    ||| e is ProtobufDecodeError && self.store().single_unreadable::<T>(
                        handle.slot(),
                    )
                },
            },
    ;

    /// Sets the value and hands out the one that it replaces.
    fn value_set<T: Value, IK: Metakey, N: Metakey>(
        &mut self,
        handle: &Handle<ValueState<T>, IK, N>,
        value: T,
    ) -> (r: Result<Option<T>, ArconStateError>)
        requires
            old(self).inv(),
        ensures
            final(self).inv(),
            match r {
                Ok(prior) => {
                    &&& old(self).store().serves(handle)
                    &&& old(self).store().reads_single(handle.slot(), prior)
                    &&& final(self).store() == old(self).store().with_single(
                        handle.slot(),
                        Some(T::encoding(value@)),
                    )
                    &&& T::decoding(T::encoding(value@)) == Some(value@)
                },
                Err(e) => {
                    &&& final(self).store() == old(self).store()
                    &&& {
                        ||| Self::refusal(e, handle.name()) && !old(self).store().serves(handle)
                        ||| Self::fault(e)
                        ||| e is ProtobufEncodeError && !T::encodable(value@)
                        ||| e is ProtobufDecodeError && old(self).store().single_unreadable::<T>(
                            handle.slot(),
                        )
                    }
                },
            },
    ;

    /// Sets the value without reading the one that it replaces.
    fn value_fast_set<T: Value, IK: Metakey, N: Metakey>(
        &mut self,
        handle: &Handle<ValueState<T>, IK, N>,
        value: T,
    ) -> (r: Result<(), ArconStateError>)
        requires
            old(self).inv(),
        ensures
            final(self).inv(),
            match r {
                Ok(()) => {
                    &&& old(self).store().serves(handle)
                    &&& final(self).store() == old(self).store().with_single(
                        handle.slot(),
                        Some(T::encoding(value@)),
                    )
                    &&& T::decoding(T::encoding(value@)) == Some(value@)
                },
                Err(e) => {
                    &&& final(self).store() == old(self).store()
                    &&& {
                        ||| Self::refusal(e, handle.name()) && !old(self).store().serves(handle)
                        ||| Self::fault(e)
                        ||| e is ProtobufEncodeError && !T::encodable(value@)
                    }
                },
            },
    ;
}

/// The operations on a state that holds a sequence of values, oldest first.
///
/// An operation through a handle that is not registered, or on a state that
/// the backend does not hold under the handle's kind, is refused. Any other
/// is owed success, unless the engine has a fault of its own to report, a
/// stored element cannot be decoded, or a new one cannot be encoded. A failed
/// operation changes nothing.
pub trait VecOps: StateStore {
    /// Removes every element.
    fn vec_clear<T: Value, IK: Metakey, N: Metakey>(
        &mut self,
        handle: &Handle<VecState<T>, IK, N>,
    ) -> (r: Result<(), ArconStateError>)
        requires
            old(self).inv(),
        ensures
            final(self).inv(),
            match r {
                Ok(()) => {
                    &&& old(self).store().serves(handle)
                    &&& final(self).store() == old(self).store().with_items(
                        handle.slot(),
                        Seq::empty(),
                    )
                },
                Err(e) => {
                    &&& final(self).store() == old(self).store()
                    &&& {
                        ||| Self::refusal(e, handle.name()) && !old(self).store().serves(handle)
                        ||| Self::fault(e)
                    }
                },
            },
    ;

    /// Adds one element at the end.
    fn vec_append<T: Value, IK: Metakey, N: Metakey>(
        &mut self,
        handle: &Handle<VecState<T>, IK, N>,
        value: T,
    ) -> (r: Result<(), ArconStateError>)
        requires
            old(self).inv(),
        ensures
            final(self).inv(),
            match r {
                Ok(()) => {
                    &&& old(self).store().serves(handle)
                    &&& final(self).store() == old(self).store().with_items(
                        handle.slot(),
                        old(self).store().items(handle.slot()).push(T::encoding(value@)),
                    )
                    &&& T::decoding(T::encoding(value@)) == Some(value@)
                },
                Err(e) => {
                    &&& final(self).store() == old(self).store()
                    &&& {
                        ||| Self::refusal(e, handle.name()) && !old(self).store().serves(handle)
                        ||| Self::fault(e)
                        ||| e is ProtobufEncodeError && !T::encodable(value@)
                    }
                },
            },
    ;

    /// All elements, oldest first.
    fn vec_get<T: Value, IK: Metakey, N: Metakey>(
        &self,
        handle: &Handle<VecState<T>, IK, N>,
    ) -> (r: Result<Vec<T>, ArconStateError>)
        requires
            self.inv(),
        ensures
            match r {
                Ok(values) => {
                    &&& self.store().serves(handle)
                    &&& Store::decodes_items(self.store().items(handle.slot()), values@)
                },
                Err(e) => {
                    ||| Self::refusal(e, handle.name()) && !self.store().serves(handle)
                    ||| Self::fault(e)
                    ||| e is ProtobufDecodeError && Store::some_item_unreadable::<T>(
                        self.store().items(handle.slot()),
                    )
                },
            },
    ;

    /// All elements, oldest first, for one pass over them.
    fn vec_iter<T: Value, IK: Metakey, N: Metakey>(
        &self,
        handle: &Handle<VecState<T>, IK, N>,
    ) -> (r: Result<Vec<T>, ArconStateError>)
        requires
            self.inv(),
        ensures
            match r {
                Ok(values) => {
                    &&& self.store().serves(handle)
                    &&& Store::decodes_items(self.store().items(handle.slot()), values@)
                },
                Err(e) => {
                    ||| Self::refusal(e, handle.name()) && !self.store().serves(handle)
                    ||| Self::fault(e)
                    ||| e is ProtobufDecodeError && Store::some_item_unreadable::<T>(
                        self.store().items(handle.slot()),
                    )
                },
            },
    ;

    /// Replaces the whole sequence.
    fn vec_set<T: Value, IK: Metakey, N: Metakey>(
        &mut self,
        handle: &Handle<VecState<T>, IK, N>,
        value: Vec<T>,
    ) -> (r: Result<(), ArconStateError>)
        requires
            old(self).inv(),
        ensures
            final(self).inv(),
            match r {
                Ok(()) => {
                    &&& old(self).store().serves(handle)
                    &&& final(self).store() == old(self).store().with_items(
                        handle.slot(),
                        Store::encodings(value@),
                    )
                    &&& Store::decode_back(value@)
                },
                Err(e) => {
                    &&& final(self).store() == old(self).store()
                    &&& {
                        ||| Self::refusal(e, handle.name()) && !old(self).store().serves(handle)
                        ||| Self::fault(e)
                        ||| e is ProtobufEncodeError && Store::some_unencodable(value@)
                    }
                },
            },
    ;

    /// Adds the given elements at the end, in their order.
    fn vec_add_all<T: Value, IK: Metakey, N: Metakey>(
        &mut self,
        handle: &Handle<VecState<T>, IK, N>,
        values: Vec<T>,
    ) -> (r: Result<(), ArconStateError>)
        requires
            old(self).inv(),
        ensures
            final(self).inv(),
            match r {
                Ok(()) => {
                    &&& old(self).store().serves(handle)
                    &&& final(self).store() == old(self).store().with_items(
                        handle.slot(),
                        old(self).store().items(handle.slot()) + Store::encodings(values@),
                    )
                    &&& Store::decode_back(values@)
                },
                Err(e) => {
                    &&& final(self).store() == old(self).store()
                    &&& {
                        ||| Self::refusal(e, handle.name()) && !old(self).store().serves(handle)
                        ||| Self::fault(e)
                        ||| e is ProtobufEncodeError && Store::some_unencodable(values@)
                    }
                },
            },
    ;

    /// The number of elements.
    fn vec_len<T: Value, IK: Metakey, N: Metakey>(
        &self,
        handle: &Handle<VecState<T>, IK, N>,
    ) -> (r: Result<usize, ArconStateError>)
        requires
            self.inv(),
        ensures
            match r {
                Ok(n) => {
                    &&& self.store().serves(handle)
                    &&& n == self.store().items(handle.slot()).len()
                },
                Err(e) => {
                    ||| Self::refusal(e, handle.name()) && !self.store().serves(handle)
                    ||| Self::fault(e)
                },
            },
    ;

    /// Whether the sequence has no element.
    fn vec_is_empty<T: Value, IK: Metakey, N: Metakey>(
        &self,
        handle: &Handle<VecState<T>, IK, N>,
    ) -> (r: Result<bool, ArconStateError>)
        requires
            self.inv(),
        ensures
            match r {
                Ok(empty) => {
                    &&& self.store().serves(handle)
                    &&& empty == (self.store().items(handle.slot()).len() == 0)
                },
                Err(e) => {
                    ||| Self::refusal(e, handle.name()) && !self.store().serves(handle)
                    ||| Self::fault(e)
                },
            },
    ;
}

/// The most bytes that `fill_up` offers in one bulk insert.
pub const MAX_BYTES_ONE_INSERT: i64 = 2 * 1024 * 1024;

/// How many records `fill_up` inserts in one batch while `left` bytes are
/// still to be filled with records of `record_size` bytes: as many as fit
/// into the batch, and one more.
pub open spec fn records_in_batch(left: int, record_size: int) -> int {
    (if left < MAX_BYTES_ONE_INSERT {
        left
    } else {
        MAX_BYTES_ONE_INSERT as int
    }) / record_size + 1
}

/// How many records `fill_up` inserts in all to fill `left` bytes with
/// records of `record_size` bytes.
pub open spec fn total_records(left: int, record_size: int) -> int
    decreases left,
{
    let bytes = records_in_batch(left, record_size) * record_size;
    if left <= 0 || bytes <= 0 {
        0
    } else if left <= bytes {
        records_in_batch(left, record_size)
    } else {
        records_in_batch(left, record_size) + total_records(left - bytes, record_size)
    }
}

/// The size that `fill_up` takes a record to have: the length, as it is
/// stored under `scope`, of a record with a key of `key_size` and a value of
/// `value_size` bytes.
pub open spec fn record_length(scope: Seq<u8>, key_size: nat, value_size: nat) -> int {
    (scope.len() + crate::serialization::protobuf::bytes_encoding_length(key_size)
        + crate::serialization::protobuf::bytes_encoding_length(value_size)) as int
}

/// `inserted` is what `fill_up` may have inserted so far: each record has a
/// key and a value of `key_size` bytes.
pub open spec fn fills_in_part(inserted: Seq<(Seq<u8>, Seq<u8>)>, key_size: int) -> bool {
    forall|i: int|
        0 <= i < inserted.len() ==> {
            &&& <Vec<u8> as Value>::decoding((#[trigger] inserted[i]).0) matches Some(key)
            &&& key.len() == key_size
            &&& <Vec<u8> as Value>::decoding(inserted[i].1) matches Some(value)
            &&& value.len() == key_size
        }
}

/// `inserted` is what a `fill_up` that went through has inserted: records
/// with a key and a value of `key_size` bytes, as many as fill `num_bytes`
/// bytes with records of the size that `record_length` gives.
pub open spec fn fills(
    inserted: Seq<(Seq<u8>, Seq<u8>)>,
    scope: Seq<u8>,
    num_bytes: nat,
    key_size: nat,
    value_size: nat,
) -> bool {
    &&& fills_in_part(inserted, key_size as int)
    &&& inserted.len() == total_records(
        num_bytes as int,
        record_length(scope, key_size, value_size),
    )
}

/// While bytes are left to fill, records are left to insert.
pub proof fn lemma_records_are_left(left: int, record_size: int)
    requires
        0 < record_size,
    ensures
        0 <= total_records(left, record_size),
        0 < left ==> 0 < total_records(left, record_size),
    decreases left,
{
    if left > 0 {
        let batch = if left < MAX_BYTES_ONE_INSERT {
            left
        } else {
            MAX_BYTES_ONE_INSERT as int
        };
        assert(0 <= batch / record_size && (batch / record_size + 1) * record_size > 0)
            by (nonlinear_arith)
            requires
                0 < batch,
                0 < record_size,
        ;
        let bytes = records_in_batch(left, record_size) * record_size;
        if left > bytes {
            lemma_records_are_left(left - bytes, record_size);
        }
    }
}

/// The records that `fill_up` inserts are taken to fill the bytes asked for,
/// and less than one record more.
pub proof fn law_records_fill_the_bytes(left: int, record_size: int)
    requires
        0 < record_size,
        0 < left,
    ensures
        left <= total_records(left, record_size) * record_size <= left + record_size,
    decreases left,
{
    let batch = if left < MAX_BYTES_ONE_INSERT {
        left
    } else {
        MAX_BYTES_ONE_INSERT as int
    };
    let records = records_in_batch(left, record_size);
    let bytes = records * record_size;
    assert(batch < (batch / record_size + 1) * record_size <= batch + record_size)
        by (nonlinear_arith)
        requires
            0 < batch,
            0 < record_size,
    ;
    if left > bytes {
        let rest = total_records(left - bytes, record_size);
        law_records_fill_the_bytes(left - bytes, record_size);
        assert((records + rest) * record_size == records * record_size + rest * record_size)
            by (nonlinear_arith);
    }
}

/// How many records to insert in the next batch, and how many bytes they
/// are taken to fill.
pub fn plan_batch(left: i64, record_size: i64) -> (plan: (i64, i64))
    requires
        0 < left,
        0 < record_size,
        record_size + MAX_BYTES_ONE_INSERT <= i64::MAX,
    ensures
        plan.0 == records_in_batch(left as int, record_size as int),
        plan.1 == plan.0 * record_size,
        0 < plan.0 <= MAX_BYTES_ONE_INSERT + 1,
        0 < plan.1,
{
    let this_batch = if left < MAX_BYTES_ONE_INSERT {
        left
    } else {
        MAX_BYTES_ONE_INSERT
    };
    let num_records = this_batch / record_size + 1;
    assert(0 <= this_batch / record_size <= this_batch && (this_batch / record_size) * record_size
        <= this_batch) by (nonlinear_arith)
        requires
            0 < this_batch,
            0 < record_size,
    ;
    assert(num_records * record_size == (this_batch / record_size) * record_size + record_size
        && num_records * record_size > 0) by (nonlinear_arith)
        requires
            num_records == this_batch / record_size + 1,
            0 <= this_batch / record_size,
            0 < record_size,
    ;
    let bytes_in_this_batch = num_records * record_size;
    (num_records, bytes_in_this_batch)
}

/// The operations on a state that maps keys to values.
///
/// Keys are told apart by their encodings. An operation through a handle that
/// is not registered, or on a state that the backend does not hold under the
/// handle's kind, is refused. Any other is owed success, unless the engine has
/// a fault of its own to report, a stored key or value that it has to hand
/// out cannot be decoded, or a new one cannot be encoded. A failed operation
/// changes nothing; `fill_up` alone keeps the batches that went in before the
/// one that failed.
pub trait MapOps: StateStore {
    /// Fills a map of byte strings with random records until `num_bytes`
    /// bytes are taken to be filled. The size of a record is taken from one
    /// with a key of `key_size` and a value of `value_size` random bytes, as
    /// it is encoded, which is `record_length`; the records that are inserted
    /// have a key and a value of `key_size` random bytes each. Records are inserted in batches of at
    /// most `MAX_BYTES_ONE_INSERT` bytes, and one record more. The first
    /// batch that fails ends the call with its error; the batches before it
    /// stay inserted.
    fn fill_up(
        &mut self,
        handle: &Handle<MapState<Vec<u8>, Vec<u8>>>,
        num_bytes: usize,
        key_size: usize,
        value_size: usize,
    ) -> (r: Result<(), ArconStateError>)
        requires
            old(self).inv(),
            num_bytes <= i64::MAX,
            num_bytes > 0 ==> 0 < key_size + value_size,
            key_size + 11 <= isize::MAX,
            value_size + 11 <= isize::MAX,
            key_size + value_size + 22 + MAX_BYTES_ONE_INSERT <= i64::MAX,
        ensures
            final(self).inv(),
            num_bytes == 0 ==> r is Ok && final(self).store() == old(self).store(),
            num_bytes > 0 ==> match r {
                Ok(()) => {
                    &&& old(self).store().serves(handle)
                    &&& exists|inserted: Seq<(Seq<u8>, Seq<u8>)>|
                        {
                            &&& #[trigger] fills(
                                inserted,
                                handle.scope(),
                                num_bytes as nat,
                                key_size as nat,
                                value_size as nat,
                            )
                            &&& final(self).store() == old(self).store().with_entries(
                                handle.slot(),
                                Store::insert_all(
                                    old(self).store().entries(handle.slot()),
                                    inserted,
                                ),
                            )
                        }
                },
                Err(e) => {
                    ||| {
                        &&& Self::refusal(e, handle.name())
                        &&& !old(self).store().serves(handle)
                        &&& final(self).store() == old(self).store()
                    }
                    ||| {
                        &&& Self::fault(e)
                        &&& exists|inserted: Seq<(Seq<u8>, Seq<u8>)>|
                            {
                                &&& #[trigger] fills_in_part(inserted, key_size as int)
                                &&& inserted.len() < total_records(
                                    num_bytes as int,
                                    record_length(
                                        handle.scope(),
                                        key_size as nat,
                                        value_size as nat,
                                    ),
                                )
                                &&& if inserted.len() == 0 {
                                    final(self).store() == old(self).store()
                                } else {
                                    &&& old(self).store().serves(handle)
                                    &&& final(self).store() == old(self).store().with_entries(
                                        handle.slot(),
                                        Store::insert_all(
                                            old(self).store().entries(handle.slot()),
                                            inserted,
                                        ),
                                    )
                                }
                            }
                    }
                },
            },
    {
        let rng = new_rng();
        let key = random_bytes(&rng, key_size);
        let value = random_bytes(&rng, value_size);
        let scope = handle.serialize_metakeys();
        let serialized_key = match key.serialize() {
            Ok(bytes) => bytes,
            Err(e) => { return Err(e); },
        };
        let serialized_value = match value.serialize() {
            Ok(bytes) => bytes,
            Err(e) => { return Err(e); },
        };
        assert(scope@.len() == 0);
        let serialized_record_size = (scope.len() + serialized_key.len()
            + serialized_value.len()) as i64;
        assert(serialized_record_size == record_length(
            handle.scope(),
            key_size as nat,
            value_size as nat,
        ));
        let mut left: i64 = num_bytes as i64;
        let ghost slot = handle.slot();
        let ghost start = old(self).store().entries(slot);
        let ghost mut inserted: Seq<(Seq<u8>, Seq<u8>)> = Seq::empty();
        assert(fills_in_part(inserted, key_size as int));
        while left > 0
            invariant
                old(self).inv(),
                self.inv(),
                slot == handle.slot(),
                start == old(self).store().entries(slot),
                num_bytes > 0 ==> 0 < serialized_record_size,
                key_size + value_size <= serialized_record_size <= key_size + value_size + 22,
                key_size + 11 <= isize::MAX,
                key_size + value_size + 22 + MAX_BYTES_ONE_INSERT <= i64::MAX,
                left <= num_bytes,
                inserted.len() + total_records(left as int, serialized_record_size as int)
                    == total_records(num_bytes as int, serialized_record_size as int),
                inserted.len() == 0 ==> self.store() == old(self).store() && left == num_bytes,
                inserted.len() > 0 ==> {
                    &&& old(self).store().serves(handle)
                    &&& self.store() == old(self).store().with_entries(
                        slot,
                        Store::insert_all(start, inserted),
                    )
                },
                serialized_record_size == record_length(
                    handle.scope(),
                    key_size as nat,
                    value_size as nat,
                ),
                fills_in_part(inserted, key_size as int),
            decreases
                    (if left > 0 {
                        left as int
                    } else {
                        0
                    }),
        {
            let (num_records, bytes_in_this_batch) = plan_batch(left, serialized_record_size);
            let records = random_records(&rng, num_records as usize, key_size);
            let ghost batch = Store::encoded_pairs(records@);
            proof {
                if Store::some_pair_unencodable(records@) {
                    let i = choose|i: int|
                        0 <= i < records@.len() && (!<Vec<u8> as Value>::encodable(
                            (#[trigger] records@[i]).0@,
                        ) || !<Vec<u8> as Value>::encodable(records@[i].1@));
                    assert(records@[i].0@.len() == key_size);
                }
            }
            match self.map_insert_all(handle, records) {
                Ok(()) => {},
                Err(e) => {
                    proof {
                        lemma_records_are_left(left as int, serialized_record_size as int);
                    }
                    return Err(e);
                },
            }
            proof {
                if inserted.len() > 0 {
                    old(self).inv_gives_wf();
                    old(self).store().lemma_entries_are_canonical(slot);
                    crate::laws::lemma_insert_all_finite(start, inserted);
                    old(self).store().lemma_written_is_held(slot);
                    old(self).store().lemma_overwrite(slot);
                    crate::laws::lemma_insert_all_concat(start, inserted, batch);
                }
                assert forall|i: int| 0 <= i < (inserted + batch).len() implies {
                    &&& <Vec<u8> as Value>::decoding((#[trigger] (inserted + batch)[i]).0)
                        matches Some(key)
                    &&& key.len() == key_size
                    &&& <Vec<u8> as Value>::decoding((inserted + batch)[i].1) matches Some(value)
                    &&& value.len() == key_size
                } by {
                    if i >= inserted.len() {
                        let j = i - inserted.len();
                        assert((inserted + batch)[i] == batch[j]);
                        assert(records@[j].0@.len() == key_size);
                    } else {
                        assert((inserted + batch)[i] == inserted[i]);
                    }
                }
                inserted = inserted + batch;
            }
            left = left - bytes_in_this_batch;
        }
        proof {
            if num_bytes > 0 {
                assert(total_records(left as int, serialized_record_size as int) == 0);
                assert(total_records(num_bytes as int, serialized_record_size as int) > 0);
                assert(fills(
                    inserted,
                    handle.scope(),
                    num_bytes as nat,
                    key_size as nat,
                    value_size as nat,
                ));
            }
        }
        Ok(())
    }

    /// Removes every entry.
    fn map_clear<K: Key, V: Value, IK: Metakey, N: Metakey>(
        &mut self,
        handle: &Handle<MapState<K, V>, IK, N>,
    ) -> (r: Result<(), ArconStateError>)
        requires
            old(self).inv(),
        ensures
            final(self).inv(),
            match r {
                Ok(()) => {
                    &&& old(self).store().serves(handle)
                    &&& final(self).store() == old(self).store().with_entries(
                        handle.slot(),
                        Map::empty(),
                    )
                },
                Err(e) => {
                    &&& final(self).store() == old(self).store()
                    &&& {
                        ||| Self::refusal(e, handle.name()) && !old(self).store().serves(handle)
                        ||| Self::fault(e)
                    }
                },
            },
    ;

    /// The value under `key`, or `None` where there is none.
    fn map_get<K: Key, V: Value, IK: Metakey, N: Metakey>(
        &self,
        handle: &Handle<MapState<K, V>, IK, N>,
        key: &K,
    ) -> (r: Result<Option<V>, ArconStateError>)
        requires
            self.inv(),
        ensures
            match r {
                Ok(found) => {
                    &&& self.store().serves(handle)
                    &&& self.store().reads_entry(handle.slot(), K::encoding(key@), found)
                },
                Err(e) => {
                    ||| Self::refusal(e, handle.name()) && !self.store().serves(handle)
                    ||| Self::fault(e)
                    ||| e is ProtobufEncodeError && !K::encodable(key@)
                    ||| e is ProtobufDecodeError && self.store().entry_unreadable::<V>(
                        handle.slot(),
                        K::encoding(key@),
                    )
                },
            },
    ;

    /// Binds `key` to `value` without reading what it was bound to.
    fn map_fast_insert<K: Key, V: Value, IK: Metakey, N: Metakey>(
        &mut self,
        handle: &Handle<MapState<K, V>, IK, N>,
        key: K,
        value: V,
    ) -> (r: Result<(), ArconStateError>)
        requires
            old(self).inv(),
        ensures
            final(self).inv(),
            match r {
                Ok(()) => {
                    &&& old(self).store().serves(handle)
                    &&& final(self).store() == old(self).store().with_entries(
                        handle.slot(),
                        old(self).store().entries(handle.slot()).insert(
                            K::encoding(key@),
                            V::encoding(value@),
                        ),
                    )
                    &&& K::decoding(K::encoding(key@)) == Some(key@)
                    &&& V::decoding(V::encoding(value@)) == Some(value@)
                },
                Err(e) => {
                    &&& final(self).store() == old(self).store()
                    &&& {
                        ||| Self::refusal(e, handle.name()) && !old(self).store().serves(handle)
                        ||| Self::fault(e)
                        ||| e is ProtobufEncodeError && (!K::encodable(key@) || !V::encodable(
                            value@,
                        ))
                    }
                },
            },
    ;

    /// Binds `key` to `value` and hands out what it was bound to.
    fn map_insert<K: Key, V: Value, IK: Metakey, N: Metakey>(
        &mut self,
        handle: &Handle<MapState<K, V>, IK, N>,
        key: K,
        value: V,
    ) -> (r: Result<Option<V>, ArconStateError>)
        requires
            old(self).inv(),
        ensures
            final(self).inv(),
            match r {
                Ok(prior) => {
                    &&& old(self).store().serves(handle)
                    &&& old(self).store().reads_entry(handle.slot(), K::encoding(key@), prior)
                    &&& final(self).store() == old(self).store().with_entries(
                        handle.slot(),
                        old(self).store().entries(handle.slot()).insert(
                            K::encoding(key@),
                            V::encoding(value@),
                        ),
                    )
                    &&& K::decoding(K::encoding(key@)) == Some(key@)
                    &&& V::decoding(V::encoding(value@)) == Some(value@)
                },
                Err(e) => {
                    &&& final(self).store() == old(self).store()
                    &&& {
                        ||| Self::refusal(e, handle.name()) && !old(self).store().serves(handle)
                        ||| Self::fault(e)
                        ||| e is ProtobufEncodeError && (!K::encodable(key@) || !V::encodable(
                            value@,
                        ))
                        ||| e is ProtobufDecodeError && old(self).store().entry_unreadable::<V>(
                            handle.slot(),
                            K::encoding(key@),
                        )
                    }
                },
            },
    ;

    /// Inserts the pairs one after the other, in their order: of two pairs
    /// with one key the later one stays. Either all are inserted or none.
    fn map_insert_all<K: Key, V: Value, IK: Metakey, N: Metakey>(
        &mut self,
        handle: &Handle<MapState<K, V>, IK, N>,
        key_value_pairs: Vec<(K, V)>,
    ) -> (r: Result<(), ArconStateError>)
        requires
            old(self).inv(),
        ensures
            final(self).inv(),
            match r {
                Ok(()) => {
                    &&& old(self).store().serves(handle)
                    &&& final(self).store() == old(self).store().with_entries(
                        handle.slot(),
                        Store::insert_all(
                            old(self).store().entries(handle.slot()),
                            Store::encoded_pairs(key_value_pairs@),
                        ),
                    )
                    &&& Store::pairs_decode_back(key_value_pairs@)
                },
                Err(e) => {
                    &&& final(self).store() == old(self).store()
                    &&& {
                        ||| Self::refusal(e, handle.name()) && !old(self).store().serves(handle)
                        ||| Self::fault(e)
                        ||| e is ProtobufEncodeError && Store::some_pair_unencodable(
                            key_value_pairs@,
                        )
                    }
                },
            },
    ;

    /// Removes the entry under `key` and hands out its value.
    fn map_remove<K: Key, V: Value, IK: Metakey, N: Metakey>(
        &mut self,
        handle: &Handle<MapState<K, V>, IK, N>,
        key: &K,
    ) -> (r: Result<Option<V>, ArconStateError>)
        requires
            old(self).inv(),
        ensures
            final(self).inv(),
            match r {
                Ok(prior) => {
                    &&& old(self).store().serves(handle)
                    &&& old(self).store().reads_entry(handle.slot(), K::encoding(key@), prior)
                    &&& final(self).store() == old(self).store().with_entries(
                        handle.slot(),
                        old(self).store().entries(handle.slot()).remove(K::encoding(key@)),
                    )
                },
                Err(e) => {
                    &&& final(self).store() == old(self).store()
                    &&& {
                        ||| Self::refusal(e, handle.name()) && !old(self).store().serves(handle)
                        ||| Self::fault(e)
                        ||| e is ProtobufEncodeError && !K::encodable(key@)
                        ||| e is ProtobufDecodeError && old(self).store().entry_unreadable::<V>(
                            handle.slot(),
                            K::encoding(key@),
                        )
                    }
                },
            },
    ;

    /// Removes the entry under `key` without reading its value.
    fn map_fast_remove<K: Key, V: Value, IK: Metakey, N: Metakey>(
        &mut self,
        handle: &Handle<MapState<K, V>, IK, N>,
        key: &K,
    ) -> (r: Result<(), ArconStateError>)
        requires
            old(self).inv(),
        ensures
            final(self).inv(),
            match r {
                Ok(()) => {
                    &&& old(self).store().serves(handle)
                    &&& final(self).store() == old(self).store().with_entries(
                        handle.slot(),
                        old(self).store().entries(handle.slot()).remove(K::encoding(key@)),
                    )
                },
                Err(e) => {
                    &&& final(self).store() == old(self).store()
                    &&& {
                        ||| Self::refusal(e, handle.name()) && !old(self).store().serves(handle)
                        ||| Self::fault(e)
                        ||| e is ProtobufEncodeError && !K::encodable(key@)
                    }
                },
            },
    ;

    /// Whether there is an entry under `key`.
    fn map_contains<K: Key, V: Value, IK: Metakey, N: Metakey>(
        &self,
        handle: &Handle<MapState<K, V>, IK, N>,
        key: &K,
    ) -> (r: Result<bool, ArconStateError>)
        requires
            self.inv(),
        ensures
            match r {
                Ok(held) => {
                    &&& self.store().serves(handle)
                    &&& held == self.store().entries(handle.slot()).contains_key(K::encoding(key@))
                },
                Err(e) => {
                    ||| Self::refusal(e, handle.name()) && !self.store().serves(handle)
                    ||| Self::fault(e)
                    ||| e is ProtobufEncodeError && !K::encodable(key@)
                },
            },
    ;

    /// Every entry once, in no particular order.
    fn map_iter<K: Key, V: Value, IK: Metakey, N: Metakey>(
        &self,
        handle: &Handle<MapState<K, V>, IK, N>,
    ) -> (r: Result<Vec<(K, V)>, ArconStateError>)
        requires
            self.inv(),
        ensures
            match r {
                Ok(pairs) => {
                    &&& self.store().serves(handle)
                    &&& exists|raw: Seq<(Seq<u8>, Seq<u8>)>|
                        {
                            &&& Store::enumerates(raw, self.store().entries(handle.slot()))
                            &&& #[trigger] Store::decodes_pairs(raw, pairs@)
                        }
                },
                Err(e) => {
                    ||| Self::refusal(e, handle.name()) && !self.store().serves(handle)
                    ||| Self::fault(e)
                    ||| e is ProtobufDecodeError && (Store::some_key_unreadable::<K>(
                        self.store().entries(handle.slot()),
                    ) || Store::some_value_unreadable::<V>(self.store().entries(handle.slot())))
                },
            },
    ;

    /// Every key once, in no particular order.
    fn map_keys<K: Key, V: Value, IK: Metakey, N: Metakey>(
        &self,
        handle: &Handle<MapState<K, V>, IK, N>,
    ) -> (r: Result<Vec<K>, ArconStateError>)
        requires
            self.inv(),
        ensures
            match r {
                Ok(keys) => {
                    &&& self.store().serves(handle)
                    &&& exists|raw: Seq<(Seq<u8>, Seq<u8>)>|
                        {
                            &&& Store::enumerates(raw, self.store().entries(handle.slot()))
                            &&& #[trigger] Store::decodes_keys(raw, keys@)
                        }
                },
                Err(e) => {
                    ||| Self::refusal(e, handle.name()) && !self.store().serves(handle)
                    ||| Self::fault(e)
                    ||| e is ProtobufDecodeError && Store::some_key_unreadable::<K>(
                        self.store().entries(handle.slot()),
                    )
                },
            },
    ;

    /// The value of every entry, in no particular order.
    fn map_values<K: Key, V: Value, IK: Metakey, N: Metakey>(
        &self,
        handle: &Handle<MapState<K, V>, IK, N>,
    ) -> (r: Result<Vec<V>, ArconStateError>)
        requires
            self.inv(),
        ensures
            match r {
                Ok(values) => {
                    &&& self.store().serves(handle)
                    &&& exists|raw: Seq<(Seq<u8>, Seq<u8>)>|
                        {
                            &&& Store::enumerates(raw, self.store().entries(handle.slot()))
                            &&& #[trigger] Store::decodes_values(raw, values@)
                        }
                },
                Err(e) => {
                    ||| Self::refusal(e, handle.name()) && !self.store().serves(handle)
                    ||| Self::fault(e)
                    ||| e is ProtobufDecodeError && Store::some_value_unreadable::<V>(
                        self.store().entries(handle.slot()),
                    )
                },
            },
    ;

    /// The number of entries.
    fn map_len<K: Key, V: Value, IK: Metakey, N: Metakey>(
        &self,
        handle: &Handle<MapState<K, V>, IK, N>,
    ) -> (r: Result<usize, ArconStateError>)
        requires
            self.inv(),
        ensures
            match r {
                Ok(n) => {
                    &&& self.store().serves(handle)
                    &&& n == self.store().entries(handle.slot()).dom().len()
                },
                Err(e) => {
                    ||| Self::refusal(e, handle.name()) && !self.store().serves(handle)
                    ||| Self::fault(e)
                },
            },
    ;

    /// Whether the map has no entry.
    fn map_is_empty<K: Key, V: Value, IK: Metakey, N: Metakey>(
        &self,
        handle: &Handle<MapState<K, V>, IK, N>,
    ) -> (r: Result<bool, ArconStateError>)
        requires
            self.inv(),
        ensures
            match r {
                Ok(empty) => {
                    &&& self.store().serves(handle)
                    &&& empty == (self.store().entries(handle.slot()).dom().len() == 0)
                },
                Err(e) => {
                    ||| Self::refusal(e, handle.name()) && !self.store().serves(handle)
                    ||| Self::fault(e)
                },
            },
    ;
}

/// The operations on a state that folds the values given to it into one.
///
/// The reducer of the handle is called on the stored value and the new one,
/// in this order; it must accept every pair of values, and should not care
/// about the order in which values arrive. Operations fail and succeed as
/// those on a single value do.
pub trait ReducerOps: StateStore {
    /// Removes the folded value.
    fn reducer_clear<T: Value, F: Fn(&T, &T) -> T, IK: Metakey, N: Metakey>(
        &mut self,
        handle: &Handle<ReducerState<T, F>, IK, N>,
    ) -> (r: Result<(), ArconStateError>)
        requires
            old(self).inv(),
        ensures
            final(self).inv(),
            match r {
                Ok(()) => {
                    &&& old(self).store().serves(handle)
                    &&& final(self).store() == old(self).store().with_single(handle.slot(), None)
                },
                Err(e) => {
                    &&& final(self).store() == old(self).store()
                    &&& {
                        ||| Self::refusal(e, handle.name()) && !old(self).store().serves(handle)
                        ||| Self::fault(e)
                    }
                },
            },
    ;

    /// The folded value, or `None` where no value was given since the state
    /// was last cleared.
    fn reducer_get<T: Value, F: Fn(&T, &T) -> T, IK: Metakey, N: Metakey>(
        &self,
        handle: &Handle<ReducerState<T, F>, IK, N>,
    ) -> (r: Result<Option<T>, ArconStateError>)
        requires
            self.inv(),
        ensures
            match r {
                Ok(found) => {
                    &&& self.store().serves(handle)
                    &&& self.store().reads_single(handle.slot(), found)
                },
                Err(e) => {
                    ||| Self::refusal(e, handle.name()) && !self.store().serves(handle)
                    ||| Self::fault(e)
                    ||| e is ProtobufDecodeError && self.store().single_unreadable::<T>(
                        handle.slot(),
                    )
                },
            },
    ;

    /// Folds `value` into the stored value; where none is stored, `value` is
    /// stored as it is.
    fn reducer_reduce<T: Value, F: Fn(&T, &T) -> T, IK: Metakey, N: Metakey>(
        &mut self,
        handle: &Handle<ReducerState<T, F>, IK, N>,
        value: T,
    ) -> (r: Result<(), ArconStateError>)
        requires
            old(self).inv(),
            forall|a: T, b: T| call_requires(handle.state().reducer, (&a, &b)),
        ensures
            final(self).inv(),
            match r {
                Ok(()) => {
                    &&& old(self).store().serves(handle)
                    &&& match old(self).store().single(handle.slot()) {
                        None => {
                            &&& final(self).store() == old(self).store().with_single(
                                handle.slot(),
                                Some(T::encoding(value@)),
                            )
                            &&& T::decoding(T::encoding(value@)) == Some(value@)
                        },
                        Some(bytes) => exists|prior: T, folded: T|
                            {
                                &&& #[trigger] call_ensures(
                                    handle.state().reducer,
                                    (&prior, &value),
                                    folded,
                                )
                                &&& T::decoding(bytes) == Some(prior@)
                                &&& final(self).store() == old(self).store().with_single(
                                    handle.slot(),
                                    Some(T::encoding(folded@)),
                                )
                                &&& T::decoding(T::encoding(folded@)) == Some(folded@)
                            },
                    }
                },
                Err(e) => {
                    &&& final(self).store() == old(self).store()
                    &&& {
                        ||| Self::refusal(e, handle.name()) && !old(self).store().serves(handle)
                        ||| Self::fault(e)
                        ||| e is ProtobufDecodeError && old(self).store().single_unreadable::<T>(
                            handle.slot(),
                        )
                        ||| e is ProtobufEncodeError && match old(self).store().single(
                            handle.slot(),
                        ) {
                            None => !T::encodable(value@),
                            Some(bytes) => exists|prior: T, folded: T|
                                {
                                    &&& #[trigger] call_ensures(
                                        handle.state().reducer,
                                        (&prior, &value),
                                        folded,
                                    )
                                    &&& T::decoding(bytes) == Some(prior@)
                                    &&& !T::encodable(folded@)
                                },
                        }
                    }
                },
            },
    ;
}

/// The operations on a state that folds inputs into an accumulator.
///
/// A state that nothing was folded into stands for the fresh accumulator.
/// Operations fail and succeed as those on a single value do.
pub trait AggregatorOps: StateStore {
    /// Goes back to the fresh accumulator.
    fn aggregator_clear<A: Aggregator, IK: Metakey, N: Metakey>(
        &mut self,
        handle: &Handle<AggregatorState<A>, IK, N>,
    ) -> (r: Result<(), ArconStateError>)
        requires
            old(self).inv(),
        ensures
            final(self).inv(),
            match r {
                Ok(()) => {
                    &&& old(self).store().serves(handle)
                    &&& final(self).store() == old(self).store().with_single(handle.slot(), None)
                },
                Err(e) => {
                    &&& final(self).store() == old(self).store()
                    &&& {
                        ||| Self::refusal(e, handle.name()) && !old(self).store().serves(handle)
                        ||| Self::fault(e)
                    }
                },
            },
    ;

    /// The result that the accumulator stands for; the accumulator stays.
    fn aggregator_get<A: Aggregator, IK: Metakey, N: Metakey>(
        &self,
        handle: &Handle<AggregatorState<A>, IK, N>,
    ) -> (r: Result<A::Result, ArconStateError>)
        requires
            self.inv(),
        ensures
            match r {
                Ok(result) => {
                    &&& self.store().serves(handle)
                    &&& self.store().accumulator::<A>(handle.slot()) matches Some(acc)
                    &&& result@ == A::result_of(acc)
                },
                Err(e) => {
                    ||| Self::refusal(e, handle.name()) && !self.store().serves(handle)
                    ||| Self::fault(e)
                    ||| e is ProtobufDecodeError && self.store().single_unreadable::<
                        A::Accumulator,
                    >(handle.slot())
                },
            },
    ;

    /// Folds `value` into the accumulator.
    fn aggregator_aggregate<A: Aggregator, IK: Metakey, N: Metakey>(
        &mut self,
        handle: &Handle<AggregatorState<A>, IK, N>,
        value: A::Input,
    ) -> (r: Result<(), ArconStateError>)
        requires
            old(self).inv(),
        ensures
            final(self).inv(),
            match r {
                Ok(()) => {
                    &&& old(self).store().serves(handle)
                    &&& old(self).store().accumulator::<A>(handle.slot()) matches Some(acc)
                    &&& final(self).store() == old(self).store().with_single(
                        handle.slot(),
                        Some(<A::Accumulator as Value>::encoding(A::added(acc, value@))),
                    )
                    &&& final(self).store().accumulator::<A>(handle.slot()) == Some(
                        A::added(acc, value@),
                    )
                },
                Err(e) => {
                    &&& final(self).store() == old(self).store()
                    &&& {
                        ||| Self::refusal(e, handle.name()) && !old(self).store().serves(handle)
                        ||| Self::fault(e)
                        ||| e is ProtobufDecodeError && old(self).store().single_unreadable::<
                            A::Accumulator,
                        >(handle.slot())
                        ||| {
                            &&& e is ProtobufEncodeError
                            &&& old(self).store().accumulator::<A>(handle.slot()) matches Some(acc)
                            &&& !<A::Accumulator as Value>::encodable(A::added(acc, value@))
                        }
                    }
                },
            },
    ;
}

} // verus!
