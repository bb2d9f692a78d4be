use vstd::prelude::*;
use crate::assoc::AssocList;
use crate::error::ArconStateError;
use crate::handles::{Handle, MapState, Metakey};
use crate::in_memory::codec::serialize_pairs_reversed;
use crate::in_memory::{cell_key, InMemory};
use crate::model::Store;
use crate::ops::{MapOps, StateStore};
use crate::serialization::protobuf::{Key, Value};

verus! {

/// Reads the value under an encoded key.
fn read_entry<V: Value>(list: &AssocList<Vec<u8>, Vec<u8>>, key_bytes: &Vec<u8>) -> (r: Result<
    Option<V>,
    ArconStateError,
>)
    requires
        list.wf(),
    ensures
        match r {
            Ok(found) => if list.map().contains_key(key_bytes@) {
                found matches Some(v) && V::decoding(list.map()[key_bytes@]@) == Some(v@)
            } else {
                found is None
            },
            Err(e) => {
                &&& e is ProtobufDecodeError
                &&& list.map().contains_key(key_bytes@)
                &&& V::decoding(list.map()[key_bytes@]@) is None
            },
        },
{
    match list.get(key_bytes) {
        Some(value_bytes) => {
            match V::deserialize(value_bytes.as_slice()) {
                Ok(value) => Ok(Some(value)),
                Err(e) => Err(e),
            }
        },
        None => Ok(None),
    }
}

/// The encoded entries of a list that may be missing.
pub open spec fn entries_of(found: Option<&AssocList<Vec<u8>, Vec<u8>>>) -> Map<Seq<u8>, Seq<u8>> {
    match found {
        Some(list) => crate::in_memory::entry_bytes(list.map()),
        None => Map::empty(),
    }
}

/// Reads every entry of a list, in its order.
fn read_pairs<K: Value, V: Value>(found: Option<&AssocList<Vec<u8>, Vec<u8>>>) -> (r: Result<
    Vec<(K, V)>,
    ArconStateError,
>)
    requires
        found matches Some(list) ==> list.wf(),
    ensures
        match r {
            Ok(pairs) => exists|raw: Seq<(Seq<u8>, Seq<u8>)>|
                {
                    &&& Store::enumerates(raw, entries_of(found))
                    &&& #[trigger] Store::decodes_pairs(raw, pairs@)
                },
            Err(e) => {
                &&& e is ProtobufDecodeError
                &&& (Store::some_key_unreadable::<K>(entries_of(found))
                    || Store::some_value_unreadable::<V>(entries_of(found)))
            },
        },
{
    let mut pairs: Vec<(K, V)> = Vec::new();
    let list = match found {
        Some(list) => list,
        None => {
            let r: Result<Vec<(K, V)>, ArconStateError> = Ok(pairs);
            assert(Store::enumerates(Seq::empty(), entries_of(found)));
            assert(Store::decodes_pairs(Seq::empty(), r->Ok_0@));
            return r;
        },
    };
    let ghost raw = crate::in_memory::raw_pairs(list.entries@);
    proof {
        crate::in_memory::lemma_enumerates(*list);
    }
    let mut i: usize = 0;
    while i < list.entries.len()
        invariant
            i <= list.entries@.len(),
            pairs@.len() == i,
            raw == crate::in_memory::raw_pairs(list.entries@),
            found == Some(list),
            Store::enumerates(raw, entries_of(found)),
            forall|j: int|
                0 <= j < i ==> {
                    &&& K::decoding((#[trigger] raw[j]).0) == Some(pairs@[j].0@)
                    &&& V::decoding(raw[j].1) == Some(pairs@[j].1@)
                },
        decreases list.entries@.len() - i,
    {
        let key = match K::deserialize(list.entries[i].0.as_slice()) {
            Ok(key) => key,
            Err(e) => {
                assert(entries_of(found).contains_key(raw[i as int].0));
                assert(K::decoding(raw[i as int].0) is None);
                return Err(e);
            },
        };
        let value = match V::deserialize(list.entries[i].1.as_slice()) {
            Ok(value) => value,
            Err(e) => {
                assert(entries_of(found).contains_key(raw[i as int].0));
                assert(V::decoding(entries_of(found)[raw[i as int].0]) is None);
                return Err(e);
            },
        };
        pairs.push((key, value));
        i = i + 1;
    }
    let r: Result<Vec<(K, V)>, ArconStateError> = Ok(pairs);
    assert(Store::decodes_pairs(raw, r->Ok_0@));
    r
}

/// Reads every key of a list, in its order.
fn read_keys<K: Value>(found: Option<&AssocList<Vec<u8>, Vec<u8>>>) -> (r: Result<
    Vec<K>,
    ArconStateError,
>)
    requires
        found matches Some(list) ==> list.wf(),
    ensures
        match r {
            Ok(keys) => exists|raw: Seq<(Seq<u8>, Seq<u8>)>|
                {
                    &&& Store::enumerates(raw, entries_of(found))
                    &&& #[trigger] Store::decodes_keys(raw, keys@)
                },
            Err(e) => {
                &&& e is ProtobufDecodeError
                &&& Store::some_key_unreadable::<K>(entries_of(found))
            },
        },
{
    let mut keys: Vec<K> = Vec::new();
    let list = match found {
        Some(list) => list,
        None => {
            let r: Result<Vec<K>, ArconStateError> = Ok(keys);
            assert(Store::enumerates(Seq::empty(), entries_of(found)));
            assert(Store::decodes_keys(Seq::empty(), r->Ok_0@));
            return r;
        },
    };
    let ghost raw = crate::in_memory::raw_pairs(list.entries@);
    proof {
        crate::in_memory::lemma_enumerates(*list);
    }
    let mut i: usize = 0;
    while i < list.entries.len()
        invariant
            i <= list.entries@.len(),
            keys@.len() == i,
            raw == crate::in_memory::raw_pairs(list.entries@),
            found == Some(list),
            Store::enumerates(raw, entries_of(found)),
            forall|j: int| 0 <= j < i ==> K::decoding((#[trigger] raw[j]).0) == Some(keys@[j]@),
        decreases list.entries@.len() - i,
    {
        let key = match K::deserialize(list.entries[i].0.as_slice()) {
            Ok(key) => key,
            Err(e) => {
                assert(entries_of(found).contains_key(raw[i as int].0));
                assert(K::decoding(raw[i as int].0) is None);
                return Err(e);
            },
        };
        keys.push(key);
        i = i + 1;
    }
    let r: Result<Vec<K>, ArconStateError> = Ok(keys);
    assert(Store::decodes_keys(raw, r->Ok_0@));
    r
}

/// Reads every value of a list, in its order.
fn read_values<V: Value>(found: Option<&AssocList<Vec<u8>, Vec<u8>>>) -> (r: Result<
    Vec<V>,
    ArconStateError,
>)
    requires
        found matches Some(list) ==> list.wf(),
    ensures
        match r {
            Ok(values) => exists|raw: Seq<(Seq<u8>, Seq<u8>)>|
                {
                    &&& Store::enumerates(raw, entries_of(found))
                    &&& #[trigger] Store::decodes_values(raw, values@)
                },
            Err(e) => {
                &&& e is ProtobufDecodeError
                &&& Store::some_value_unreadable::<V>(entries_of(found))
            },
        },
{
    let mut values: Vec<V> = Vec::new();
    let list = match found {
        Some(list) => list,
        None => {
            let r: Result<Vec<V>, ArconStateError> = Ok(values);
            assert(Store::enumerates(Seq::empty(), entries_of(found)));
            assert(Store::decodes_values(Seq::empty(), r->Ok_0@));
            return r;
        },
    };
    let ghost raw = crate::in_memory::raw_pairs(list.entries@);
    proof {
        crate::in_memory::lemma_enumerates(*list);
    }
    let mut i: usize = 0;
    while i < list.entries.len()
        invariant
            i <= list.entries@.len(),
            values@.len() == i,
            raw == crate::in_memory::raw_pairs(list.entries@),
            found == Some(list),
            Store::enumerates(raw, entries_of(found)),
            forall|j: int| 0 <= j < i ==> V::decoding((#[trigger] raw[j]).1) == Some(values@[j]@),
        decreases list.entries@.len() - i,
    {
        let value = match V::deserialize(list.entries[i].1.as_slice()) {
            Ok(value) => value,
            Err(e) => {
                assert(entries_of(found).contains_key(raw[i as int].0));
                assert(V::decoding(entries_of(found)[raw[i as int].0]) is None);
                return Err(e);
            },
        };
        values.push(value);
        i = i + 1;
    }
    let r: Result<Vec<V>, ArconStateError> = Ok(values);
    assert(Store::decodes_values(raw, r->Ok_0@));
    r
}

impl MapOps for InMemory {
    fn map_clear<K: Key, V: Value, IK: Metakey, N: Metakey>(
        &mut self,
        handle: &Handle<MapState<K, V>, IK, N>,
    ) -> (r: Result<(), ArconStateError>)
        ensures
            r matches Err(e) ==> e is InMemoryWrongType,
    {
        if !self.serves(handle) {
            return Err(ArconStateError::InMemoryWrongType);
        }
        let cell = cell_key(handle);
        assert(Map::<Seq<u8>, Seq<u8>>::empty().dom().len() == 0);
        self.clear_cell(&cell);
        Ok(())
    }

    fn map_get<K: Key, V: Value, IK: Metakey, N: Metakey>(
        &self,
        handle: &Handle<MapState<K, V>, IK, N>,
        key: &K,
    ) -> (r: Result<Option<V>, ArconStateError>)
        ensures
            !self.store().serves(handle) ==> r matches Err(
                ArconStateError::InMemoryWrongType,
            ),
    {
        if !self.serves(handle) {
            return Err(ArconStateError::InMemoryWrongType);
        }
        let key_bytes = match key.serialize() {
            Ok(bytes) => bytes,
            Err(e) => { return Err(e); },
        };
        let cell = cell_key(handle);
        match self.entries(&cell) {
            Some(list) => read_entry(list, &key_bytes),
            None => Ok(None),
        }
    }

    fn map_fast_insert<K: Key, V: Value, IK: Metakey, N: Metakey>(
        &mut self,
        handle: &Handle<MapState<K, V>, IK, N>,
        key: K,
        value: V,
    ) -> (r: Result<(), ArconStateError>)
        ensures
            !old(self).store().serves(handle) ==> r matches Err(
                ArconStateError::InMemoryWrongType,
            ),
    {
        if !self.serves(handle) {
            return Err(ArconStateError::InMemoryWrongType);
        }
        let key_bytes = match key.serialize() {
            Ok(bytes) => bytes,
            Err(e) => { return Err(e); },
        };
        let value_bytes = match value.serialize() {
            Ok(bytes) => bytes,
            Err(e) => { return Err(e); },
        };
        let cell = cell_key(handle);
        let mut list = self.take_entries(&cell);
        let ghost before = list.map();
        list.insert(key_bytes, value_bytes);
        proof {
            old(self).store().lemma_overwrite(handle.slot());
            assert(crate::in_memory::entry_bytes(list.map()) =~= crate::in_memory::entry_bytes(
                before,
            ).insert(key_bytes@, value_bytes@));
        }
        self.put_entries(cell, list);
        Ok(())
    }

    fn map_insert<K: Key, V: Value, IK: Metakey, N: Metakey>(
        &mut self,
        handle: &Handle<MapState<K, V>, IK, N>,
        key: K,
        value: V,
    ) -> (r: Result<Option<V>, ArconStateError>)
        ensures
            !old(self).store().serves(handle) ==> r matches Err(
                ArconStateError::InMemoryWrongType,
            ),
    {
        if !self.serves(handle) {
            return Err(ArconStateError::InMemoryWrongType);
        }
        let key_bytes = match key.serialize() {
            Ok(bytes) => bytes,
            Err(e) => { return Err(e); },
        };
        let value_bytes = match value.serialize() {
            Ok(bytes) => bytes,
            Err(e) => { return Err(e); },
        };
        let cell = cell_key(handle);
        let prior = match self.entries(&cell) {
            Some(list) => {
                match read_entry(list, &key_bytes) {
                    Ok(prior) => prior,
                    Err(e) => { return Err(e); },
                }
            },
            None => None,
        };
        let mut list = self.take_entries(&cell);
        let ghost before = list.map();
        list.insert(key_bytes, value_bytes);
        proof {
            old(self).store().lemma_overwrite(handle.slot());
            assert(crate::in_memory::entry_bytes(list.map()) =~= crate::in_memory::entry_bytes(
                before,
            ).insert(key_bytes@, value_bytes@));
        }
        self.put_entries(cell, list);
        Ok(prior)
    }

    fn map_insert_all<K: Key, V: Value, IK: Metakey, N: Metakey>(
        &mut self,
        handle: &Handle<MapState<K, V>, IK, N>,
        key_value_pairs: Vec<(K, V)>,
    ) -> (r: Result<(), ArconStateError>)
        ensures
            !old(self).store().serves(handle) ==> r matches Err(
                ArconStateError::InMemoryWrongType,
            ),
    {
        if !self.serves(handle) {
            return Err(ArconStateError::InMemoryWrongType);
        }
        let mut encoded = match serialize_pairs_reversed(&key_value_pairs) {
            Ok(encoded) => encoded,
            Err(e) => { return Err(e); },
        };
        let cell = cell_key(handle);
        let mut list = self.take_entries(&cell);
        let ghost start = old(self).store().entries(handle.slot());
        let ghost raw = Store::encoded_pairs(key_value_pairs@);
        let ghost reversed = crate::in_memory::raw_pairs(encoded@);
        let n = encoded.len();
        proof {
            assert(reversed.len() == encoded@.len());
            assert(raw.reverse().len() == raw.len());
            assert(raw.take(0) =~= Seq::empty());
            assert(reversed.take(encoded@.len() as int) =~= reversed);
        }
        while encoded.len() > 0
            invariant
                list.wf(),
                n == raw.len(),
                encoded@.len() <= n,
                reversed == raw.reverse(),
                crate::in_memory::raw_pairs(encoded@) == reversed.take(encoded@.len() as int),
                crate::in_memory::entry_bytes(list.map()) == Store::insert_all(
                    start,
                    raw.take(n - encoded@.len()),
                ),
            decreases encoded@.len(),
        {
            let ghost done = n - encoded@.len();
            let ghost rest = encoded@;
            let ghost before = list.map();
            let (key_bytes, value_bytes) = encoded.pop().unwrap();
            list.insert(key_bytes, value_bytes);
            proof {
                let last = rest.len() - 1;
                assert(crate::in_memory::raw_pairs(rest)[last] == reversed[last]);
                assert(reversed[last] == raw[done]);
                assert(raw.take(done + 1).drop_last() =~= raw.take(done));
                assert(raw.take(done + 1).last() == raw[done]);
                assert(crate::in_memory::entry_bytes(list.map())
                    =~= crate::in_memory::entry_bytes(before).insert(key_bytes@, value_bytes@));
                assert(crate::in_memory::raw_pairs(encoded@) =~= reversed.take(
                    encoded@.len() as int,
                ));
            }
        }
        proof {
            old(self).store().lemma_overwrite(handle.slot());
            assert(raw.take(n as int) =~= raw);
        }
        self.put_entries(cell, list);
        Ok(())
    }

    fn map_remove<K: Key, V: Value, IK: Metakey, N: Metakey>(
        &mut self,
        handle: &Handle<MapState<K, V>, IK, N>,
        key: &K,
    ) -> (r: Result<Option<V>, ArconStateError>)
        ensures
            !old(self).store().serves(handle) ==> r matches Err(
                ArconStateError::InMemoryWrongType,
            ),
    {
        if !self.serves(handle) {
            return Err(ArconStateError::InMemoryWrongType);
        }
        let key_bytes = match key.serialize() {
            Ok(bytes) => bytes,
            Err(e) => { return Err(e); },
        };
        let cell = cell_key(handle);
        let prior = match self.entries(&cell) {
            Some(list) => {
                match read_entry(list, &key_bytes) {
                    Ok(prior) => prior,
                    Err(e) => { return Err(e); },
                }
            },
            None => None,
        };
        let mut list = self.take_entries(&cell);
        let ghost before = list.map();
        list.remove(&key_bytes);
        proof {
            old(self).store().lemma_overwrite(handle.slot());
            assert(crate::in_memory::entry_bytes(list.map()) =~= crate::in_memory::entry_bytes(
                before,
            ).remove(key_bytes@));
        }
        self.put_entries(cell, list);
        Ok(prior)
    }

    fn map_fast_remove<K: Key, V: Value, IK: Metakey, N: Metakey>(
        &mut self,
        handle: &Handle<MapState<K, V>, IK, N>,
        key: &K,
    ) -> (r: Result<(), ArconStateError>)
        ensures
            !old(self).store().serves(handle) ==> r matches Err(
                ArconStateError::InMemoryWrongType,
            ),
    {
        if !self.serves(handle) {
            return Err(ArconStateError::InMemoryWrongType);
        }
        let key_bytes = match key.serialize() {
            Ok(bytes) => bytes,
            Err(e) => { return Err(e); },
        };
        let cell = cell_key(handle);
        let mut list = self.take_entries(&cell);
        let ghost before = list.map();
        list.remove(&key_bytes);
        proof {
            old(self).store().lemma_overwrite(handle.slot());
            assert(crate::in_memory::entry_bytes(list.map()) =~= crate::in_memory::entry_bytes(
                before,
            ).remove(key_bytes@));
        }
        self.put_entries(cell, list);
        Ok(())
    }

    fn map_contains<K: Key, V: Value, IK: Metakey, N: Metakey>(
        &self,
        handle: &Handle<MapState<K, V>, IK, N>,
        key: &K,
    ) -> (r: Result<bool, ArconStateError>)
        ensures
            !self.store().serves(handle) ==> r matches Err(
                ArconStateError::InMemoryWrongType,
            ),
    {
        if !self.serves(handle) {
            return Err(ArconStateError::InMemoryWrongType);
        }
        let key_bytes = match key.serialize() {
            Ok(bytes) => bytes,
            Err(e) => { return Err(e); },
        };
        let cell = cell_key(handle);
        match self.entries(&cell) {
            Some(list) => Ok(list.contains_key(&key_bytes)),
            None => Ok(false),
        }
    }

    fn map_iter<K: Key, V: Value, IK: Metakey, N: Metakey>(
        &self,
        handle: &Handle<MapState<K, V>, IK, N>,
    ) -> (r: Result<Vec<(K, V)>, ArconStateError>)
        ensures
            !self.store().serves(handle) ==> r matches Err(
                ArconStateError::InMemoryWrongType,
            ),
    {
        if !self.serves(handle) {
            return Err(ArconStateError::InMemoryWrongType);
        }
        let cell = cell_key(handle);
        read_pairs::<K, V>(self.entries(&cell))
    }

    fn map_keys<K: Key, V: Value, IK: Metakey, N: Metakey>(
        &self,
        handle: &Handle<MapState<K, V>, IK, N>,
    ) -> (r: Result<Vec<K>, ArconStateError>)
        ensures
            !self.store().serves(handle) ==> r matches Err(
                ArconStateError::InMemoryWrongType,
            ),
    {
        if !self.serves(handle) {
            return Err(ArconStateError::InMemoryWrongType);
        }
        let cell = cell_key(handle);
        read_keys::<K>(self.entries(&cell))
    }

    fn map_values<K: Key, V: Value, IK: Metakey, N: Metakey>(
        &self,
        handle: &Handle<MapState<K, V>, IK, N>,
    ) -> (r: Result<Vec<V>, ArconStateError>)
        ensures
            !self.store().serves(handle) ==> r matches Err(
                ArconStateError::InMemoryWrongType,
            ),
    {
        if !self.serves(handle) {
            return Err(ArconStateError::InMemoryWrongType);
        }
        let cell = cell_key(handle);
        read_values::<V>(self.entries(&cell))
    }

    fn map_len<K: Key, V: Value, IK: Metakey, N: Metakey>(
        &self,
        handle: &Handle<MapState<K, V>, IK, N>,
    ) -> (r: Result<usize, ArconStateError>)
        ensures
            r matches Err(e) ==> e is InMemoryWrongType,
    {
        if !self.serves(handle) {
            return Err(ArconStateError::InMemoryWrongType);
        }
        let cell = cell_key(handle);
        match self.entries(&cell) {
            Some(list) => {
                assert(crate::in_memory::entry_bytes(list.map()).dom() =~= list.map().dom());
                Ok(list.len())
            },
            None => Ok(0),
        }
    }

    fn map_is_empty<K: Key, V: Value, IK: Metakey, N: Metakey>(
        &self,
        handle: &Handle<MapState<K, V>, IK, N>,
    ) -> (r: Result<bool, ArconStateError>)
        ensures
            r matches Err(e) ==> e is InMemoryWrongType,
    {
        if !self.serves(handle) {
            return Err(ArconStateError::InMemoryWrongType);
        }
        let cell = cell_key(handle);
        match self.entries(&cell) {
            Some(list) => {
                assert(crate::in_memory::entry_bytes(list.map()).dom() =~= list.map().dom());
                Ok(list.len() == 0)
            },
            None => Ok(true),
        }
    }
}

} // verus!
