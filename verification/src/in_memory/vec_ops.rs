use vstd::prelude::*;
use crate::error::ArconStateError;
use crate::handles::{Handle, Metakey, VecState};
use crate::in_memory::codec::{deserialize_all, serialize_all};
use crate::in_memory::{cell_key, InMemory};
use crate::ops::{StateStore, VecOps};
use crate::serialization::protobuf::Value;

verus! {

impl VecOps for InMemory {
    fn vec_clear<T: Value, IK: Metakey, N: Metakey>(
        &mut self,
        handle: &Handle<VecState<T>, IK, N>,
    ) -> (r: Result<(), ArconStateError>)
        ensures
            r matches Err(e) ==> e is InMemoryWrongType,
    {
        if !self.serves(handle) {
            return Err(ArconStateError::InMemoryWrongType);
        }
        let key = cell_key(handle);
        self.clear_cell(&key);
        Ok(())
    }

    fn vec_append<T: Value, IK: Metakey, N: Metakey>(
        &mut self,
        handle: &Handle<VecState<T>, IK, N>,
        value: T,
    ) -> (r: Result<(), ArconStateError>)
        ensures
            !old(self).store().serves(handle) ==> r matches Err(
                ArconStateError::InMemoryWrongType,
            ),
    {
        if !self.serves(handle) {
            return Err(ArconStateError::InMemoryWrongType);
        }
        let key = cell_key(handle);
        let bytes = match value.serialize() {
            Ok(bytes) => bytes,
            Err(e) => { return Err(e); },
        };
        let mut items = self.take_items(&key);
        items.push(bytes);
        proof {
            old(self).store().lemma_overwrite(handle.slot());
            assert(crate::in_memory::item_bytes(items@) =~= old(self).store().items(
                handle.slot(),
            ).push(T::encoding(value@)));
        }
        self.put_items(key, items);
        Ok(())
    }

    fn vec_get<T: Value, IK: Metakey, N: Metakey>(
        &self,
        handle: &Handle<VecState<T>, IK, N>,
    ) -> (r: Result<Vec<T>, ArconStateError>)
        ensures
            !self.store().serves(handle) ==> r matches Err(
                ArconStateError::InMemoryWrongType,
            ),
    {
        if !self.serves(handle) {
            return Err(ArconStateError::InMemoryWrongType);
        }
        let key = cell_key(handle);
        match self.items(&key) {
            Some(items) => deserialize_all(items),
            None => Ok(Vec::new()),
        }
    }

    fn vec_iter<T: Value, IK: Metakey, N: Metakey>(
        &self,
        handle: &Handle<VecState<T>, IK, N>,
    ) -> (r: Result<Vec<T>, ArconStateError>)
        ensures
            !self.store().serves(handle) ==> r matches Err(
                ArconStateError::InMemoryWrongType,
            ),
    {
        self.vec_get(handle)
    }

    fn vec_set<T: Value, IK: Metakey, N: Metakey>(
        &mut self,
        handle: &Handle<VecState<T>, IK, N>,
        value: Vec<T>,
    ) -> (r: Result<(), ArconStateError>)
        ensures
            !old(self).store().serves(handle) ==> r matches Err(
                ArconStateError::InMemoryWrongType,
            ),
    {
        if !self.serves(handle) {
            return Err(ArconStateError::InMemoryWrongType);
        }
        let key = cell_key(handle);
        let items = match serialize_all(&value) {
            Ok(items) => items,
            Err(e) => { return Err(e); },
        };
        self.put_items(key, items);
        Ok(())
    }

    fn vec_add_all<T: Value, IK: Metakey, N: Metakey>(
        &mut self,
        handle: &Handle<VecState<T>, IK, N>,
        values: Vec<T>,
    ) -> (r: Result<(), ArconStateError>)
        ensures
            !old(self).store().serves(handle) ==> r matches Err(
                ArconStateError::InMemoryWrongType,
            ),
    {
        if !self.serves(handle) {
            return Err(ArconStateError::InMemoryWrongType);
        }
        let key = cell_key(handle);
        let mut added = match serialize_all(&values) {
            Ok(items) => items,
            Err(e) => { return Err(e); },
        };
        let mut items = self.take_items(&key);
        let ghost before = items@;
        let ghost tail = added@;
        items.append(&mut added);
        proof {
            old(self).store().lemma_overwrite(handle.slot());
            assert(crate::in_memory::item_bytes(items@) =~= crate::in_memory::item_bytes(before)
                + crate::in_memory::item_bytes(tail));
        }
        self.put_items(key, items);
        Ok(())
    }

    fn vec_len<T: Value, IK: Metakey, N: Metakey>(
        &self,
        handle: &Handle<VecState<T>, IK, N>,
    ) -> (r: Result<usize, ArconStateError>)
        ensures
            r matches Err(e) ==> e is InMemoryWrongType,
    {
        if !self.serves(handle) {
            return Err(ArconStateError::InMemoryWrongType);
        }
        let key = cell_key(handle);
        match self.items(&key) {
            Some(items) => Ok(items.len()),
            None => Ok(0),
        }
    }

    fn vec_is_empty<T: Value, IK: Metakey, N: Metakey>(
        &self,
        handle: &Handle<VecState<T>, IK, N>,
    ) -> (r: Result<bool, ArconStateError>)
        ensures
            r matches Err(e) ==> e is InMemoryWrongType,
    {
        if !self.serves(handle) {
            return Err(ArconStateError::InMemoryWrongType);
        }
        let key = cell_key(handle);
        match self.items(&key) {
            Some(items) => Ok(items.len() == 0),
            None => Ok(true),
        }
    }
}

} // verus!
