use vstd::prelude::*;
use crate::error::ArconStateError;
use crate::handles::{Handle, Metakey, ValueState};
use crate::in_memory::{cell_key, InMemory};
use crate::ops::{StateStore, ValueOps};
use crate::serialization::protobuf::Value;

verus! {

impl ValueOps for InMemory {
    fn value_clear<T: Value, IK: Metakey, N: Metakey>(
        &mut self,
        handle: &Handle<ValueState<T>, IK, N>,
    ) -> (r: Result<(), ArconStateError>)
        ensures
            r matches Err(e) ==> e is InMemoryWrongType,
    {
        if !self.serves(handle) {
            return Err(ArconStateError::InMemoryWrongType);
        }
        let key = cell_key(handle);
        self.clear_cell(&key);
        Ok(())
    }

    fn value_get<T: Value, IK: Metakey, N: Metakey>(
        &self,
        handle: &Handle<ValueState<T>, IK, N>,
    ) -> (r: Result<Option<T>, ArconStateError>)
        ensures
            !self.store().serves(handle) ==> r matches Err(
                ArconStateError::InMemoryWrongType,
            ),
    {
        if !self.serves(handle) {
            return Err(ArconStateError::InMemoryWrongType);
        }
        let key = cell_key(handle);
        match self.single(&key) {
            Some(bytes) => {
                match T::deserialize(bytes.as_slice()) {
                    Ok(value) => Ok(Some(value)),
                    Err(e) => Err(e),
                }
            },
            None => Ok(None),
        }
    }

    fn value_set<T: Value, IK: Metakey, N: Metakey>(
        &mut self,
        handle: &Handle<ValueState<T>, IK, N>,
        value: T,
    ) -> (r: Result<Option<T>, ArconStateError>)
        ensures
            !old(self).store().serves(handle) ==> r matches Err(
                ArconStateError::InMemoryWrongType,
            ),
    {
        if !self.serves(handle) {
            return Err(ArconStateError::InMemoryWrongType);
        }
        let key = cell_key(handle);
        let bytes = match value.serialize() {
            Ok(bytes) => bytes,
            Err(e) => { return Err(e); },
        };
        let prior = match self.single(&key) {
            Some(old_bytes) => {
                match T::deserialize(old_bytes.as_slice()) {
                    Ok(prior) => Some(prior),
                    Err(e) => { return Err(e); },
                }
            },
            None => None,
        };
        self.set_single(key, bytes);
        Ok(prior)
    }

    fn value_fast_set<T: Value, IK: Metakey, N: Metakey>(
        &mut self,
        handle: &Handle<ValueState<T>, IK, N>,
        value: T,
    ) -> (r: Result<(), ArconStateError>)
        ensures
            !old(self).store().serves(handle) ==> r matches Err(
                ArconStateError::InMemoryWrongType,
            ),
    {
        if !self.serves(handle) {
            return Err(ArconStateError::InMemoryWrongType);
        }
        let key = cell_key(handle);
        let bytes = match value.serialize() {
            Ok(bytes) => bytes,
            Err(e) => { return Err(e); },
        };
        self.set_single(key, bytes);
        Ok(())
    }
}

} // verus!
