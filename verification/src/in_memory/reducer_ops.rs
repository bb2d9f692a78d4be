use vstd::prelude::*;
use crate::error::ArconStateError;
use crate::handles::{Handle, Metakey, ReducerState};
use crate::in_memory::{cell_key, InMemory};
use crate::ops::{ReducerOps, StateStore};
use crate::serialization::protobuf::Value;

verus! {

impl ReducerOps for InMemory {
    fn reducer_clear<T: Value, F: Fn(&T, &T) -> T, IK: Metakey, N: Metakey>(
        &mut self,
        handle: &Handle<ReducerState<T, F>, IK, N>,
    ) -> (r: Result<(), ArconStateError>)
        ensures
            r matches Err(e) ==> e is InMemoryWrongType,
    {
        if !self.serves(handle) {
            return Err(ArconStateError::InMemoryWrongType);
        }
        let cell = cell_key(handle);
        self.clear_cell(&cell);
        Ok(())
    }

    fn reducer_get<T: Value, F: Fn(&T, &T) -> T, IK: Metakey, N: Metakey>(
        &self,
        handle: &Handle<ReducerState<T, F>, IK, N>,
    ) -> (r: Result<Option<T>, ArconStateError>)
        ensures
            !self.store().serves(handle) ==> r matches Err(
                ArconStateError::InMemoryWrongType,
            ),
    {
        if !self.serves(handle) {
            return Err(ArconStateError::InMemoryWrongType);
        }
        let cell = cell_key(handle);
        match self.single(&cell) {
            Some(bytes) => {
                match T::deserialize(bytes.as_slice()) {
                    Ok(value) => Ok(Some(value)),
                    Err(e) => Err(e),
                }
            },
            None => Ok(None),
        }
    }

    fn reducer_reduce<T: Value, F: Fn(&T, &T) -> T, IK: Metakey, N: Metakey>(
        &mut self,
        handle: &Handle<ReducerState<T, F>, IK, N>,
        value: T,
    ) -> (r: Result<(), ArconStateError>)
        ensures
            !old(self).store().serves(handle) ==> r matches Err(
                ArconStateError::InMemoryWrongType,
            ),
    {
        if !self.serves(handle) {
            return Err(ArconStateError::InMemoryWrongType);
        }
        let cell = cell_key(handle);
        match self.single(&cell) {
            Some(bytes) => {
                let prior = match T::deserialize(bytes.as_slice()) {
                    Ok(prior) => prior,
                    Err(e) => { return Err(e); },
                };
                let folded = (handle.descriptor().reducer)(&prior, &value);
                let folded_bytes = match folded.serialize() {
                    Ok(bytes) => bytes,
                    Err(e) => {
                        assert(call_ensures(handle.state().reducer, (&prior, &value), folded));
                        assert(!T::encodable(folded@));
                        return Err(e);
                    },
                };
                self.set_single(cell, folded_bytes);
                assert(call_ensures(handle.state().reducer, (&prior, &value), folded));
                Ok(())
            },
            None => {
                let value_bytes = match value.serialize() {
                    Ok(bytes) => bytes,
                    Err(e) => {
                        assert(!T::encodable(value@));
                        return Err(e);
                    },
                };
                self.set_single(cell, value_bytes);
                Ok(())
            },
        }
    }
}

} // verus!
