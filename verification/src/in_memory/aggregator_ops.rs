use vstd::prelude::*;
use crate::aggregator::Aggregator;
use crate::error::ArconStateError;
use crate::handles::{AggregatorState, Handle, Metakey};
use crate::in_memory::{cell_key, InMemory};
use crate::ops::{AggregatorOps, StateStore};
use crate::serialization::protobuf::Value;

verus! {

impl AggregatorOps for InMemory {
    fn aggregator_clear<A: Aggregator, IK: Metakey, N: Metakey>(
        &mut self,
        handle: &Handle<AggregatorState<A>, IK, N>,
    ) -> (r: Result<(), ArconStateError>)
        ensures
            r matches Err(e) ==> e is InMemoryWrongType,
    {
        if !self.serves(handle) {
            return Err(ArconStateError::InMemoryWrongType);
        }
        let cell = cell_key(handle);
        self.clear_cell(&cell);
        Ok(())
    }

    fn aggregator_get<A: Aggregator, IK: Metakey, N: Metakey>(
        &self,
        handle: &Handle<AggregatorState<A>, IK, N>,
    ) -> (r: Result<A::Result, ArconStateError>)
        ensures
            !self.store().serves(handle) ==> r matches Err(
                ArconStateError::InMemoryWrongType,
            ),
    {
        if !self.serves(handle) {
            return Err(ArconStateError::InMemoryWrongType);
        }
        let cell = cell_key(handle);
        let aggregator = &handle.descriptor().aggregator;
        let acc = match self.single(&cell) {
            Some(bytes) => {
                match A::Accumulator::deserialize(bytes.as_slice()) {
                    Ok(acc) => acc,
                    Err(e) => { return Err(e); },
                }
            },
            None => aggregator.create_accumulator(),
        };
        Ok(aggregator.accumulator_into_result(acc))
    }

    fn aggregator_aggregate<A: Aggregator, IK: Metakey, N: Metakey>(
        &mut self,
        handle: &Handle<AggregatorState<A>, IK, N>,
        value: A::Input,
    ) -> (r: Result<(), ArconStateError>)
        ensures
            !old(self).store().serves(handle) ==> r matches Err(
                ArconStateError::InMemoryWrongType,
            ),
    {
        if !self.serves(handle) {
            return Err(ArconStateError::InMemoryWrongType);
        }
        let cell = cell_key(handle);
        let aggregator = &handle.descriptor().aggregator;
        let mut acc = match self.single(&cell) {
            Some(bytes) => {
                match A::Accumulator::deserialize(bytes.as_slice()) {
                    Ok(acc) => acc,
                    Err(e) => { return Err(e); },
                }
            },
            None => aggregator.create_accumulator(),
        };
        aggregator.add(&mut acc, value);
        let bytes = match acc.serialize() {
            Ok(bytes) => bytes,
            Err(e) => { return Err(e); },
        };
        self.set_single(cell, bytes);
        Ok(())
    }
}

} // verus!
