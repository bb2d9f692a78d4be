use vstd::prelude::*;
use crate::backend::{Backend, StorageConfig};
use crate::error::ArconStateError;
use crate::handles::{Handle, Metakey, StateType};
use crate::in_memory::InMemory;
use crate::model::Store;
use crate::ops::StateStore;
use crate::session::RegistrationPermit;

verus! {

/// What an in-memory backend held when a checkpoint was taken.
pub struct Checkpoint {
    id: String,
    image: InMemory,
}

impl Checkpoint {
    pub closed spec fn id(&self) -> Seq<char> {
        self.id@
    }

    pub closed spec fn store(&self) -> Store {
        self.image.store()
    }

    pub closed spec fn inv(&self) -> bool {
        self.image.inv()
    }

    /// The identifier that the checkpoint was taken under.
    pub fn name(&self) -> (id: &String)
        ensures
            id@ == self.id(),
    {
        &self.id
    }
}

/// Whether `name` is among `names`.
pub fn is_known(names: &Vec<String>, name: &String) -> (known: bool)
    ensures
        known == crate::backend::names_of(names@).contains(name@),
{
    let mut i: usize = 0;
    while i < names.len()
        invariant
            i <= names@.len(),
            forall|j: int| 0 <= j < i ==> crate::backend::names_of(names@)[j] != name@,
        decreases names@.len() - i,
    {
        if names[i] == *name {
            assert(crate::backend::names_of(names@)[i as int] == name@);
            return true;
        }
        i = i + 1;
    }
    false
}

/// A list with the same names.
pub fn copy_names(names: &Vec<String>) -> (copy: Vec<String>)
    ensures
        crate::backend::names_of(copy@) == crate::backend::names_of(names@),
{
    let mut copy: Vec<String> = Vec::new();
    let mut i: usize = 0;
    while i < names.len()
        invariant
            i <= names@.len(),
            copy@.len() == i,
            forall|j: int| 0 <= j < i ==> (#[trigger] copy@[j])@ == names@[j]@,
        decreases names@.len() - i,
    {
        copy.push(names[i].clone());
        i = i + 1;
    }
    assert(crate::backend::names_of(copy@) =~= crate::backend::names_of(names@));
    copy
}

impl Backend for InMemory {
    type Snapshot = Checkpoint;

    open spec fn snapshot_id(snapshot: &Checkpoint) -> Seq<char> {
        snapshot.id()
    }

    open spec fn snapshot_store(snapshot: &Checkpoint) -> Store {
        snapshot.store()
    }

    open spec fn snapshot_inv(snapshot: &Checkpoint) -> bool {
        snapshot.inv()
    }

    /// Every location will do: nothing is kept outside memory.
    fn create(location: &str, config: &StorageConfig) -> (r: Result<Self, ArconStateError>)
        ensures
            r is Ok,
    {
        Ok(InMemory::new())
    }

    fn register<S: StateType, IK: Metakey, N: Metakey>(
        &mut self,
        permit: &RegistrationPermit,
        handle: &mut Handle<S, IK, N>,
    ) -> (r: Result<(), ArconStateError>)
        ensures
            r matches Err(e) ==> e is InMemoryWrongType,
    {
        let kind = handle.kind();
        match self.kind_of(handle.id()) {
            Some(held) => {
                if held == kind {
                    assert(self.store().kinds.insert(handle.name(), kind) =~= self.store().kinds);
                    handle.mark_registered(permit);
                    Ok(())
                } else {
                    Err(ArconStateError::InMemoryWrongType)
                }
            },
            None => {
                self.enter(handle.id().clone(), kind);
                handle.mark_registered(permit);
                Ok(())
            },
        }
    }

    fn checkpoint(&self, id: String) -> (r: Result<Checkpoint, ArconStateError>)
        ensures
            r is Ok,
    {
        Ok(Checkpoint { id, image: self.duplicate() })
    }

    fn restore(snapshot: &Checkpoint, known_names: &Vec<String>) -> (r: Result<
        Self,
        ArconStateError,
    >) {
        match snapshot.image.unknown_name(known_names) {
            Some(unknown_node) => Err(
                ArconStateError::UnknownNode { unknown_node, known_nodes: copy_names(known_names) },
            ),
            None => Ok(snapshot.image.duplicate()),
        }
    }
}

} // verus!
