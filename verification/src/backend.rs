use vstd::prelude::*;
use crate::error::ArconStateError;
use crate::handles::{Handle, Metakey, StateType};
use crate::model::Store;
use crate::ops::{AggregatorOps, MapOps, ReducerOps, StateStore, ValueOps, VecOps};
use crate::session::RegistrationPermit;

verus! {

/// What a backend is created with.
#[derive(Clone, Copy, Debug)]
pub struct StorageConfig {
    /// How many bytes the working set is expected to take. Advice only: an
    /// engine may ignore it.
    pub mem_size_hint: Option<usize>,
}

impl Default for StorageConfig {
    fn default() -> (config: Self)
        ensures
            config.mem_size_hint is None,
    {
        StorageConfig { mem_size_hint: None }
    }
}

/// The views of a list of names.
pub open spec fn names_of(names: Seq<String>) -> Seq<Seq<char>> {
    names.map_values(|name: String| name@)
}

/// A storage engine: it holds the registered states, carries out the
/// operations on them, and can be saved to and brought back from a snapshot.
pub trait Backend: ValueOps + MapOps + VecOps + ReducerOps + AggregatorOps + Sized {
    /// What a checkpoint of this engine consists of.
    type Snapshot;

    /// The identifier that the snapshot was taken under.
    spec fn snapshot_id(snapshot: &Self::Snapshot) -> Seq<char>;

    /// What the snapshot holds.
    spec fn snapshot_store(snapshot: &Self::Snapshot) -> Store;

    /// The snapshot's own consistency.
    spec fn snapshot_inv(snapshot: &Self::Snapshot) -> bool;

    /// A backend that holds nothing, at the given location.
    fn create(location: &str, config: &StorageConfig) -> (r: Result<Self, ArconStateError>)
        ensures
            r matches Ok(backend) ==> backend.inv() && backend.store() == Store::empty(),
    ;

    /// Materialises the state that the handle declares, unless it is there
    /// already, and marks the handle as registered. A name that is taken by a
    /// state of another kind is refused. The permit shows that the call comes
    /// from a registration token.
    fn register<S: StateType, IK: Metakey, N: Metakey>(
        &mut self,
        permit: &RegistrationPermit,
        handle: &mut Handle<S, IK, N>,
    ) -> (r: Result<(), ArconStateError>)
        requires
            old(self).inv(),
        ensures
            final(self).inv(),
            final(handle).name() == old(handle).name(),
            final(handle).state() == old(handle).state(),
            final(handle).item_key() == old(handle).item_key(),
            final(handle).namespace() == old(handle).namespace(),
            match r {
                Ok(()) => {
                    &&& old(self).store().accepts(old(handle).name(), S::kind())
                    &&& final(self).store() == old(self).store().with_kind(
                        old(handle).name(),
                        S::kind(),
                    )
                    &&& final(handle).registered()
                },
                Err(_) => {
                    &&& !old(self).store().accepts(old(handle).name(), S::kind())
                    &&& final(self).store() == old(self).store()
                    &&& final(handle).registered() == old(handle).registered()
                },
            },
    ;

    /// A snapshot of all that the backend holds, under the given identifier.
    /// Whether one can be taken is for the engine to say; it fails for
    /// reasons of its own, never for a state that is not known, which is for
    /// `restore` to find.
    fn checkpoint(&self, id: String) -> (r: Result<Self::Snapshot, ArconStateError>)
        requires
            self.inv(),
        ensures
            match r {
                Ok(snapshot) => {
                    &&& Self::snapshot_inv(&snapshot)
                    &&& Self::snapshot_id(&snapshot) == id@
                    &&& Self::snapshot_store(&snapshot) == self.store()
                },
                Err(e) => !(e is UnknownNode),
            },
    ;

    /// A backend that holds what the snapshot holds. A snapshot with a state
    /// whose name is not among `known_names` is refused, and the error tells
    /// that name and the known ones.
    fn restore(snapshot: &Self::Snapshot, known_names: &Vec<String>) -> (r: Result<
        Self,
        ArconStateError,
    >)
        requires
            Self::snapshot_inv(snapshot),
        ensures
            match r {
                Ok(backend) => {
                    &&& backend.inv()
                    &&& backend.store() == Self::snapshot_store(snapshot)
                    &&& forall|name: Seq<char>| #[trigger]
                        Self::snapshot_store(snapshot).kinds.contains_key(name) ==> names_of(
                            known_names@,
                        ).contains(name)
                },
                Err(e) => {
                    &&& e matches ArconStateError::UnknownNode { unknown_node, known_nodes }
                    &&& Self::snapshot_store(snapshot).kinds.contains_key(unknown_node@)
                    &&& !names_of(known_names@).contains(unknown_node@)
                    &&& names_of(known_nodes@) == names_of(known_names@)
                },
            },
    ;
}

/// What `known_names` make of a state that a store holds under a name that
/// is not among them: the error that names it and them.
pub open spec fn reports_unknown(
    e: ArconStateError,
    store: Store,
    known_names: Seq<String>,
) -> bool {
    &&& e matches ArconStateError::UnknownNode { unknown_node, known_nodes }
    &&& store.kinds.contains_key(unknown_node@)
    &&& !names_of(known_names).contains(unknown_node@)
    &&& names_of(known_nodes@) == names_of(known_names)
}

/// Every name under which the store holds a state is among `known_names`.
pub open spec fn all_known(store: Store, known_names: Seq<String>) -> bool {
    forall|name: Seq<char>| #[trigger]
        store.kinds.contains_key(name) ==> names_of(known_names).contains(name)
}

/// Brings a backend back from what an attempt at a checkpoint gave. A failed
/// attempt is handed on as it is. A snapshot is restored where every state
/// that it holds is known, and refused with the unknown name where one is
/// not.
pub fn restore_taken<B: Backend>(
    taken: Result<B::Snapshot, ArconStateError>,
    known_names: &Vec<String>,
) -> (r: Result<B, ArconStateError>)
    requires
        taken matches Ok(snapshot) ==> B::snapshot_inv(&snapshot),
    ensures
        match taken {
            Err(failure) => r matches Err(e) && e == failure,
            Ok(snapshot) => if all_known(B::snapshot_store(&snapshot), known_names@) {
                &&& r matches Ok(backend)
                &&& backend.inv()
                &&& backend.store() == B::snapshot_store(&snapshot)
            } else {
                r matches Err(e) && reports_unknown(e, B::snapshot_store(&snapshot), known_names@)
            },
        },
{
    match taken {
        Ok(snapshot) => B::restore(&snapshot, known_names),
        Err(failure) => Err(failure),
    }
}

/// Saves a backend and brings it back. Where this succeeds, every state that
/// the backend holds is known and the new backend holds what the old one
/// holds. It fails where the engine cannot take the checkpoint, with the
/// engine's error, and where a state is not known, with that state's name and
/// the known names; a failure that names an unknown state is of the second
/// kind.
pub fn checkpoint_and_restore<B: Backend>(backend: &B, id: String, known_names: &Vec<String>) -> (r:
    Result<B, ArconStateError>)
    requires
        backend.inv(),
    ensures
        match r {
            Ok(restored) => {
                &&& all_known(backend.store(), known_names@)
                &&& restored.inv()
                &&& restored.store() == backend.store()
            },
            Err(e) => e is UnknownNode ==> reports_unknown(e, backend.store(), known_names@),
        },
        all_known(backend.store(), known_names@) ==> (r matches Err(e) ==> !(e is UnknownNode)),
{
    let taken = backend.checkpoint(id);
    restore_taken(taken, known_names)
}

} // verus!
