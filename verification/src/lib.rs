//! State management for streaming operators: typed state primitives
//! (values, maps, sequences, reducers, aggregators) behind a
//! backend-independent contract, with registration and checkpointing.
//!
//! An operator declares handles, registers them through the registration
//! token of a fresh session, and then operates on their states through the
//! session. What a backend holds is described by `model::Store`; the
//! contracts of the operations in `ops` say how each of them changes it.

pub mod error;
pub mod serialization;
pub mod model;
pub mod handles;
pub mod aggregator;
pub mod ops;
pub mod backend;
pub mod session;
pub mod bundle;
pub mod laws;
pub mod assoc;
pub mod in_memory;
pub mod image;
pub mod state_backend;
pub mod random;
pub mod collection;
