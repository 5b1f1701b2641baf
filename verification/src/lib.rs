//! The execution core of an edge-computing function runtime: the addressing
//! and event model with its exact binary encoding, the per-instance lifecycle
//! state machine, and the bridge that marshals data across the host/guest
//! sandbox boundary. Every function here carries a contract; the asynchronous
//! plumbing around the core (queues, transports, the sandbox runtime itself)
//! lives outside and hands in plain values.

pub mod bytes;
pub mod cbor;
pub mod container_function;
pub mod errors;
pub mod function_instance;
pub mod guest_api_binding;
pub mod invocation;
pub mod metadata;
