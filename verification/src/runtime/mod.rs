//! A model of the protocol in executable Rust: the registry of handlers that
//! a decode loop calls into, and the per-peer batching that a send operation
//! feeds. It follows the same schema as the backends, through the id
//! assignment and the partition of the events, but it stands beside the
//! generated text: nothing here speaks of what a generated module does when
//! it runs.
//!
//! Handlers, peers and instance references are opaque numbers here. Reading
//! and writing payloads belongs to the type codec, framing a message to the
//! buffer of the host, and moving packets to the transport: this module
//! decides which handlers a message reaches and which bytes leave for which
//! peer, and when.

pub mod channel;
pub mod registry;
