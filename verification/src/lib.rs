//! Generator core of a schema compiler for a binary, multiplexed event
//! protocol between one server and many clients.
//!
//! A [`config::Config`] lists the declared events in order. The position of a
//! declaration is its wire id, and every backend derives the same ids and the
//! same channel and dispatch shape from the same list, so that a server module
//! and a client module made from one schema interoperate.
//!
//! - [`config`]: the declaration model.
//! - [`protocol`]: id assignment, and the partition of the events by
//!   direction and channel.
//! - [`output`]: the backends. [`output::luau::server`] writes the server
//!   module, [`output::typescript::client`] the typed client surface.
//! - [`runtime`]: a model of the protocol in executable Rust.
//! - [`text`]: indentation, lines and numerals.

pub mod config;
pub mod protocol;
pub mod text;
pub mod output;
pub mod runtime;
