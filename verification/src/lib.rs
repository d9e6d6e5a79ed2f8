//! A single-instance stateful actor: a named, durable counter object
//! reachable through path-based routing. Each logical name resolves
//! deterministically to one actor instance; the instance applies one
//! request at a time against its persisted state, writes every
//! mutation through to its durable key-value store before responding,
//! and is rebuilt over that store whenever the host evicts it.
//!
//! - [`store`]: the durable key-value store scoped to one instance.
//! - [`profile`]: the profile record persisted beside the counter.
//! - [`actor`]: the instance and its single-step request reducer.
//! - [`registry`]: identity resolution and the one-instance-per-identity map.
//! - [`front_door`]: path parsing and route selection.
//! - [`laws`]: the proved properties that relate all of the above.

pub mod actor;
pub mod front_door;
pub mod laws;
pub mod profile;
pub mod registry;
pub mod store;
pub mod text;
