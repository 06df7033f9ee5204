//! A small document service core: a keyed-token engine with constant-time
//! verification, a request authorization guard, a path-confined document
//! store, and a version-control adapter that pairs every mutation with a
//! commit record.

pub mod api;
pub mod bytes;
pub mod config;
pub mod errors;
pub mod guard;
pub mod repo;
pub mod store;
pub mod tokens;
