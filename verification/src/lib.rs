//! A small, verified to-do service core: one task record kept in an external
//! key-value store, reachable through three operations (set, get, delete)
//! behind an API-key gate, with permissive cross-origin response headers.
//!
//! The store itself, the HTTP transport and the JSON codec live outside this
//! crate; here stand the decisions they carry out: how a task maps onto store
//! commands, what each request is answered with, and the in-memory model of
//! the store that those contracts are stated against.

pub mod auth;
pub mod http;
pub mod laws;
pub mod router;
pub mod service;
pub mod store;
pub mod task;
