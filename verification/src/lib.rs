//! An in-memory key-value store with per-key expiration, and the decisions
//! of the server that shares one store among its connections.

pub mod constants;
pub mod server;
pub mod storage;
pub mod types;
