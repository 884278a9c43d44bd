//! The cache-aware fetch layer of a read-through gateway in front of one
//! upstream JSON service.

pub mod assoc;
pub mod classify;
pub mod client;
pub mod envelope;
pub mod fetch;
pub mod json;
pub mod lru;
pub mod query;
pub mod routes;
pub mod runtime;
pub mod text;

pub use lru::LRU;
