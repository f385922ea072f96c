//! The stores of the server: what the database rows become, the caches in
//! front of the database, and the state kept in memory.
pub mod cache_database;
pub mod data;
pub mod db;
pub mod memory;
pub use crate::dto::sse_message::SSEMessage;
