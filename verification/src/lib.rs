//! Verified core of a smart-home server: the in-memory stores, the device
//! state kept from device messages, the caches in front of the database, the
//! grouping of query rows into the house / area / device hierarchy, and the
//! text that the server builds (SQL statements, SSE frames, MQTT topics).
pub mod account;
pub mod api;
pub mod data;
pub mod db;
pub mod dto;
pub mod json;
pub mod name_map;
pub mod search;
pub mod text;
