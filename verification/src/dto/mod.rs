//! Plain data exchanged with clients, devices and the database.
pub mod account;
pub mod device;
pub mod entity;
pub mod http;
pub mod mqtt;
pub mod sse_message;
pub mod task;
