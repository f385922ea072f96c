//! State that lives with the server: device status read from raw JSON
//! messages, the server-sent-events sessions and their configuration.
pub mod device;
pub mod sse;
pub mod sse_config;
