//! What the API handlers compute between reading a request and answering it.
pub mod controller;
pub mod login;
pub mod my;
pub mod sse;
