//! What the server makes of the rows that its database queries return, and
//! the statements it sends back.
pub mod account;
pub mod device;
pub mod device_laws;
pub mod member;
pub mod sql;
