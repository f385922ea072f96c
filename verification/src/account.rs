//! The accounts of the in-memory store.
pub use crate::dto::account::{Account, AccountAction, AccountQuery, Username};
