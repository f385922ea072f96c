//! Devices as the in-memory store keeps them.
use crate::dto::account::Account;
use vstd::prelude::*;

verus! {

/// The identifier of a device in the in-memory store.
#[derive(Debug)]
pub struct DeviceId(pub String);

impl Clone for DeviceId {
    fn clone(&self) -> (r: Self)
        ensures
            r == *self,
    {
        DeviceId(self.0.clone())
    }
}

/// A device of the in-memory store.
#[derive(Debug)]
pub struct Device {
    pub device_id: DeviceId,
}

/// A request for the devices of an account.
#[derive(Debug)]
pub struct GetDevice {
    pub account: Account,
}

} // verus!
