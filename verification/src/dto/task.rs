//! Tasks queued for an account in the in-memory store.
use crate::dto::account::Account;
use crate::dto::device::DeviceId;
use vstd::prelude::*;

verus! {

/// An action to carry out on a device.
#[derive(Debug)]
pub struct Task {
    pub action: String,
    pub device_id: DeviceId,
}

impl Clone for Task {
    fn clone(&self) -> (r: Self)
        ensures
            r == *self,
    {
        Task { action: self.action.clone(), device_id: self.device_id.clone() }
    }
}

impl Task {
    /// A task that runs `action` on the given device.
    pub fn new(action: String, device_id: DeviceId) -> (r: Self)
        ensures
            r.action == action,
            r.device_id == device_id,
    {
        Task { action, device_id }
    }
}

/// A request for the queued tasks of an account.
pub struct GetTask {
    pub account: Account,
}

/// A request to queue a task for an account.
pub struct PostTask {
    pub account: Account,
    pub task: Task,
}

} // verus!
