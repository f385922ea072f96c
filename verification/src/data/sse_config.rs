//! The names of the server-sent events.
use vstd::prelude::*;

verus! {

/// The names under which events and tasks are sent.
pub struct SSEConfig {
    pub event: String,
    pub task: String,
}

/// The event names: `event` and `task`.
pub fn sse_init_config() -> (c: SSEConfig)
    ensures
        c.event@ == "event"@,
        c.task@ == "task"@,
{
    SSEConfig { event: "event".to_string(), task: "task".to_string() }
}

} // verus!
