//! The message pushed to a server-sent-events session.
use vstd::prelude::*;

verus! {

/// A text message for the event stream.
#[derive(Debug, Default)]
pub struct SSEMessage {
    pub message: String,
}

impl SSEMessage {
    /// A message holding a copy of the given text.
    pub fn new(message: &str) -> (r: Self)
        ensures
            r.message@ == message@,
    {
        SSEMessage { message: message.to_string() }
    }

    /// The text of the message.
    pub fn message(&self) -> (r: &str)
        ensures
            r@ == self.message@,
    {
        self.message.as_str()
    }
}

} // verus!
