//! The host session's events, as far as this crate reacts to them.

use vstd::prelude::*;

verus! {

/// One event of the host session.
#[derive(Clone, Debug)]
pub enum Event {
    /// The session has been set up; nothing has been received yet.
    Initialize,
    /// A chat line arrived, already rendered as text.
    Chat(String),
    /// A plugin message arrived on the channel `identifier`.
    CustomPayload { identifier: String, data: Vec<u8> },
    /// Anything else.
    Other,
}

} // verus!
